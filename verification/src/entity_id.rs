use std::cmp::Ordering;
use vstd::prelude::*;
use vstd::std_specs::cmp::PartialOrdSpecImpl;

verus! {

/// Forces the creation of an `EntityId` to go through code that knows what an
/// entity is; it prevents a "key" to an entity from being made by accident.
pub struct ForceCreationEntity;

/// Represents a created entity in the entity-component store. Entities are ordered by their
/// instance numbers.
#[derive(Copy, Clone, Debug, PartialEq, Eq, Hash, Ord, Structural)]
pub struct EntityId(u32);

/// Represents a read-only reference to an entity created in the entity-component store.
/// References are ordered by the instance numbers of their entities.
#[derive(Copy, Clone, Debug, PartialEq, Eq, Hash, Ord, Structural)]
pub struct EntityIdRead(u32);

/// The order of two instance numbers.
pub open spec fn instance_order(a: u32, b: u32) -> Option<Ordering> {
    if a < b {
        Some(Ordering::Less)
    } else if a == b {
        Some(Ordering::Equal)
    } else {
        Some(Ordering::Greater)
    }
}

fn compare_instances(a: u32, b: u32) -> (r: Option<Ordering>)
    ensures
        r == instance_order(a, b),
{
    if a < b {
        Some(Ordering::Less)
    } else if a == b {
        Some(Ordering::Equal)
    } else {
        Some(Ordering::Greater)
    }
}

impl PartialOrd for EntityId {
    fn partial_cmp(&self, other: &EntityId) -> (r: Option<Ordering>) {
        compare_instances(self.0, other.0)
    }
}

impl PartialOrdSpecImpl for EntityId {
    open spec fn obeys_partial_cmp_spec() -> bool {
        true
    }

    open spec fn partial_cmp_spec(&self, other: &EntityId) -> Option<Ordering> {
        instance_order(self.instance(), other.instance())
    }
}

impl PartialOrd for EntityIdRead {
    fn partial_cmp(&self, other: &EntityIdRead) -> (r: Option<Ordering>) {
        compare_instances(self.0, other.0)
    }
}

impl PartialOrdSpecImpl for EntityIdRead {
    open spec fn obeys_partial_cmp_spec() -> bool {
        true
    }

    open spec fn partial_cmp_spec(&self, other: &EntityIdRead) -> Option<Ordering> {
        instance_order(self.instance(), other.instance())
    }
}

impl EntityId {
    /// The global instance number of this entity, as a mathematical value.
    pub closed spec fn instance(&self) -> u32 {
        self.0
    }

    /// Constructs a new `EntityId` representing the given entity instance.
    pub fn new(entity_instance: u32, _force: ForceCreationEntity) -> (r: EntityId)
        ensures
            r.instance() == entity_instance,
    {
        EntityId(entity_instance)
    }

    /// Get the entity instance of this entity.
    pub fn get_entity_instance(&self) -> (r: u32)
        ensures
            r == self.instance(),
    {
        self.0
    }
}

impl EntityIdRead {
    /// The global instance number of the entity this key reads, as a mathematical value.
    pub closed spec fn instance(&self) -> u32 {
        self.0
    }

    /// Constructs a read key for the given entity.
    pub fn new(entity_id: EntityId) -> (r: EntityIdRead)
        ensures
            r.instance() == entity_id.instance(),
    {
        EntityIdRead(entity_id.0)
    }

    /// Get the entity instance of this entity.
    pub fn get_entity_instance(&self) -> (r: u32)
        ensures
            r == self.instance(),
    {
        self.0
    }
}

/// Two entity identifiers with the same instance number are the same identifier.
pub proof fn lemma_instance_identifies_entity(a: EntityId, b: EntityId)
    ensures
        a.instance() == b.instance() <==> a == b,
{
}

} // verus!
