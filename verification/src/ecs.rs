//! The entity-component store. Each entity has a bitset with one bit per registered
//! component type; a set bit means the component was written for the entity, and the
//! value is then held by that component type's storage.

use crate::collections::{EntitySet, EntitySetMap, entity_set_contents, entity_set_map_contents};
use crate::component_storage::IndexInformation;
use crate::components::{DirectionLight, PointLight, SpotLight};
use crate::entity_id::{EntityId, EntityIdRead, ForceCreationEntity};
use crate::sorted_entities::EntityComponentOrganizer;
use crate::type_identifier::TypeIdentifier;
use vstd::prelude::*;

verus! {

/// `m` with `e` added to the set of `key`, the set being created when there is none.
pub open spec fn lookup_add(m: Map<u64, Set<u32>>, key: u64, e: u32) -> Map<u64, Set<u32>> {
    m.insert(
        key,
        (if m.contains_key(key) {
            m[key]
        } else {
            Set::<u32>::empty()
        }).insert(e),
    )
}

/// `m` with `e` taken out of the set of `key`, if `key` has a set.
pub open spec fn lookup_remove(m: Map<u64, Set<u32>>, key: u64, e: u32) -> Map<u64, Set<u32>> {
    if m.contains_key(key) {
        m.insert(key, m[key].remove(e))
    } else {
        m
    }
}

/// Adds `e` to the set of `key`, creating the set when there is none.
fn set_map_add(m: &mut EntitySetMap, key: u64, e: u32)
    ensures
        final(m)@ == lookup_add(old(m)@, key, e),
{
    let mut set = match m.remove(key) {
        Some(s) => s,
        None => EntitySet::new(),
    };
    set.insert(e);
    m.insert(key, set);
    proof {
        assert(final(m)@ =~= lookup_add(old(m)@, key, e));
    }
}

/// Takes `e` out of the set of `key`, if `key` has a set.
fn set_map_remove(m: &mut EntitySetMap, key: u64, e: u32)
    ensures
        final(m)@ == lookup_remove(old(m)@, key, e),
{
    if let Some(mut set) = m.remove(key) {
        set.remove(e);
        m.insert(key, set);
        proof {
            assert(final(m)@ =~= lookup_remove(old(m)@, key, e));
        }
    } else {
        proof {
            assert(final(m)@ =~= old(m)@);
        }
    }
}

/// The instances of `ids`, in order.
pub open spec fn instances_of(ids: Seq<EntityId>) -> Seq<u32> {
    ids.map_values(|id: EntityId| id.instance())
}

/// `s` is in strictly increasing order.
pub open spec fn strictly_increasing(s: Seq<u32>) -> bool {
    forall|i: int, j: int| 0 <= i < j < s.len() ==> s[i] < s[j]
}

/// The entities with the instances in `values`, in increasing order of instance.
fn sorted_entity_ids(values: &Vec<u32>) -> (r: Vec<EntityId>)
    requires
        values@.no_duplicates(),
    ensures
        strictly_increasing(instances_of(r@)),
        instances_of(r@).to_set() == values@.to_set(),
        r.len() == values.len(),
{
    let mut sorted: Vec<u32> = Vec::new();
    let mut k: usize = 0;
    while k < values.len()
        invariant
            values@.no_duplicates(),
            k <= values.len(),
            sorted.len() == k,
            strictly_increasing(sorted@),
            sorted@.to_set() == values@.subrange(0, k as int).to_set(),
        decreases values.len() - k,
    {
        let x = values[k];
        let mut p: usize = 0;
        while p < sorted.len() && sorted[p] < x
            invariant
                p <= sorted.len(),
                forall|i: int| 0 <= i < p ==> sorted@[i] < x,
            decreases sorted.len() - p,
        {
            p = p + 1;
        }
        proof {
            assert(!sorted@.to_set().contains(x)) by {
                if sorted@.to_set().contains(x) {
                    assert(values@.subrange(0, k as int).to_set().contains(x));
                    let j = choose|j: int| 0 <= j < k && values@.subrange(0, k as int)[j] == x;
                    assert(values@[j] == values@[k as int]);
                }
            }
            if p < sorted.len() {
                assert(sorted@[p as int] != x) by {
                    assert(sorted@.to_set().contains(sorted@[p as int]));
                }
            }
        }
        let ghost before = sorted@;
        sorted.insert(p, x);
        proof {
            assert(sorted@ == before.insert(p as int, x));
            assert forall|i: int, j: int| 0 <= i < j < sorted.len() implies sorted@[i] < sorted@[j] by {
                if j < p {
                    assert(sorted@[i] == before[i] && sorted@[j] == before[j]);
                } else if j == p {
                    assert(sorted@[i] == before[i]);
                } else if i < p {
                    assert(sorted@[i] == before[i] && sorted@[j] == before[j - 1]);
                    assert(before[i] < x);
                } else if i == p {
                    assert(sorted@[j] == before[j - 1]);
                    assert(before[p as int] <= before[j - 1]);
                } else {
                    assert(sorted@[i] == before[i - 1] && sorted@[j] == before[j - 1]);
                }
            }
            let next = values@.subrange(0, k + 1);
            let prev = values@.subrange(0, k as int);
            assert(next == prev.push(x));
            assert(sorted@.to_set() =~= next.to_set()) by {
                assert forall|y: u32| sorted@.to_set().contains(y) <==> next.to_set().contains(y) by {
                    if sorted@.to_set().contains(y) {
                        let i = choose|i: int| 0 <= i < sorted.len() && sorted@[i] == y;
                        if i != p {
                            let i0 = if i < p { i } else { i - 1 };
                            assert(before[i0] == y);
                            assert(before.to_set().contains(y));
                            assert(prev.to_set().contains(y));
                            let jj = choose|jj: int| 0 <= jj < prev.len() && prev[jj] == y;
                            assert(next[jj] == y);
                        } else {
                            assert(next[k as int] == y);
                        }
                    }
                    if next.to_set().contains(y) {
                        let jj = choose|jj: int| 0 <= jj < next.len() && next[jj] == y;
                        if jj < k {
                            assert(prev[jj] == y);
                            assert(prev.to_set().contains(y));
                            assert(before.to_set().contains(y));
                            let i = choose|i: int| 0 <= i < before.len() && before[i] == y;
                            if i < p {
                                assert(sorted@[i] == y);
                            } else {
                                assert(sorted@[i + 1] == y);
                            }
                        } else {
                            assert(sorted@[p as int] == y);
                        }
                    }
                }
            }
        }
        k = k + 1;
    }
    assert(values@.subrange(0, values.len() as int) == values@);
    let mut r: Vec<EntityId> = Vec::new();
    let mut i: usize = 0;
    while i < sorted.len()
        invariant
            i <= sorted.len(),
            r.len() == i,
            forall|j: int| 0 <= j < i ==> (#[trigger] r@[j]).instance() == sorted@[j],
        decreases sorted.len() - i,
    {
        r.push(EntityId::new(sorted[i], ForceCreationEntity));
        i = i + 1;
    }
    assert(instances_of(r@) =~= sorted@);
    r
}

/// One bit of a bitset byte represents one component.
pub const COMPONENTS_PER_BYTE: usize = 8;

/// The number of component types one store can hold.
pub const MAX_NUMBER_COMPONENTS: usize = 32;

/// The number of bytes of one entity's bitset.
pub const BITSET_BYTES: usize = 4;

/// The size in bytes of the value of the entity-type component (a `TypeIdentifier`).
pub const ENTITY_TYPE_SIZE: usize = 8;

/// Determines the number of bytes required to store `number` component bits.
pub fn num_bytes_for_components(number: usize) -> (r: usize)
    ensures
        r == number / 8 + (if number % 8 == 0 {
            0int
        } else {
            1int
        }),
        r * 8 >= number,
        r * 8 < number + 8,
{
    let roundup: usize = if number % COMPONENTS_PER_BYTE == 0 {
        0
    } else {
        1
    };
    number / COMPONENTS_PER_BYTE + roundup
}

/// Computes the byte, and the bit within it, that represent the given component index.
pub fn calculate_byte_bit_offset(component_index: usize) -> (r: (usize, usize))
    ensures
        r.0 == component_index / 8,
        r.1 == component_index % 8,
        r.0 * 8 + r.1 == component_index,
{
    let byte = component_index / COMPONENTS_PER_BYTE;
    (byte, component_index - byte * COMPONENTS_PER_BYTE)
}

/// Bit `k` of the byte `b` is set.
pub open spec fn byte_has_bit(b: u8, k: int) -> bool {
    ((b >> (k as u8)) & 1u8) == 1u8
}

/// The bit of component `c` is set in the bitset `bits`.
pub open spec fn bitset_has(bits: [u8; 4], c: int) -> bool {
    byte_has_bit(bits@[c / 8], c % 8)
}

proof fn lemma_byte_set_bit(b: u8, bit: u8, k: u8)
    by (bit_vector)
    requires
        bit < 8,
        k < 8,
    ensures
        ((((b | (1u8 << bit)) >> k) & 1u8) == 1u8) == (k == bit || ((b >> k) & 1u8) == 1u8),
        ((((b & !(1u8 << bit)) >> k) & 1u8) == 1u8) == (k != bit && ((b >> k) & 1u8) == 1u8),
        ((0u8 >> k) & 1u8) != 1u8,
{
}

proof fn lemma_byte_ext(a: u8, b: u8)
    by (bit_vector)
    requires
        ((a >> 0u8) & 1u8) == ((b >> 0u8) & 1u8),
        ((a >> 1u8) & 1u8) == ((b >> 1u8) & 1u8),
        ((a >> 2u8) & 1u8) == ((b >> 2u8) & 1u8),
        ((a >> 3u8) & 1u8) == ((b >> 3u8) & 1u8),
        ((a >> 4u8) & 1u8) == ((b >> 4u8) & 1u8),
        ((a >> 5u8) & 1u8) == ((b >> 5u8) & 1u8),
        ((a >> 6u8) & 1u8) == ((b >> 6u8) & 1u8),
        ((a >> 7u8) & 1u8) == ((b >> 7u8) & 1u8),
    ensures
        a == b,
{
}

proof fn lemma_bit_eq(x: u8, y: u8, k: u8)
    by (bit_vector)
    requires
        (((x >> k) & 1u8) == 1u8) == (((y >> k) & 1u8) == 1u8),
    ensures
        ((x >> k) & 1u8) == ((y >> k) & 1u8),
{
}

proof fn lemma_bitset_byte_eq(a: [u8; 4], b: [u8; 4], i: int)
    requires
        0 <= i < 4,
        forall|k: int| 0 <= k < 32 ==> #[trigger] bitset_has(a, k) == bitset_has(b, k),
    ensures
        a@[i] == b@[i],
{
    assert(bitset_has(a, 8 * i + 0) == bitset_has(b, 8 * i + 0));
    assert(bitset_has(a, 8 * i + 1) == bitset_has(b, 8 * i + 1));
    assert(bitset_has(a, 8 * i + 2) == bitset_has(b, 8 * i + 2));
    assert(bitset_has(a, 8 * i + 3) == bitset_has(b, 8 * i + 3));
    assert(bitset_has(a, 8 * i + 4) == bitset_has(b, 8 * i + 4));
    assert(bitset_has(a, 8 * i + 5) == bitset_has(b, 8 * i + 5));
    assert(bitset_has(a, 8 * i + 6) == bitset_has(b, 8 * i + 6));
    assert(bitset_has(a, 8 * i + 7) == bitset_has(b, 8 * i + 7));
    lemma_bit_eq(a@[i], b@[i], 0u8);
    lemma_bit_eq(a@[i], b@[i], 1u8);
    lemma_bit_eq(a@[i], b@[i], 2u8);
    lemma_bit_eq(a@[i], b@[i], 3u8);
    lemma_bit_eq(a@[i], b@[i], 4u8);
    lemma_bit_eq(a@[i], b@[i], 5u8);
    lemma_bit_eq(a@[i], b@[i], 6u8);
    lemma_bit_eq(a@[i], b@[i], 7u8);
    lemma_byte_ext(a@[i], b@[i]);
}

/// Two bitsets with the same 32 component bits are the same bitset.
pub proof fn lemma_bitset_ext(a: [u8; 4], b: [u8; 4])
    requires
        forall|k: int| 0 <= k < 32 ==> #[trigger] bitset_has(a, k) == bitset_has(b, k),
    ensures
        a == b,
{
    lemma_bitset_byte_eq(a, b, 0);
    lemma_bitset_byte_eq(a, b, 1);
    lemma_bitset_byte_eq(a, b, 2);
    lemma_bitset_byte_eq(a, b, 3);
    assert(a@ =~= b@);
}

/// The bitset `bits` with the bit of component `c` set to `value`.
fn bitset_with(bits: [u8; 4], c: usize, value: bool) -> (r: [u8; 4])
    requires
        c < 32,
    ensures
        forall|k: int| 0 <= k < 32 ==> #[trigger] bitset_has(r, k) == (if k == c {
            value
        } else {
            bitset_has(bits, k)
        }),
{
    let (byte, bit) = calculate_byte_bit_offset(c);
    let mut r = bits;
    let b = r[byte];
    let nb = if value {
        b | (1u8 << (bit as u8))
    } else {
        b & !(1u8 << (bit as u8))
    };
    r[byte] = nb;
    proof {
        assert forall|k: int| 0 <= k < 32 implies #[trigger] bitset_has(r, k) == (if k == c {
            value
        } else {
            bitset_has(bits, k)
        }) by {
            lemma_byte_set_bit(b, bit as u8, (k % 8) as u8);
            if k / 8 != byte {
                assert(r@[k / 8] == bits@[k / 8]);
            }
        }
    }
    r
}

/// Whether the bit of component `c` is set in `bits`.
fn bitset_get(bits: &[u8; 4], c: usize) -> (r: bool)
    requires
        c < 32,
    ensures
        r == bitset_has(*bits, c as int),
{
    let (byte, bit) = calculate_byte_bit_offset(c);
    (bits[byte] >> (bit as u8)) & 1u8 == 1u8
}

/// An entity-component store. Stores the component types, and the values of components
/// written for each entity.
pub struct ECS {
    registered_types: Vec<IndexInformation>,
    bitsets: Vec<[u8; 4]>,
    entity_model_lookup: EntitySetMap,
    free_indexes: Vec<usize>,
    organizer: EntityComponentOrganizer,
    max_num_components: usize,
    user_entity_id: EntityId,
    owned_entities: EntitySetMap,
    referenced_entities: EntitySetMap,
}

impl ECS {
    /// The number of entity instances ever created (live or freed).
    pub closed spec fn num_entities(&self) -> nat {
        self.bitsets@.len()
    }

    /// The registered component types, in registration order.
    pub closed spec fn component_types(&self) -> Seq<TypeIdentifier> {
        self.registered_types@.map_values(|c: IndexInformation| c.type_identifier())
    }

    /// The size in bytes of a value of the component at index `c`.
    pub closed spec fn component_size(&self, c: int) -> nat {
        self.registered_types@[c].size()
    }

    /// Whether the component at index `c` was written for the entity instance `e`.
    pub closed spec fn has_component(&self, e: int, c: int) -> bool {
        0 <= e < self.bitsets.len() && 0 <= c < 32 && bitset_has(self.bitsets@[e], c)
    }

    /// The bitset of the entity instance `e`.
    pub closed spec fn bitset(&self, e: int) -> [u8; 4] {
        self.bitsets@[e]
    }

    /// The values of the component at index `c`, by entity instance.
    pub closed spec fn component_values(&self, c: int) -> Map<u32, Seq<u8>> {
        self.registered_types@[c].values()
    }

    /// The storage of the component at index `c`.
    pub closed spec fn storage(&self, c: int) -> IndexInformation {
        self.registered_types@[c]
    }

    /// Entity instances that were removed and whose bitsets are reused, oldest first.
    pub closed spec fn free_entities(&self) -> Seq<usize> {
        self.free_indexes@
    }

    /// The entities of each entity type, by raw type identifier.
    pub closed spec fn type_lookup(&self) -> Map<u64, Set<u32>> {
        self.entity_model_lookup@
    }

    /// The entities each entity owns, by owner instance.
    pub closed spec fn owned(&self) -> Map<u64, Set<u32>> {
        self.owned_entities@
    }

    /// The entities each entity references, by referencing instance.
    pub closed spec fn referenced(&self) -> Map<u64, Set<u32>> {
        self.referenced_entities@
    }

    /// The sortable groups' component types.
    pub closed spec fn sortable_types(&self) -> Seq<TypeIdentifier> {
        self.organizer.sortable_types()
    }

    /// The sortable group each entity instance is in.
    pub closed spec fn sortable_membership(&self) -> Map<u32, usize> {
        self.organizer.membership()
    }

    /// The entity controlled by the user; the temporary entity until it is first asked for.
    pub closed spec fn user_entity(&self) -> EntityId {
        self.user_entity_id
    }

    /// Whether the type `t` is a registered component type.
    pub open spec fn is_registered(&self, t: TypeIdentifier) -> bool {
        self.component_types().contains(t)
    }

    /// The index of the registered component type `t`.
    pub open spec fn type_index(&self, t: TypeIdentifier) -> int {
        self.component_types().index_of(t)
    }

    /// The entity type written for the entity instance `e`, if any.
    pub open spec fn entity_type(&self, e: u32) -> Option<TypeIdentifier> {
        if self.has_component(e as int, 0) {
            Some(TypeIdentifier { t: vstd::bytes::spec_u64_from_le_bytes(self.component_values(0)[e]) })
        } else {
            None
        }
    }

    /// The component types, value sizes, entity instances and free instances are the same.
    pub open spec fn same_layout(&self, other: &ECS) -> bool {
        &&& self.component_types() == other.component_types()
        &&& forall|c: int| 0 <= c < self.component_types().len() ==> #[trigger] self.component_size(c) == other.component_size(c)
        &&& self.num_entities() == other.num_entities()
        &&& self.free_entities() == other.free_entities()
    }

    /// Every component bit and every component value is the same, and so is the layout.
    pub open spec fn same_store(&self, other: &ECS) -> bool {
        &&& self.same_layout(other)
        &&& forall|e: int, c: int| #[trigger] self.has_component(e, c) == other.has_component(e, c)
        &&& forall|c: int| 0 <= c < self.component_types().len() ==> #[trigger] self.component_values(c) == other.component_values(c)
    }

    /// The entity-type lookup and the owned and referenced entities are the same.
    pub open spec fn same_relations(&self, other: &ECS) -> bool {
        &&& self.type_lookup() == other.type_lookup()
        &&& self.owned() == other.owned()
        &&& self.referenced() == other.referenced()
    }

    /// The sortable groups and the user's entity are the same.
    pub open spec fn same_groups(&self, other: &ECS) -> bool {
        &&& self.sortable_types() == other.sortable_types()
        &&& self.sortable_membership() == other.sortable_membership()
        &&& self.user_entity() == other.user_entity()
    }

    /// Everything other than the component values and bits is the same.
    pub open spec fn same_bookkeeping(&self, other: &ECS) -> bool {
        &&& self.same_layout(other)
        &&& self.same_relations(other)
        &&& self.same_groups(other)
    }

    /// The store's invariant: the bitsets and the storages agree on which entity has which
    /// component, and the entity-type component is registered first.
    pub closed spec fn wf(&self) -> bool {
        &&& 1 <= self.registered_types.len() <= 32
        &&& self.max_num_components == 32
        &&& self.registered_types@[0].size() == 8
        &&& forall|c: int| 0 <= c < self.registered_types.len() ==> (#[trigger] self.registered_types@[c]).wf()
        &&& forall|i: int, j: int|
            0 <= i < self.registered_types.len() && 0 <= j < self.registered_types.len() && i != j
                ==> (#[trigger] self.registered_types@[i]).type_identifier() != (#[trigger] self.registered_types@[j]).type_identifier()
        &&& forall|e: int, c: int|
            0 <= e < self.bitsets.len() && 0 <= c < 32 && #[trigger] bitset_has(self.bitsets@[e], c) ==> c < self.registered_types.len()
        &&& forall|c: int, e: u32|
            0 <= c < self.registered_types.len() ==> (#[trigger] self.registered_types@[c].offsets().contains_key(e) <==> (e
                < self.bitsets.len() && bitset_has(self.bitsets@[e as int], c)))
        &&& forall|i: int| 0 <= i < self.free_indexes.len() ==> #[trigger] self.free_indexes@[i] < self.bitsets.len()
        &&& self.bitsets.len() <= u32::MAX
        &&& self.organizer.wf()
        &&& (self.user_entity_id.instance() == u32::MAX || self.user_entity_id.instance() < self.bitsets.len())
    }

    /// Creates an entity-component store whose only component type is the entity type,
    /// with the light types as sortable groups.
    pub fn new() -> (r: ECS)
        ensures
            r.wf(),
            r.component_types().len() == 1,
            r.num_entities() == 0,
            r.free_entities() == Seq::<usize>::empty(),
            r.type_lookup() == Map::<u64, Set<u32>>::empty(),
            r.owned() == Map::<u64, Set<u32>>::empty(),
            r.referenced() == Map::<u64, Set<u32>>::empty(),
            r.sortable_types().len() == 4,
            r.sortable_membership() == Map::<u32, usize>::empty(),
            r.user_entity().instance() == u32::MAX,
    {
        let default_sortable_components = vec![
            TypeIdentifier::of::<DirectionLight>(),
            TypeIdentifier::of::<PointLight>(),
            TypeIdentifier::of::<SpotLight>(),
        ];
        let mut registered_types: Vec<IndexInformation> = Vec::new();
        registered_types.push(IndexInformation::new(TypeIdentifier::of::<TypeIdentifier>(), ENTITY_TYPE_SIZE));
        let r = ECS {
            registered_types,
            bitsets: Vec::new(),
            entity_model_lookup: EntitySetMap::new(),
            free_indexes: Vec::new(),
            organizer: EntityComponentOrganizer::new(default_sortable_components),
            max_num_components: MAX_NUMBER_COMPONENTS,
            user_entity_id: ECS::get_temporary_entity_id(),
            owned_entities: EntitySetMap::new(),
            referenced_entities: EntitySetMap::new(),
        };
        assert(r.type_lookup() =~= Map::<u64, Set<u32>>::empty());
        assert(r.owned() =~= Map::<u64, Set<u32>>::empty());
        assert(r.referenced() =~= Map::<u64, Set<u32>>::empty());
        assert(r.sortable_membership() =~= Map::<u32, usize>::empty());
        r
    }

    /// The index of the component type `t`, if it is registered.
    pub fn index_of(&self, t: TypeIdentifier) -> (r: Option<usize>)
        requires
            self.wf(),
        ensures
            r is Some <==> self.is_registered(t),
            r matches Some(i) ==> i < self.component_types().len() && self.component_types()[i as int] == t
                && i == self.type_index(t),
    {
        let mut i: usize = 0;
        while i < self.registered_types.len()
            invariant
                self.wf(),
                i <= self.registered_types.len(),
                forall|j: int| 0 <= j < i ==> self.component_types()[j] != t,
            decreases self.registered_types.len() - i,
        {
            if self.registered_types[i].get_type_id() == t {
                proof {
                    self.lemma_type_index(i as int);
                }
                return Some(i);
            }
            i = i + 1;
        }
        proof {
            if self.is_registered(t) {
                let k = choose|k: int| 0 <= k < self.component_types().len() && self.component_types()[k] == t;
                assert(self.component_types()[k] == t);
            }
        }
        None
    }

    /// Entity instances are 32-bit numbers: there are at most `u32::MAX` entities.
    pub proof fn lemma_entity_count_bounded(&self)
        requires
            self.wf(),
        ensures
            self.num_entities() <= u32::MAX,
    {
    }

    /// The bitset of an entity has exactly the bits of the component indexes it has.
    pub proof fn lemma_bitset_reads_components(&self, e: int)
        requires
            0 <= e < self.num_entities(),
        ensures
            forall|k: int| 0 <= k < 32 ==> #[trigger] bitset_has(self.bitset(e), k) == self.has_component(e, k),
    {
    }

    /// Values of the entity-type component, at index 0, take 8 bytes.
    pub proof fn lemma_entity_type_size(&self)
        requires
            self.wf(),
        ensures
            self.component_size(0) == 8,
    {
    }

    /// Only entities of the store have components.
    pub proof fn lemma_component_holder_exists(&self, e: int, c: int)
        ensures
            self.has_component(e, c) ==> 0 <= e < self.num_entities(),
    {
    }

    /// Two different indexes hold two different component types.
    pub proof fn lemma_types_distinct(&self, i: int, j: int)
        requires
            self.wf(),
            0 <= i < self.component_types().len(),
            0 <= j < self.component_types().len(),
            i != j,
        ensures
            self.component_types()[i] != self.component_types()[j],
    {
        assert(self.registered_types@[i].type_identifier() != self.registered_types@[j].type_identifier());
    }

    /// The registered type at index `i` has index `i`.
    proof fn lemma_type_index(&self, i: int)
        requires
            self.wf(),
            0 <= i < self.component_types().len(),
        ensures
            self.is_registered(self.component_types()[i]),
            self.type_index(self.component_types()[i]) == i,
    {
        let t = self.component_types()[i];
        assert(self.component_types()[i] == t);
        let k = self.type_index(t);
        assert(0 <= k < self.component_types().len() && self.component_types()[k] == t);
        if k != i {
            assert(self.registered_types@[k].type_identifier() != self.registered_types@[i].type_identifier());
        }
    }

    /// Register a type as a component whose values take `component_size` bytes; afterwards
    /// that component can be written for an entity. Registering a registered type again has
    /// no effect.
    pub fn register_type(&mut self, type_id: TypeIdentifier, component_size: usize)
        requires
            old(self).wf(),
            old(self).component_types().len() < MAX_NUMBER_COMPONENTS,
        ensures
            final(self).wf(),
            final(self).component_types() == (if old(self).is_registered(type_id) {
                old(self).component_types()
            } else {
                old(self).component_types().push(type_id)
            }),
            !old(self).is_registered(type_id) ==> final(self).component_size(
                old(self).component_types().len() as int,
            ) == component_size && final(self).component_values(old(self).component_types().len() as int)
                == Map::<u32, Seq<u8>>::empty(),
            forall|c: int| 0 <= c < old(self).component_types().len() ==> #[trigger] final(self).storage(c) == old(self).storage(c),
            forall|t: TypeIdentifier|
                #![trigger final(self).is_registered(t)]
                #![trigger final(self).component_types().contains(t)]
                final(self).is_registered(t) == (old(self).is_registered(t) || t == type_id),
            forall|t: TypeIdentifier|
                #![trigger final(self).type_index(t)]
                #![trigger final(self).component_types().index_of(t)]
                old(self).is_registered(t) ==> final(self).type_index(t) == old(self).type_index(t),
            final(self).type_index(type_id) == (if old(self).is_registered(type_id) {
                old(self).type_index(type_id)
            } else {
                old(self).component_types().len() as int
            }),
            forall|c: int| 0 <= c < old(self).component_types().len() ==> #[trigger] final(self).component_size(c)
                == old(self).component_size(c),
            forall|c: int| 0 <= c < old(self).component_types().len() ==> #[trigger] final(self).component_values(c)
                == old(self).component_values(c),
            forall|e: int, c: int| #[trigger] final(self).has_component(e, c) == old(self).has_component(e, c),
            forall|e: int| 0 <= e < old(self).num_entities() ==> #[trigger] final(self).bitset(e) == old(self).bitset(e),
            final(self).num_entities() == old(self).num_entities(),
            final(self).free_entities() == old(self).free_entities(),
            final(self).type_lookup() == old(self).type_lookup(),
            final(self).owned() == old(self).owned(),
            final(self).referenced() == old(self).referenced(),
            final(self).sortable_types() == old(self).sortable_types(),
            final(self).sortable_membership() == old(self).sortable_membership(),
            final(self).user_entity() == old(self).user_entity(),
    {
        if self.index_of(type_id).is_none() {
            let ghost n = self.registered_types.len() as int;
            self.registered_types.push(IndexInformation::new(type_id, component_size));
            proof {
                assert(self.component_types() =~= old(self).component_types().push(type_id));
                assert forall|i: int, j: int|
                    0 <= i < self.registered_types.len() && 0 <= j < self.registered_types.len() && i != j implies (#[trigger] self.registered_types@[i]).type_identifier()
                    != (#[trigger] self.registered_types@[j]).type_identifier() by {
                    if i == n {
                        assert(old(self).component_types()[j] != type_id);
                    } else if j == n {
                        assert(old(self).component_types()[i] != type_id);
                    } else {
                        assert(self.registered_types@[i] == old(self).registered_types@[i]);
                        assert(self.registered_types@[j] == old(self).registered_types@[j]);
                    }
                }
                assert forall|c: int, e: u32| 0 <= c < self.registered_types.len() implies (#[trigger] self.registered_types@[c].offsets().contains_key(e)
                    <==> (e < self.bitsets.len() && bitset_has(self.bitsets@[e as int], c))) by {
                    if c == n {
                        if e < self.bitsets.len() && bitset_has(self.bitsets@[e as int], c) {
                            assert(c < old(self).registered_types.len());
                        }
                    } else {
                        assert(self.registered_types@[c] == old(self).registered_types@[c]);
                    }
                }
                assert forall|c: int| 0 <= c < self.registered_types.len() implies (#[trigger] self.registered_types@[c]).wf() by {
                    if c < n {
                        assert(self.registered_types@[c] == old(self).registered_types@[c]);
                    }
                }
                assert forall|t: TypeIdentifier| #[trigger] self.is_registered(t) == (old(self).is_registered(t) || t == type_id) by {
                    if old(self).is_registered(t) {
                        let k = choose|k: int| 0 <= k < old(self).component_types().len() && old(self).component_types()[k] == t;
                        assert(self.component_types()[k] == t);
                    }
                    if t == type_id {
                        assert(self.component_types()[n] == t);
                    }
                    if self.is_registered(t) {
                        let k = choose|k: int| 0 <= k < self.component_types().len() && self.component_types()[k] == t;
                        if k < n {
                            assert(old(self).component_types()[k] == t);
                        }
                    }
                }
                assert forall|t: TypeIdentifier| old(self).is_registered(t) implies #[trigger] self.type_index(t) == old(self).type_index(t) by {
                    let k = old(self).type_index(t);
                    assert(self.component_types()[k] == t);
                    self.lemma_type_index(k);
                }
                self.lemma_type_index(n);
            }
        }
    }

    /// Whether the component `type_id` was written for the entity: `Err` when the type was
    /// never registered.
    pub fn check_component_written(&self, entity_id: EntityId, type_id: TypeIdentifier) -> (r: Result<bool, ()>)
        requires
            self.wf(),
            self.is_registered(type_id) ==> entity_id.instance() < self.num_entities(),
        ensures
            r == (if self.is_registered(type_id) {
                Ok::<bool, ()>(self.has_component(entity_id.instance() as int, self.type_index(type_id)))
            } else {
                Err::<bool, ()>(())
            }),
    {
        if let Some(component_index) = self.index_of(type_id) {
            let e = entity_id.get_entity_instance() as usize;
            if bitset_get(&self.bitsets[e], component_index) {
                return Ok(true);
            } else {
                return Ok(false);
            }
        }
        Err(())
    }

    /// Whether an entity type was written for the entity.
    pub fn check_entity_type_written(&self, entity_id: EntityId) -> (r: Result<bool, ()>)
        requires
            self.wf(),
            entity_id.instance() < self.num_entities(),
        ensures
            r == Ok::<bool, ()>(self.has_component(entity_id.instance() as int, 0)),
    {
        let e = entity_id.get_entity_instance() as usize;
        Ok(bitset_get(&self.bitsets[e], 0))
    }

    /// Whether the registered component `type_id` was written for the entity.
    pub fn check_component_written_assume_registered(&self, entity_id: EntityId, type_id: TypeIdentifier) -> (r: bool)
        requires
            self.wf(),
            self.is_registered(type_id),
            entity_id.instance() < self.num_entities(),
        ensures
            r == self.has_component(entity_id.instance() as int, self.type_index(type_id)),
    {
        match self.check_component_written(entity_id, type_id) {
            Ok(written) => written,
            Err(_) => false,
        }
    }

    /// What `create_entity` does when it answers `r`: the most recently freed instance is
    /// reused, else a new instance is added; the entity has no components (any left on a
    /// reused instance are removed) and joins the default sortable group.
    pub open spec fn created(&self, old: &ECS, r: EntityId) -> bool {
        &&& old.free_entities().len() > 0 ==> r.instance() == old.free_entities().last() && self.free_entities()
            == old.free_entities().drop_last() && self.num_entities() == old.num_entities()
        &&& old.free_entities().len() == 0 ==> r.instance() == old.num_entities() && self.free_entities()
            == old.free_entities() && self.num_entities() == old.num_entities() + 1
        &&& r.instance() < self.num_entities()
        &&& self.bitset(r.instance() as int) == [0u8, 0u8, 0u8, 0u8]
        &&& forall|c: int| !(#[trigger] self.has_component(r.instance() as int, c))
        &&& forall|e: int| 0 <= e < old.num_entities() && e != r.instance() ==> #[trigger] self.bitset(e) == old.bitset(e)
        &&& forall|e: int, c: int| e != r.instance() ==> #[trigger] self.has_component(e, c) == old.has_component(e, c)
        &&& self.component_types() == old.component_types()
        &&& forall|c: int| 0 <= c < old.component_types().len() ==> #[trigger] self.component_size(c) == old.component_size(c)
        &&& forall|c: int| 0 <= c < old.component_types().len() ==> #[trigger] self.component_values(c)
            == old.component_values(c).remove(r.instance())
        &&& self.same_relations(old)
        &&& self.sortable_types() == old.sortable_types()
        &&& self.sortable_membership() == old.sortable_membership().insert(r.instance(), 0usize)
    }

    /// Creates an entity with no components attached, reusing the instance of the most
    /// recently removed entity when there is one. The entity joins the default sortable group.
    pub fn create_entity(&mut self) -> (r: EntityId)
        requires
            old(self).wf(),
            old(self).free_entities().len() == 0 ==> old(self).num_entities() < u32::MAX,
        ensures
            final(self).wf(),
            final(self).created(old(self), r),
            final(self).user_entity() == old(self).user_entity(),
    {
        let entity_id = match self.free_indexes.pop() {
            Some(index) => {
                proof {
                    assert(old(self).free_indexes@[old(self).free_indexes.len() - 1] == index);
                    assert forall|i: int| 0 <= i < self.free_indexes.len() implies #[trigger] self.free_indexes@[i] < self.bitsets.len() by {
                        assert(self.free_indexes@[i] == old(self).free_indexes@[i]);
                    }
                    assert(index < old(self).bitsets.len());
                }
                let id = EntityId::new(index as u32, ForceCreationEntity);
                let ghost popped = *self;
                assert(forall|c: int| #[trigger] popped.component_values(c) == old(self).component_values(c));
                assert(forall|c: int| #[trigger] popped.component_size(c) == old(self).component_size(c));
                self.clear_components(id);
                assert(forall|c: int| 0 <= c < old(self).component_types().len() ==> #[trigger] self.component_size(c)
                    == old(self).component_size(c));
                id
            },
            None => {
                let entity_id = self.bitsets.len() as u32;
                self.bitsets.push([0u8, 0u8, 0u8, 0u8]);
                proof {
                    assert forall|k: int| 0 <= k < 32 implies !bitset_has([0u8, 0u8, 0u8, 0u8], k) by {
                        lemma_byte_set_bit(0u8, 0u8, (k % 8) as u8);
                    }
                    assert forall|c: int, e: u32| 0 <= c < self.registered_types.len() implies (#[trigger] self.registered_types@[c].offsets().contains_key(e)
                        <==> (e < self.bitsets.len() && bitset_has(self.bitsets@[e as int], c))) by {
                        assert(old(self).registered_types@[c].offsets().contains_key(e) <==> (e < old(self).bitsets.len()
                            && bitset_has(old(self).bitsets@[e as int], c)));
                        if e >= old(self).bitsets.len() && e < self.bitsets.len() {
                            assert(!bitset_has(self.bitsets@[e as int], c));
                        }
                    }
                    assert forall|i: int| 0 <= i < self.free_indexes.len() implies #[trigger] self.free_indexes@[i] < self.bitsets.len() by {
                        assert(self.free_indexes@[i] == old(self).free_indexes@[i]);
                    }
                    assert forall|e: int, c: int|
                        0 <= e < self.bitsets.len() && 0 <= c < 32 && #[trigger] bitset_has(self.bitsets@[e], c) implies c
                        < self.registered_types.len() by {
                        if e < old(self).bitsets.len() {
                            assert(self.bitsets@[e] == old(self).bitsets@[e]);
                        }
                    }
                    assert forall|c: int| !(#[trigger] self.has_component(entity_id as int, c)) by {
                        if 0 <= c < 32 {
                            assert(!bitset_has([0u8, 0u8, 0u8, 0u8], c));
                        }
                    }
                    assert forall|e: int, c: int| e != entity_id implies #[trigger] self.has_component(e, c) == old(self).has_component(e, c) by {
                        if 0 <= e < old(self).bitsets.len() {
                            assert(self.bitsets@[e] == old(self).bitsets@[e]);
                        }
                    }
                    assert forall|c: int| 0 <= c < old(self).component_types().len() implies #[trigger] self.component_values(c)
                        == old(self).component_values(c).remove(entity_id) by {
                        old(self).lemma_written_iff_stored_at(entity_id, c);
                        assert(self.component_values(c) == old(self).component_values(c));
                        assert(old(self).component_values(c).remove(entity_id) =~= old(self).component_values(c));
                    }
                }
                EntityId::new(entity_id, ForceCreationEntity)
            },
        };
        let ghost mid = *self;
        self.organizer.add_entity_default_component(entity_id);
        proof {
            assert(mid.wf());
            assert(forall|c: int| !(#[trigger] mid.has_component(entity_id.instance() as int, c)));
            assert(forall|e: int, c: int| e != entity_id.instance() ==> #[trigger] mid.has_component(e, c) == old(self).has_component(e, c));
            assert(self.bitsets == mid.bitsets);
            assert(forall|e: int, c: int| #[trigger] self.has_component(e, c) == mid.has_component(e, c));
            assert(forall|c: int| #[trigger] self.component_values(c) == mid.component_values(c));
            assert(forall|c: int| #[trigger] self.component_size(c) == mid.component_size(c));
            assert(self.registered_types == mid.registered_types);
            assert forall|k: int| 0 <= k < 32 implies #[trigger] bitset_has(self.bitset(entity_id.instance() as int), k)
                == bitset_has([0u8, 0u8, 0u8, 0u8], k) by {
                lemma_byte_set_bit(0u8, 0u8, (k % 8) as u8);
                assert(!self.has_component(entity_id.instance() as int, k));
            }
            lemma_bitset_ext(self.bitset(entity_id.instance() as int), [0u8, 0u8, 0u8, 0u8]);
            assert forall|e: int| 0 <= e < old(self).num_entities() && e != entity_id.instance() implies #[trigger] self.bitset(e)
                == old(self).bitset(e) by {
                assert forall|k: int| 0 <= k < 32 implies #[trigger] bitset_has(self.bitset(e), k) == bitset_has(old(self).bitset(e), k) by {
                    assert(self.has_component(e, k) == old(self).has_component(e, k));
                }
                lemma_bitset_ext(self.bitset(e), old(self).bitset(e));
            }
            let r = entity_id;
            assert(old(self).free_entities().len() > 0 ==> r.instance() == old(self).free_entities().last() && self.free_entities()
                == old(self).free_entities().drop_last() && self.num_entities() == old(self).num_entities());
            assert(old(self).free_entities().len() == 0 ==> r.instance() == old(self).num_entities() && self.free_entities()
                == old(self).free_entities() && self.num_entities() == old(self).num_entities() + 1);
            assert(r.instance() < self.num_entities());
            assert(self.component_types() == old(self).component_types());
            assert(forall|c: int| 0 <= c < old(self).component_types().len() ==> #[trigger] self.component_size(c) == old(self).component_size(c));
            assert(forall|c: int| 0 <= c < old(self).component_types().len() ==> #[trigger] self.component_values(c)
                == old(self).component_values(c).remove(r.instance()));
            assert(self.same_relations(old(self)));
            assert(self.sortable_types() == old(self).sortable_types());
            assert(self.sortable_membership() == old(self).sortable_membership().insert(r.instance(), 0usize));
        }
        entity_id
    }

    /// The storages, bitsets and bookkeeping agree except for the component `c` of the
    /// entity instance `e`.
    pub open spec fn changed_only(&self, old: &ECS, e: int, c: int) -> bool {
        &&& self.same_bookkeeping(old)
        &&& forall|e2: int, c2: int| (e2 != e || c2 != c) ==> #[trigger] self.has_component(e2, c2) == old.has_component(e2, c2)
        &&& forall|c2: int| c2 != c && 0 <= c2 < self.component_types().len() ==> #[trigger] self.component_values(c2) == old.component_values(c2)
    }

    /// The bitset of the entity instance `e` has the bit of component `c` set to `value` and
    /// keeps its other bits, and the bitsets of the other entities are unchanged.
    pub open spec fn bitset_changed(&self, old: &ECS, e: int, c: int, value: bool) -> bool {
        &&& forall|k: int| 0 <= k < 32 ==> #[trigger] bitset_has(self.bitset(e), k) == (if k == c {
            value
        } else {
            bitset_has(old.bitset(e), k)
        })
        &&& forall|e2: int| 0 <= e2 < old.num_entities() && e2 != e ==> #[trigger] self.bitset(e2) == old.bitset(e2)
    }

    proof fn lemma_changed_only_bitsets(&self, old: &ECS, e: int, c: int, value: bool)
        requires
            self.changed_only(old, e, c),
            0 <= e < old.num_entities(),
            0 <= c < 32,
            self.has_component(e, c) == value,
        ensures
            self.bitset_changed(old, e, c, value),
    {
        self.lemma_bitset_reads_components(e);
        old.lemma_bitset_reads_components(e);
        assert forall|k: int| 0 <= k < 32 implies #[trigger] bitset_has(self.bitset(e), k) == (if k == c {
            value
        } else {
            bitset_has(old.bitset(e), k)
        }) by {
            if k != c {
                assert(self.has_component(e, k) == old.has_component(e, k));
            }
        }
        assert forall|e2: int| 0 <= e2 < old.num_entities() && e2 != e implies #[trigger] self.bitset(e2) == old.bitset(e2) by {
            self.lemma_bitset_reads_components(e2);
            old.lemma_bitset_reads_components(e2);
            assert forall|k: int| 0 <= k < 32 implies #[trigger] bitset_has(self.bitset(e2), k) == bitset_has(old.bitset(e2), k) by {
                assert(self.has_component(e2, k) == old.has_component(e2, k));
            }
            lemma_bitset_ext(self.bitset(e2), old.bitset(e2));
        }
    }

    /// Write a component's value for an entity through its serialized form; any previous
    /// value of that component is overwritten.
    pub fn write_component_serialized(&mut self, entity_id: EntityId, type_id: TypeIdentifier, value: &Vec<u8>)
        requires
            old(self).wf(),
            old(self).is_registered(type_id),
            entity_id.instance() < old(self).num_entities(),
            value.len() == old(self).component_size(old(self).type_index(type_id)),
        ensures
            final(self).wf(),
            final(self).changed_only(old(self), entity_id.instance() as int, old(self).type_index(type_id)),
            final(self).has_component(entity_id.instance() as int, old(self).type_index(type_id)),
            final(self).component_values(old(self).type_index(type_id)) == old(self).component_values(
                old(self).type_index(type_id),
            ).insert(entity_id.instance(), value@),
            final(self).bitset_changed(old(self), entity_id.instance() as int, old(self).type_index(type_id), true),
    {
        let component_index = self.index_of(type_id).unwrap();
        self.write_component_at(entity_id, component_index, value);
        proof {
            self.lemma_changed_only_bitsets(old(self), entity_id.instance() as int, component_index as int, true);
        }
    }

    /// Write the value of the component at `component_index` for an entity.
    fn write_component_at(&mut self, entity_id: EntityId, component_index: usize, value: &Vec<u8>)
        requires
            old(self).wf(),
            component_index < old(self).component_types().len(),
            entity_id.instance() < old(self).num_entities(),
            value.len() == old(self).component_size(component_index as int),
        ensures
            final(self).wf(),
            final(self).changed_only(old(self), entity_id.instance() as int, component_index as int),
            final(self).has_component(entity_id.instance() as int, component_index as int),
            final(self).component_values(component_index as int) == old(self).component_values(
                component_index as int,
            ).insert(entity_id.instance(), value@),
    {
        let e = entity_id.get_entity_instance();
        let bits = bitset_with(self.bitsets[e as usize], component_index, true);
        self.bitsets.set(e as usize, bits);
        self.registered_types[component_index].write_serialized_data(e, value);
        proof {
            self.lemma_changed_storage(old(self), e, component_index as int, true);
        }
    }

    /// After the bit of component `c` of entity `e` was set to `set`, and the storage of `c`
    /// changed to agree, the store is well formed and only that component of that entity changed.
    proof fn lemma_changed_storage(&self, old: &ECS, e: u32, c: int, set: bool)
        requires
            old.wf(),
            0 <= c < old.registered_types.len(),
            e < old.bitsets.len(),
            self.registered_types.len() == old.registered_types.len(),
            forall|k: int| 0 <= k < 32 ==> #[trigger] bitset_has(self.bitsets@[e as int], k) == (if k == c {
                set
            } else {
                bitset_has(old.bitsets@[e as int], k)
            }),
            self.bitsets.len() == old.bitsets.len(),
            forall|e2: int| 0 <= e2 < self.bitsets.len() && e2 != e ==> #[trigger] self.bitsets@[e2] == old.bitsets@[e2],
            forall|c2: int| 0 <= c2 < self.registered_types.len() && c2 != c ==> #[trigger] self.registered_types@[c2] == old.registered_types@[c2],
            self.registered_types@[c].wf(),
            self.registered_types@[c].type_identifier() == old.registered_types@[c].type_identifier(),
            self.registered_types@[c].size() == old.registered_types@[c].size(),
            set ==> self.registered_types@[c].offsets().dom() == old.registered_types@[c].offsets().dom().insert(e),
            !set ==> self.registered_types@[c].offsets().dom() == old.registered_types@[c].offsets().dom().remove(e),
            self.entity_model_lookup == old.entity_model_lookup,
            self.free_indexes == old.free_indexes,
            self.organizer == old.organizer,
            self.max_num_components == old.max_num_components,
            self.user_entity_id == old.user_entity_id,
            self.owned_entities == old.owned_entities,
            self.referenced_entities == old.referenced_entities,
        ensures
            self.wf(),
            self.changed_only(old, e as int, c),
            self.has_component(e as int, c) == set,
    {
        assert(self.component_types() =~= old.component_types()) by {
            assert forall|i: int| 0 <= i < self.registered_types.len() implies self.component_types()[i] == old.component_types()[i] by {
                if i != c {
                    assert(self.registered_types@[i] == old.registered_types@[i]);
                }
            }
        }
        assert forall|i: int, j: int|
            0 <= i < self.registered_types.len() && 0 <= j < self.registered_types.len() && i != j implies (#[trigger] self.registered_types@[i]).type_identifier()
            != (#[trigger] self.registered_types@[j]).type_identifier() by {
            assert(self.component_types()[i] == old.component_types()[i]);
            assert(self.component_types()[j] == old.component_types()[j]);
            assert(old.registered_types@[i].type_identifier() != old.registered_types@[j].type_identifier());
        }
        assert forall|c2: int| 0 <= c2 < self.registered_types.len() implies (#[trigger] self.registered_types@[c2]).wf() by {
            if c2 != c {
                assert(self.registered_types@[c2] == old.registered_types@[c2]);
            }
        }
        assert forall|e2: int, k: int|
            0 <= e2 < self.bitsets.len() && 0 <= k < 32 && #[trigger] bitset_has(self.bitsets@[e2], k) implies k
            < self.registered_types.len() by {
            if e2 == e {
                if k != c {
                    assert(bitset_has(old.bitsets@[e2], k));
                }
            } else {
                assert(self.bitsets@[e2] == old.bitsets@[e2]);
            }
        }
        assert forall|c2: int, x: u32| 0 <= c2 < self.registered_types.len() implies (#[trigger] self.registered_types@[c2].offsets().contains_key(x)
            <==> (x < self.bitsets.len() && bitset_has(self.bitsets@[x as int], c2))) by {
            assert(old.registered_types@[c2].offsets().contains_key(x) <==> (x < old.bitsets.len() && bitset_has(
                old.bitsets@[x as int],
                c2,
            )));
            if x != e && x < self.bitsets.len() {
                assert(self.bitsets@[x as int] == old.bitsets@[x as int]);
            }
            if c2 == c {
                assert(self.registered_types@[c2].offsets().dom().contains(x) == self.registered_types@[c2].offsets().contains_key(x));
                assert(old.registered_types@[c2].offsets().dom().contains(x) == old.registered_types@[c2].offsets().contains_key(x));
            } else {
                assert(self.registered_types@[c2] == old.registered_types@[c2]);
            }
        }
        assert forall|i: int| 0 <= i < self.free_indexes.len() implies #[trigger] self.free_indexes@[i] < self.bitsets.len() by {
            assert(old.free_indexes@[i] < old.bitsets.len());
        }
        assert(self.registered_types@[0].size() == 8) by {
            if c != 0 {
                assert(self.registered_types@[0] == old.registered_types@[0]);
            }
        }
        assert forall|e2: int, c2: int| (e2 != e || c2 != c) implies #[trigger] self.has_component(e2, c2) == old.has_component(e2, c2) by {
            if e2 != e && 0 <= e2 < self.bitsets.len() {
                assert(self.bitsets@[e2] == old.bitsets@[e2]);
            }
        }
        assert forall|c2: int| 0 <= c2 < self.component_types().len() implies #[trigger] self.component_size(c2) == old.component_size(c2) by {
            if c2 != c {
                assert(self.registered_types@[c2] == old.registered_types@[c2]);
            }
        }
        assert forall|c2: int| c2 != c && 0 <= c2 < self.component_types().len() implies #[trigger] self.component_values(c2)
            == old.component_values(c2) by {
            assert(self.registered_types@[c2] == old.registered_types@[c2]);
        }
    }

    /// Removes the component at `component_index` from an entity, if it was written.
    fn remove_component_internal(&mut self, entity_id: EntityId, component_index: usize)
        requires
            old(self).wf(),
            component_index < old(self).component_types().len(),
            entity_id.instance() < old(self).num_entities(),
        ensures
            final(self).wf(),
            final(self).changed_only(old(self), entity_id.instance() as int, component_index as int),
            !final(self).has_component(entity_id.instance() as int, component_index as int),
            final(self).component_values(component_index as int) == old(self).component_values(
                component_index as int,
            ).remove(entity_id.instance()),
    {
        let e = entity_id.get_entity_instance();
        if bitset_get(&self.bitsets[e as usize], component_index) {
            self.registered_types[component_index].remove_data(e);
            let bits = bitset_with(self.bitsets[e as usize], component_index, false);
            self.bitsets.set(e as usize, bits);
            proof {
                self.lemma_changed_storage(old(self), e, component_index as int, false);
            }
        } else {
            proof {
                assert(!old(self).registered_types@[component_index as int].offsets().contains_key(e));
                old(self).registered_types@[component_index as int].lemma_values_domain();
                assert(old(self).component_values(component_index as int).remove(e) =~= old(self).component_values(
                    component_index as int,
                ));
            }
        }
    }

    /// Removes a component from an entity; the entity stays valid. Nothing happens when the
    /// component was not written for the entity or its type is not registered.
    pub fn remove_component(&mut self, entity_id: EntityId, type_id: TypeIdentifier)
        requires
            old(self).wf(),
            old(self).is_registered(type_id) ==> entity_id.instance() < old(self).num_entities(),
        ensures
            final(self).wf(),
            !old(self).is_registered(type_id) ==> *final(self) == *old(self),
            old(self).is_registered(type_id) ==> final(self).changed_only(
                old(self),
                entity_id.instance() as int,
                old(self).type_index(type_id),
            ) && !final(self).has_component(entity_id.instance() as int, old(self).type_index(type_id))
                && final(self).component_values(old(self).type_index(type_id)) == old(self).component_values(
                old(self).type_index(type_id),
            ).remove(entity_id.instance()),
            old(self).is_registered(type_id) ==> final(self).bitset_changed(
                old(self),
                entity_id.instance() as int,
                old(self).type_index(type_id),
                false,
            ),
    {
        if let Some(component_index) = self.index_of(type_id) {
            self.remove_component_internal(entity_id, component_index);
            proof {
                self.lemma_changed_only_bitsets(old(self), entity_id.instance() as int, component_index as int, false);
            }
        }
    }

    /// Removes the given component from an entity; the same as `remove_component`.
    pub fn remove_component_type_id_internal(&mut self, entity_id: EntityId, type_id: TypeIdentifier)
        requires
            old(self).wf(),
            old(self).is_registered(type_id) ==> entity_id.instance() < old(self).num_entities(),
        ensures
            final(self).wf(),
            !old(self).is_registered(type_id) ==> *final(self) == *old(self),
            old(self).is_registered(type_id) ==> final(self).changed_only(
                old(self),
                entity_id.instance() as int,
                old(self).type_index(type_id),
            ) && !final(self).has_component(entity_id.instance() as int, old(self).type_index(type_id))
                && final(self).component_values(old(self).type_index(type_id)) == old(self).component_values(
                old(self).type_index(type_id),
            ).remove(entity_id.instance()),
            old(self).is_registered(type_id) ==> final(self).bitset_changed(
                old(self),
                entity_id.instance() as int,
                old(self).type_index(type_id),
                false,
            ),
    {
        self.remove_component(entity_id, type_id);
    }

    /// Removes every component of the entity, leaving everything else as it was.
    fn clear_components(&mut self, entity_id: EntityId)
        requires
            old(self).wf(),
            entity_id.instance() < old(self).num_entities(),
        ensures
            final(self).wf(),
            forall|k: int| !(#[trigger] final(self).has_component(entity_id.instance() as int, k)),
            forall|e2: int, k: int| e2 != entity_id.instance() ==> #[trigger] final(self).has_component(e2, k)
                == old(self).has_component(e2, k),
            forall|k: int| 0 <= k < old(self).component_types().len() ==> #[trigger] final(self).component_values(k)
                == old(self).component_values(k).remove(entity_id.instance()),
            final(self).same_bookkeeping(old(self)),
            final(self).free_indexes@ == old(self).free_indexes@,
            final(self).user_entity() == old(self).user_entity(),
    {
        let e = entity_id.get_entity_instance();
        let mut c: usize = 0;
        while c < MAX_NUMBER_COMPONENTS
            invariant
                self.wf(),
                c <= MAX_NUMBER_COMPONENTS,
                e == entity_id.instance(),
                e < self.num_entities(),
                forall|k: int| 0 <= k < c ==> !(#[trigger] self.has_component(e as int, k)),
                forall|e2: int, k: int| e2 != e ==> #[trigger] self.has_component(e2, k) == old(self).has_component(e2, k),
                forall|k: int| c <= k ==> #[trigger] self.has_component(e as int, k) == old(self).has_component(e as int, k),
                forall|k: int| 0 <= k < self.component_types().len() ==> #[trigger] self.component_values(k)
                    == if k < c {
                    old(self).component_values(k).remove(e)
                } else {
                    old(self).component_values(k)
                },
                self.same_bookkeeping(old(self)),
                self.free_indexes@ == old(self).free_indexes@,
                self.user_entity() == old(self).user_entity(),
            decreases MAX_NUMBER_COMPONENTS - c,
        {
            if bitset_get(&self.bitsets[e as usize], c) {
                let ghost before = *self;
                self.remove_component_internal(entity_id, c);
                proof {
                    assert forall|k: int| 0 <= k < self.component_types().len() implies #[trigger] self.component_values(k)
                        == if k < c + 1 {
                        old(self).component_values(k).remove(e)
                    } else {
                        old(self).component_values(k)
                    } by {
                        if k == c {
                            assert(before.component_values(k) == old(self).component_values(k));
                        } else {
                            assert(self.component_values(k) == before.component_values(k));
                        }
                    }
                }
            } else {
                proof {
                    if c < self.registered_types.len() {
                        assert(!self.registered_types@[c as int].offsets().contains_key(e));
                        self.registered_types@[c as int].lemma_values_domain();
                        assert(self.component_values(c as int) == old(self).component_values(c as int));
                        assert(old(self).component_values(c as int).remove(e) =~= old(self).component_values(c as int));
                    }
                }
            }
            c = c + 1;
        }
        proof {
            assert forall|k: int| !(#[trigger] self.has_component(e as int, k)) by {
                if !(0 <= k < MAX_NUMBER_COMPONENTS) {
                    assert(!self.has_component(e as int, k));
                }
            }
        }
    }

    /// Removes all components of the entity; its instance is afterwards reused by
    /// `create_entity`. Removing an entity whose instance is already free has no effect.
    pub fn remove_entity(&mut self, entity_id: EntityId)
        requires
            old(self).wf(),
            entity_id.instance() < old(self).num_entities(),
        ensures
            final(self).wf(),
            old(self).free_entities().contains(entity_id.instance() as usize) ==> *final(self) == *old(self),
            !old(self).free_entities().contains(entity_id.instance() as usize) ==> {
                &&& final(self).free_entities() == old(self).free_entities().push(entity_id.instance() as usize)
                &&& forall|c: int| !(#[trigger] final(self).has_component(entity_id.instance() as int, c))
                &&& forall|e2: int, c: int| e2 != entity_id.instance() ==> #[trigger] final(self).has_component(e2, c)
                    == old(self).has_component(e2, c)
                &&& forall|c: int| 0 <= c < old(self).component_types().len() ==> #[trigger] final(self).component_values(c)
                    == old(self).component_values(c).remove(entity_id.instance())
                &&& final(self).component_types() == old(self).component_types()
                &&& forall|c: int| 0 <= c < old(self).component_types().len() ==> #[trigger] final(self).component_size(c)
                    == old(self).component_size(c)
                &&& final(self).num_entities() == old(self).num_entities()
                &&& final(self).type_lookup() == old(self).type_lookup()
                &&& final(self).owned() == old(self).owned()
                &&& final(self).referenced() == old(self).referenced()
                &&& final(self).sortable_types() == old(self).sortable_types()
                &&& final(self).sortable_membership() == old(self).sortable_membership()
                &&& final(self).user_entity() == old(self).user_entity()
            },
    {
        let e = entity_id.get_entity_instance();
        // Removing an entity twice would put its instance twice in the free list, and two
        // later entities would then share one bitset.
        let mut i: usize = 0;
        while i < self.free_indexes.len()
            invariant
                *self == *old(self),
                self.wf(),
                e == entity_id.instance(),
                i <= self.free_indexes.len(),
                forall|j: int| 0 <= j < i ==> self.free_indexes@[j] != e as usize,
            decreases self.free_indexes.len() - i,
        {
            if self.free_indexes[i] == e as usize {
                proof {
                    assert(self.free_entities()[i as int] == e as usize);
                    assert(old(self).free_entities().contains(e as usize));
                }
                return;
            }
            i = i + 1;
        }
        self.clear_components(entity_id);
        let ghost cleared = *self;
        self.bitsets.set(e as usize, [0u8, 0u8, 0u8, 0u8]);
        self.free_indexes.push(e as usize);
        proof {
            assert forall|k: int| 0 <= k < 32 implies !bitset_has([0u8, 0u8, 0u8, 0u8], k) by {
                lemma_byte_set_bit(0u8, 0u8, (k % 8) as u8);
            }
            assert forall|e2: int, k: int| 0 <= e2 < self.bitsets.len() && 0 <= k < 32 implies #[trigger] bitset_has(self.bitsets@[e2], k)
                == bitset_has(cleared.bitsets@[e2], k) by {
                if e2 == e && 0 <= k < 32 {
                    assert(!cleared.has_component(e2, k));
                }
            }
            assert forall|c2: int, x: u32| 0 <= c2 < self.registered_types.len() implies (#[trigger] self.registered_types@[c2].offsets().contains_key(x)
                <==> (x < self.bitsets.len() && bitset_has(self.bitsets@[x as int], c2))) by {
                assert(cleared.registered_types@[c2].offsets().contains_key(x) <==> (x < cleared.bitsets.len()
                    && bitset_has(cleared.bitsets@[x as int], c2)));
            }
            assert forall|ee: int, k: int|
                0 <= ee < self.bitsets.len() && 0 <= k < 32 && #[trigger] bitset_has(self.bitsets@[ee], k) implies k
                < self.registered_types.len() by {
                assert(bitset_has(cleared.bitsets@[ee], k));
            }
            assert(self.free_entities() == old(self).free_entities().push(e as usize));
            assert(self.component_types() == cleared.component_types());
            assert forall|k: int| 0 <= k < old(self).component_types().len() implies #[trigger] self.component_values(k)
                == old(self).component_values(k).remove(e) by {
                assert(self.component_values(k) == cleared.component_values(k));
            }
            assert forall|k: int| 0 <= k < old(self).component_types().len() implies #[trigger] self.component_size(k)
                == old(self).component_size(k) by {
                assert(self.component_size(k) == cleared.component_size(k));
            }
            assert forall|j: int| 0 <= j < self.free_indexes.len() implies #[trigger] self.free_indexes@[j] < self.bitsets.len() by {
                if j < cleared.free_indexes.len() {
                    assert(cleared.free_indexes@[j] < cleared.bitsets.len());
                }
            }
            assert forall|c2: int| !(#[trigger] self.has_component(e as int, c2)) by {
                if 0 <= c2 < 32 {
                    assert(!bitset_has([0u8, 0u8, 0u8, 0u8], c2));
                }
            }
            assert forall|e2: int, c2: int| e2 != e implies #[trigger] self.has_component(e2, c2) == old(self).has_component(e2, c2) by {
                if 0 <= e2 < self.bitsets.len() {
                    assert(self.bitsets@[e2] == cleared.bitsets@[e2]);
                }
                assert(self.has_component(e2, c2) == cleared.has_component(e2, c2));
            }
            assert(!old(self).free_entities().contains(e as usize)) by {
                if old(self).free_entities().contains(e as usize) {
                    let j = choose|j: int| 0 <= j < old(self).free_entities().len() && old(self).free_entities()[j] == e as usize;
                    assert(old(self).free_indexes@[j] != e as usize);
                }
            }
        }
    }

    /// Whether no component was written for the entity.
    pub fn is_entity_empty(&self, entity_id: EntityId) -> (r: bool)
        requires
            self.wf(),
            entity_id.instance() < self.num_entities(),
        ensures
            r == (forall|c: int| 0 <= c < MAX_NUMBER_COMPONENTS ==> !#[trigger] self.has_component(entity_id.instance() as int, c)),
    {
        let e = entity_id.get_entity_instance() as usize;
        let mut c: usize = 0;
        while c < MAX_NUMBER_COMPONENTS
            invariant
                c <= MAX_NUMBER_COMPONENTS,
                e == entity_id.instance(),
                e < self.bitsets.len(),
                forall|k: int| 0 <= k < c ==> !#[trigger] self.has_component(e as int, k),
            decreases MAX_NUMBER_COMPONENTS - c,
        {
            if bitset_get(&self.bitsets[e], c) {
                assert(self.has_component(e as int, c as int));
                return false;
            }
            c = c + 1;
        }
        true
    }

    /// A copy of the serialized value of a component of an entity, when the component's type
    /// is registered and the component was written for the entity.
    pub fn get_copy(&self, entity_id: EntityId, type_id: TypeIdentifier) -> (r: Option<Vec<u8>>)
        requires
            self.wf(),
            self.is_registered(type_id) ==> entity_id.instance() < self.num_entities(),
        ensures
            r is Some <==> (self.is_registered(type_id) && self.has_component(
                entity_id.instance() as int,
                self.type_index(type_id),
            )),
            r matches Some(v) ==> v@ == self.component_values(self.type_index(type_id))[entity_id.instance()],
    {
        if let Some(index) = self.index_of(type_id) {
            let e = entity_id.get_entity_instance();
            if bitset_get(&self.bitsets[e as usize], index) {
                proof {
                    assert(self.registered_types@[index as int].offsets().contains_key(e));
                    self.registered_types@[index as int].lemma_values_domain();
                }
                return self.registered_types[index].get_copy(e);
            }
        }
        None
    }

    /// A copy of the serialized value of a component of the entity a read key refers to.
    pub fn get_copy_read(&self, entity_id_read: EntityIdRead, type_id: TypeIdentifier) -> (r: Option<Vec<u8>>)
        requires
            self.wf(),
            self.is_registered(type_id) ==> entity_id_read.instance() < self.num_entities(),
        ensures
            r is Some <==> (self.is_registered(type_id) && self.has_component(
                entity_id_read.instance() as int,
                self.type_index(type_id),
            )),
            r matches Some(v) ==> v@ == self.component_values(self.type_index(type_id))[entity_id_read.instance()],
    {
        let entity_id = EntityId::new(entity_id_read.get_entity_instance(), ForceCreationEntity);
        self.get_copy(entity_id, type_id)
    }

    /// The position of an entity's component value in its storage, counted in values; `None`
    /// when the type is not registered or the entity has no value of it.
    pub fn get_index_offset(&self, entity_id: EntityId, type_id: TypeIdentifier) -> (r: Option<usize>)
        requires
            self.wf(),
            self.is_registered(type_id) && self.storage(self.type_index(type_id)).offsets().contains_key(
                entity_id.instance(),
            ) ==> self.component_size(self.type_index(type_id)) > 0,
        ensures
            r == (if self.is_registered(type_id) && self.storage(self.type_index(type_id)).offsets().contains_key(
                entity_id.instance(),
            ) {
                Some(
                    (self.storage(self.type_index(type_id)).offsets()[entity_id.instance()] as nat / self.component_size(
                        self.type_index(type_id),
                    )) as usize,
                )
            } else {
                None::<usize>
            }),
    {
        match self.index_of(type_id) {
            Some(i) => self.registered_types[i].get_index(entity_id.get_entity_instance()),
            None => None,
        }
    }

    /// The entity type written for an entity, if any.
    pub fn get_entity_type(&self, entity_id: EntityId) -> (r: Option<TypeIdentifier>)
        requires
            self.wf(),
            entity_id.instance() < self.num_entities(),
        ensures
            r == self.entity_type(entity_id.instance()),
    {
        let e = entity_id.get_entity_instance();
        if bitset_get(&self.bitsets[e as usize], 0) {
            proof {
                assert(self.registered_types@[0].offsets().contains_key(e));
                self.registered_types@[0].lemma_values_domain();
                self.registered_types@[0].lemma_value_lengths();
            }
            let bytes = self.registered_types[0].get_copy(e).unwrap();
            let t = vstd::bytes::u64_from_le_bytes(bytes.as_slice());
            return Some(TypeIdentifier { t });
        }
        None
    }

    /// The entity type written for the entity a read key refers to, if any.
    pub fn get_entity_type_read(&self, entity_id: EntityIdRead) -> (r: Option<TypeIdentifier>)
        requires
            self.wf(),
            entity_id.instance() < self.num_entities(),
        ensures
            r == self.entity_type(entity_id.instance()),
    {
        let entity_id = EntityId::new(entity_id.get_entity_instance(), ForceCreationEntity);
        self.get_entity_type(entity_id)
    }

    /// Writes the entity type of an entity, taking the entity out of the lookup of its
    /// previous type and into the lookup of the new one.
    pub fn write_entity_type(&mut self, entity_id: EntityId, entity_type: TypeIdentifier)
        requires
            old(self).wf(),
            entity_id.instance() < old(self).num_entities(),
            old(self).entity_type(entity_id.instance()) matches Some(current) ==> old(self).type_lookup().contains_key(
                current.t,
            ),
        ensures
            final(self).wf(),
            final(self).entity_type(entity_id.instance()) == Some(entity_type),
            final(self).type_lookup() == lookup_add(
                match old(self).entity_type(entity_id.instance()) {
                    Some(current) => lookup_remove(old(self).type_lookup(), current.t, entity_id.instance()),
                    None => old(self).type_lookup(),
                },
                entity_type.t,
                entity_id.instance(),
            ),
            final(self).component_values(0) == old(self).component_values(0).insert(
                entity_id.instance(),
                vstd::bytes::spec_u64_to_le_bytes(entity_type.t),
            ),
            final(self).same_layout(old(self)),
            final(self).same_groups(old(self)),
            final(self).owned() == old(self).owned(),
            final(self).referenced() == old(self).referenced(),
            forall|e2: int, c2: int| (e2 != entity_id.instance() || c2 != 0) ==> #[trigger] final(self).has_component(e2, c2)
                == old(self).has_component(e2, c2),
            forall|c2: int| 0 < c2 < old(self).component_types().len() ==> #[trigger] final(self).component_values(c2)
                == old(self).component_values(c2),
    {
        let e = entity_id.get_entity_instance();
        if let Some(current_type) = self.get_entity_type(entity_id) {
            set_map_remove(&mut self.entity_model_lookup, current_type.t, e);
        }
        set_map_add(&mut self.entity_model_lookup, entity_type.t, e);
        let ghost relinked = *self;
        let bytes = vstd::bytes::u64_to_le_bytes(entity_type.t);
        proof {
            vstd::bytes::lemma_auto_spec_u64_to_from_le_bytes();
            assert(relinked.wf());
        }
        self.write_component_at(entity_id, 0, &bytes);
        proof {
            vstd::bytes::lemma_auto_spec_u64_to_from_le_bytes();
            assert(self.component_values(0)[e] == bytes@);
        }
    }

    /// Removes the entity type of an entity, taking it out of its type's lookup; nothing
    /// happens when no entity type was written for it.
    pub fn remove_entity_type(&mut self, entity_id: EntityId)
        requires
            old(self).wf(),
            entity_id.instance() < old(self).num_entities(),
            old(self).entity_type(entity_id.instance()) matches Some(current) ==> old(self).type_lookup().contains_key(
                current.t,
            ),
        ensures
            final(self).wf(),
            final(self).entity_type(entity_id.instance()) == None::<TypeIdentifier>,
            final(self).type_lookup() == match old(self).entity_type(entity_id.instance()) {
                Some(current) => lookup_remove(old(self).type_lookup(), current.t, entity_id.instance()),
                None => old(self).type_lookup(),
            },
            final(self).component_values(0) == old(self).component_values(0).remove(entity_id.instance()),
            final(self).same_layout(old(self)),
            final(self).same_groups(old(self)),
            final(self).owned() == old(self).owned(),
            final(self).referenced() == old(self).referenced(),
            forall|e2: int, c2: int| (e2 != entity_id.instance() || c2 != 0) ==> #[trigger] final(self).has_component(e2, c2)
                == old(self).has_component(e2, c2),
            forall|c2: int| 0 < c2 < old(self).component_types().len() ==> #[trigger] final(self).component_values(c2)
                == old(self).component_values(c2),
    {
        match self.get_entity_type(entity_id) {
            Some(id) => {
                set_map_remove(&mut self.entity_model_lookup, id.t, entity_id.get_entity_instance());
                self.remove_component_internal(entity_id, 0);
            },
            None => {
                proof {
                    let e = entity_id.instance();
                    assert(!self.registered_types@[0].offsets().contains_key(e));
                    self.registered_types@[0].lemma_values_domain();
                    assert(old(self).component_values(0).remove(e) =~= old(self).component_values(0));
                }
            },
        }
    }

    /// The entities an entity owns, if it was ever given any.
    pub fn get_owned_entities(&self, owning: EntityId) -> (r: Option<&EntitySet>)
        ensures
            match r {
                Some(s) => self.owned().contains_key(owning.instance() as u64) && s@ == self.owned()[owning.instance() as u64],
                None => !self.owned().contains_key(owning.instance() as u64),
            },
    {
        self.owned_entities.get(owning.get_entity_instance() as u64)
    }

    /// The entities an entity references, if it was ever given any.
    pub fn get_referenced_entities(&self, owning: EntityId) -> (r: Option<&EntitySet>)
        ensures
            match r {
                Some(s) => self.referenced().contains_key(owning.instance() as u64) && s@ == self.referenced()[owning.instance() as u64],
                None => !self.referenced().contains_key(owning.instance() as u64),
            },
    {
        self.referenced_entities.get(owning.get_entity_instance() as u64)
    }

    /// Records that `owning` owns `other`.
    pub fn add_owned_entity(&mut self, owning: EntityId, other: EntityId)
        requires
            old(self).wf(),
        ensures
            final(self).wf(),
            final(self).owned() == lookup_add(old(self).owned(), owning.instance() as u64, other.instance()),
            final(self).same_store(old(self)),
            final(self).same_groups(old(self)),
            final(self).type_lookup() == old(self).type_lookup(),
            final(self).referenced() == old(self).referenced(),
    {
        set_map_add(&mut self.owned_entities, owning.get_entity_instance() as u64, other.get_entity_instance());
    }

    /// Records that `owning` no longer owns `other`.
    pub fn remove_owned_entity(&mut self, owning: EntityId, other: EntityId)
        requires
            old(self).wf(),
        ensures
            final(self).wf(),
            final(self).owned() == lookup_remove(old(self).owned(), owning.instance() as u64, other.instance()),
            final(self).same_store(old(self)),
            final(self).same_groups(old(self)),
            final(self).type_lookup() == old(self).type_lookup(),
            final(self).referenced() == old(self).referenced(),
    {
        set_map_remove(&mut self.owned_entities, owning.get_entity_instance() as u64, other.get_entity_instance());
    }

    /// Records that `owning` references `other`.
    pub fn add_referenced_entity(&mut self, owning: EntityId, other: EntityIdRead)
        requires
            old(self).wf(),
        ensures
            final(self).wf(),
            final(self).referenced() == lookup_add(old(self).referenced(), owning.instance() as u64, other.instance()),
            final(self).same_store(old(self)),
            final(self).same_groups(old(self)),
            final(self).type_lookup() == old(self).type_lookup(),
            final(self).owned() == old(self).owned(),
    {
        set_map_add(&mut self.referenced_entities, owning.get_entity_instance() as u64, other.get_entity_instance());
    }

    /// Records that `owning` no longer references `other`.
    pub fn remove_referenced_entity(&mut self, owning: EntityId, other: EntityIdRead)
        requires
            old(self).wf(),
        ensures
            final(self).wf(),
            final(self).referenced() == lookup_remove(old(self).referenced(), owning.instance() as u64, other.instance()),
            final(self).same_store(old(self)),
            final(self).same_groups(old(self)),
            final(self).type_lookup() == old(self).type_lookup(),
            final(self).owned() == old(self).owned(),
    {
        set_map_remove(&mut self.referenced_entities, owning.get_entity_instance() as u64, other.get_entity_instance());
    }

    /// A read key to the user's entity; the temporary entity until the user's entity is
    /// first asked for with `get_user_id`.
    pub fn get_user_id_read(&self) -> (r: EntityIdRead)
        ensures
            r.instance() == self.user_entity().instance(),
    {
        EntityIdRead::new(self.user_entity_id)
    }

    /// The user's entity, created the first time it is asked for.
    pub fn get_user_id(&mut self) -> (r: EntityId)
        requires
            old(self).wf(),
            old(self).user_entity().instance() == u32::MAX && old(self).free_entities().len() == 0 ==> old(self).num_entities()
                < u32::MAX,
        ensures
            final(self).wf(),
            r == final(self).user_entity(),
            r.instance() < final(self).num_entities(),
            old(self).user_entity().instance() != u32::MAX ==> *final(self) == *old(self),
            old(self).user_entity().instance() == u32::MAX ==> final(self).created(old(self), r),
    {
        if self.user_entity_id.get_entity_instance() == u32::MAX {
            let created = self.create_entity();
            let ghost mid = *self;
            self.user_entity_id = created;
            proof {
                assert(self.free_entities() == mid.free_entities());
                assert(self.num_entities() == mid.num_entities());
                assert(forall|e: int| #[trigger] self.bitset(e) == mid.bitset(e));
                assert(forall|e: int, c: int| #[trigger] self.has_component(e, c) == mid.has_component(e, c));
                assert(self.component_types() == mid.component_types());
                assert(forall|c: int| #[trigger] self.component_size(c) == mid.component_size(c));
                assert(forall|c: int| #[trigger] self.component_values(c) == mid.component_values(c));
                assert(self.same_relations(old(self)));
                assert(self.sortable_types() == mid.sortable_types());
                assert(self.sortable_membership() == mid.sortable_membership());
                assert(self.created(old(self), created));
            }
        }
        self.user_entity_id
    }

    /// Puts an entity in the sortable group of `component`.
    pub fn write_sortable_component(&mut self, entity_id: EntityId, component: TypeIdentifier)
        requires
            old(self).wf(),
        ensures
            final(self).wf(),
            final(self).same_store(old(self)),
            final(self).same_relations(old(self)),
            final(self).user_entity() == old(self).user_entity(),
            final(self).sortable_types() == (if old(self).sortable_types().contains(component) {
                old(self).sortable_types()
            } else {
                old(self).sortable_types().push(component)
            }),
            final(self).sortable_membership().contains_key(entity_id.instance()),
            crate::sorted_entities::is_first_position(
                final(self).sortable_types(),
                component,
                final(self).sortable_membership()[entity_id.instance()] as int,
            ),
            final(self).sortable_membership().remove(entity_id.instance()) == old(self).sortable_membership().remove(
                entity_id.instance(),
            ),
    {
        self.organizer.add_entity(entity_id, component);
    }

    /// Puts an entity back in the default sortable group.
    pub fn remove_sortable_component(&mut self, entity_id: EntityId)
        requires
            old(self).wf(),
        ensures
            final(self).wf(),
            final(self).same_store(old(self)),
            final(self).same_relations(old(self)),
            final(self).user_entity() == old(self).user_entity(),
            final(self).sortable_types() == old(self).sortable_types(),
            final(self).sortable_membership() == old(self).sortable_membership().insert(entity_id.instance(), 0usize),
    {
        self.organizer.add_entity_default_component(entity_id);
    }

    /// The number of sortable groups.
    pub fn number_sortable_components(&self) -> (r: usize)
        ensures
            r == self.sortable_types().len(),
    {
        self.organizer.number_sortable_components()
    }

    /// The entities of every sortable group, in group order.
    pub fn get_entities_with_sortable(&self) -> (r: Vec<&EntitySet>)
        requires
            self.wf(),
        ensures
            r.len() == self.sortable_types().len(),
            forall|i: int, e: u32|
                0 <= i < r.len() ==> (#[trigger] entity_set_contents(*r@[i]).contains(e) <==> (
                self.sortable_membership().contains_key(e) && self.sortable_membership()[e] == i)),
    {
        self.organizer.get_entities_with_sortable_components()
    }

    /// The entities, in increasing order, that have every component of `components`. The
    /// component written for the fewest entities is searched first.
    pub fn get_indexes_for_components(&self, components: &[TypeIdentifier]) -> (r: Vec<EntityId>)
        requires
            self.wf(),
            components.len() > 0,
            forall|k: int| 0 <= k < components.len() ==> self.is_registered(#[trigger] components@[k]),
        ensures
            strictly_increasing(instances_of(r@)),
            forall|x: u32| #[trigger] instances_of(r@).contains(x) <==> (x < self.num_entities() && forall|k: int|
                0 <= k < components.len() ==> self.has_component(x as int, self.type_index(#[trigger] components@[k]))),
    {
        let mut smallest = self.index_of(components[0]).unwrap();
        let mut k: usize = 1;
        while k < components.len()
            invariant
                self.wf(),
                forall|j: int| 0 <= j < components.len() ==> self.is_registered(#[trigger] components@[j]),
                1 <= k <= components.len(),
                smallest < self.component_types().len(),
                exists|j: int| 0 <= j < k && self.type_index(#[trigger] components@[j]) == smallest,
            decreases components.len() - k,
        {
            let index = self.index_of(components[k]).unwrap();
            if self.registered_types[index].number_written() < self.registered_types[smallest].number_written() {
                smallest = index;
                assert(self.type_index(components@[k as int]) == smallest);
            }
            k = k + 1;
        }
        let smallest_type = self.registered_types[smallest].get_type_id();
        let mut candidates = self.registered_types[smallest].entities();
        let ghost base = self.registered_types@[smallest as int].offsets();
        proof {
            assert forall|x: u32| candidates@.contains(x) <==> base.contains_key(x) by {
                assert(candidates@.to_set().contains(x) == candidates@.contains(x));
            }
        }
        let mut k: usize = 0;
        while k < components.len()
            invariant
                self.wf(),
                forall|j: int| 0 <= j < components.len() ==> self.is_registered(#[trigger] components@[j]),
                k <= components.len(),
                smallest < self.component_types().len(),
                base == self.registered_types@[smallest as int].offsets(),
                smallest_type == self.component_types()[smallest as int],
                candidates@.no_duplicates(),
                forall|x: u32| #[trigger] candidates@.contains(x) <==> (base.contains_key(x) && forall|j: int|
                    0 <= j < k ==> self.registered_types@[self.type_index(#[trigger] components@[j])].offsets().contains_key(x)),
            decreases components.len() - k,
        {
            let component = components[k];
            let index = self.index_of(component).unwrap();
            if component != smallest_type {
                let mut refined: Vec<u32> = Vec::new();
                let mut i: usize = 0;
                while i < candidates.len()
                    invariant
                        self.wf(),
                        i <= candidates.len(),
                        index < self.component_types().len(),
                        candidates@.no_duplicates(),
                        refined@.no_duplicates(),
                        forall|x: u32| #[trigger] refined@.contains(x) <==> (candidates@.subrange(0, i as int).contains(x)
                            && self.registered_types@[index as int].offsets().contains_key(x)),
                    decreases candidates.len() - i,
                {
                    let x = candidates[i];
                    let ghost next = candidates@.subrange(0, i + 1);
                    let ghost prev = candidates@.subrange(0, i as int);
                    proof {
                        assert(next == prev.push(x));
                        assert(!prev.contains(x)) by {
                            if prev.contains(x) {
                                let j = choose|j: int| 0 <= j < i && prev[j] == x;
                                assert(candidates@[j] == candidates@[i as int]);
                            }
                        }
                    }
                    if self.registered_types[index].contains(x) {
                        let ghost old_refined = refined@;
                        proof {
                            assert(!refined@.contains(x));
                        }
                        refined.push(x);
                        proof {
                            assert(refined@ == old_refined.push(x));
                            assert(next.contains(x)) by {
                                assert(next[i as int] == x);
                            }
                            assert forall|y: u32| #[trigger] refined@.contains(y) <==> (next.contains(y)
                                && self.registered_types@[index as int].offsets().contains_key(y)) by {
                                if y != x {
                                    if refined@.contains(y) {
                                        let j = choose|j: int| 0 <= j < refined.len() && refined@[j] == y;
                                        assert(old_refined[j] == y);
                                        assert(old_refined.contains(y));
                                        let jj = choose|jj: int| 0 <= jj < prev.len() && prev[jj] == y;
                                        assert(next[jj] == y);
                                    }
                                    if next.contains(y) && self.registered_types@[index as int].offsets().contains_key(y) {
                                        let j = choose|j: int| 0 <= j < next.len() && next[j] == y;
                                        assert(j != i);
                                        assert(prev[j] == y);
                                        assert(prev.contains(y));
                                        assert(old_refined.contains(y));
                                        let jj = choose|jj: int| 0 <= jj < old_refined.len() && old_refined[jj] == y;
                                        assert(refined@[jj] == y);
                                    }
                                } else {
                                    assert(refined@[refined.len() - 1] == x);
                                }
                            }
                            assert forall|a: int, b: int| 0 <= a < b < refined.len() implies refined@[a] != refined@[b] by {
                                if b == refined.len() - 1 {
                                    assert(refined@[a] == old_refined[a]);
                                    assert(old_refined.contains(old_refined[a]));
                                } else {
                                    assert(refined@[a] == old_refined[a]);
                                    assert(refined@[b] == old_refined[b]);
                                }
                            }
                        }
                    } else {
                        proof {
                            assert forall|y: u32| #[trigger] refined@.contains(y) <==> (next.contains(y)
                                && self.registered_types@[index as int].offsets().contains_key(y)) by {
                                assert(next.contains(y) == (prev.contains(y)
                                    || y == x)) by {
                                    if next.contains(y) {
                                        let j = choose|j: int| 0 <= j < i + 1 && next[j] == y;
                                        if j < i {
                                            assert(prev[j] == y);
                                        }
                                    }
                                    if prev.contains(y) {
                                        let j = choose|j: int| 0 <= j < i && prev[j] == y;
                                        assert(next[j] == y);
                                    }
                                    if y == x {
                                        assert(next[i as int] == y);
                                    }
                                }
                            }
                        }
                    }
                    i = i + 1;
                }
                proof {
                    assert(candidates@.subrange(0, candidates.len() as int) == candidates@);
                }
                candidates = refined;
            }
            proof {
                assert(index == self.type_index(components@[k as int]));
                assert forall|x: u32| #[trigger] candidates@.contains(x) <==> (base.contains_key(x) && forall|j: int|
                    0 <= j < k + 1 ==> self.registered_types@[self.type_index(#[trigger] components@[j])].offsets().contains_key(x)) by {
                    if component == smallest_type {
                        self.lemma_type_index(smallest as int);
                    }
                }
            }
            k = k + 1;
        }
        let r = sorted_entity_ids(&candidates);
        proof {
            let j0 = choose|j: int| 0 <= j < components.len() && self.type_index(#[trigger] components@[j]) == smallest;
            assert forall|x: u32| #[trigger] instances_of(r@).contains(x) <==> (x < self.num_entities() && forall|k: int|
                0 <= k < components.len() ==> self.has_component(x as int, self.type_index(#[trigger] components@[k]))) by {
                assert(instances_of(r@).to_set().contains(x) == instances_of(r@).contains(x));
                assert(candidates@.to_set().contains(x) == candidates@.contains(x));
                if candidates@.contains(x) {
                    assert(base.contains_key(x));
                    assert forall|k: int| 0 <= k < components.len() implies self.has_component(x as int, self.type_index(#[trigger] components@[k])) by {
                        let c = self.type_index(components@[k]);
                        assert(self.registered_types@[c].offsets().contains_key(x));
                    }
                }
                if x < self.num_entities() && forall|k: int|
                    0 <= k < components.len() ==> self.has_component(x as int, self.type_index(#[trigger] components@[k])) {
                    assert forall|j: int| 0 <= j < components.len() implies self.registered_types@[self.type_index(#[trigger] components@[j])].offsets().contains_key(x) by {
                        assert(self.has_component(x as int, self.type_index(components@[j])));
                    }
                    assert(self.has_component(x as int, self.type_index(components@[j0])));
                }
            }
        }
        r
    }

    /// The entities, in increasing order, whose entity type is `entity_type`.
    pub fn get_entities_with_type(&self, entity_type: TypeIdentifier) -> (r: Vec<EntityId>)
        requires
            self.type_lookup().contains_key(entity_type.t),
        ensures
            strictly_increasing(instances_of(r@)),
            instances_of(r@).to_set() == self.type_lookup()[entity_type.t],
    {
        let set = self.entity_model_lookup.get(entity_type.t).unwrap();
        let members = set.to_vec();
        sorted_entity_ids(&members)
    }

    /// The number of registered component types.
    pub fn number_registered_types(&self) -> (r: usize)
        ensures
            r == self.component_types().len(),
    {
        self.registered_types.len()
    }

    /// The number of entity instances ever created.
    pub fn number_entities(&self) -> (r: usize)
        ensures
            r == self.num_entities(),
    {
        self.bitsets.len()
    }

    /// The storage of the component at index `component_index`.
    pub fn registered_component(&self, component_index: usize) -> (r: &IndexInformation)
        requires
            component_index < self.component_types().len(),
        ensures
            *r == self.storage(component_index as int),
            r.size() == self.component_size(component_index as int),
    {
        &self.registered_types[component_index]
    }

    /// The bitset of the entity instance `entity_instance`.
    pub fn get_bitset(&self, entity_instance: usize) -> (r: [u8; 4])
        requires
            entity_instance < self.num_entities(),
        ensures
            r == self.bitset(entity_instance as int),
    {
        self.bitsets[entity_instance]
    }

    /// The entities whose entity type is `entity_type`, if that type was ever written.
    pub fn get_entity_type_lookup(&self, entity_type: TypeIdentifier) -> (r: Option<&EntitySet>)
        ensures
            match r {
                Some(s) => self.type_lookup().contains_key(entity_type.t) && s@ == self.type_lookup()[entity_type.t],
                None => !self.type_lookup().contains_key(entity_type.t),
            },
    {
        self.entity_model_lookup.get(entity_type.t)
    }

    /// The identifier used for an entity that does not exist yet.
    pub fn get_temporary_entity_id() -> (r: EntityId)
        ensures
            r.instance() == u32::MAX,
    {
        EntityId::new(u32::MAX, ForceCreationEntity)
    }
}

/// A component is marked written for an entity exactly when the store holds a value of it for
/// the entity: `check_component_written` answers `Ok(true)` exactly when `get_copy` gives a value.
pub proof fn lemma_written_iff_stored(ecs: &ECS, e: u32, c: int)
    requires
        ecs.wf(),
        0 <= c < ecs.component_types().len(),
    ensures
        ecs.has_component(e as int, c) <==> ecs.component_values(c).contains_key(e),
{
    ecs.lemma_written_iff_stored_at(e, c);
}

impl ECS {
    proof fn lemma_written_iff_stored_at(&self, e: u32, c: int)
        requires
            self.wf(),
            0 <= c < self.component_types().len(),
        ensures
            self.has_component(e as int, c) <==> self.component_values(c).contains_key(e),
    {
        assert(self.registered_types@[c].offsets().contains_key(e) <==> (e < self.bitsets.len() && bitset_has(
            self.bitsets@[e as int],
            c,
        )));
        self.registered_types@[c].lemma_values_domain();
    }
}

/// Reading a component after writing it gives the written value, and writing it changes
/// no other entity's value of that component.
pub proof fn lemma_write_then_read(before: &ECS, after: &ECS, e: u32, c: int, value: Seq<u8>)
    requires
        after.component_values(c) == before.component_values(c).insert(e, value),
    ensures
        after.component_values(c).contains_key(e),
        after.component_values(c)[e] == value,
        forall|other: u32| other != e ==> (#[trigger] after.component_values(c).contains_key(other)
            == before.component_values(c).contains_key(other) && (after.component_values(c).contains_key(other)
            ==> after.component_values(c)[other] == before.component_values(c)[other])),
{
}

/// Writing a component and then removing it leaves the component's values as they were,
/// without the entity.
pub proof fn lemma_write_then_remove(before: &ECS, written: &ECS, after: &ECS, e: u32, c: int, value: Seq<u8>)
    requires
        written.component_values(c) == before.component_values(c).insert(e, value),
        after.component_values(c) == written.component_values(c).remove(e),
    ensures
        after.component_values(c) == before.component_values(c).remove(e),
{
    assert(after.component_values(c) =~= before.component_values(c).remove(e));
}

/// Removing an entity puts its instance last in the free list, so the next entity created
/// gets that instance, and the free list is then as before the removal.
pub proof fn lemma_removed_instance_reused(before: &ECS, removed: &ECS, e: usize)
    requires
        removed.free_entities() == before.free_entities().push(e),
    ensures
        removed.free_entities().len() > 0,
        removed.free_entities().last() == e,
        removed.free_entities().drop_last() == before.free_entities(),
{
    assert(removed.free_entities().drop_last() =~= before.free_entities());
}

} // verus!
