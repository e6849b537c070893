//! Bookkeeping of the models uploaded to the render systems: how many instances of each model
//! exist, which model IDs are free to be used again, and whether a render system has to upload
//! its models again. The geometry of each model is kept beside this bookkeeping, under the
//! same model ID.

use crate::collections::{model_count_map_contents, model_key, ModelCountMap, ModelNameLookup};
use crate::ecs::ECS;
use crate::entity_id::EntityId;
use crate::model_definitions::{decode_model_id, spec_apply_level_of_view, ModelId, RenderSystemIndex};
use crate::type_identifier::TypeIdentifier;
use vstd::prelude::*;

verus! {

/// Holds the models uploaded for a render system, with the number of instances of each.
pub struct ModelBank {
    models: ModelCountMap,
    change_models_number_user_render_system: bool,
    change_models_number_shadow_render_system: bool,
}

/// The IDs of the levels of view `0..n` of the model `base`.
pub open spec fn level_of_view_ids(base: ModelId, n: nat) -> Seq<ModelId> {
    Seq::new(
        n,
        |x: int|
            ModelId {
                model_index: spec_apply_level_of_view(base.model_index, x as u32),
                render_system_index: base.render_system_index,
            },
    )
}

/// `counts` once each of `ids` was added as a model without instances, in order.
pub open spec fn with_models(counts: Map<(u32, usize), u32>, ids: Seq<ModelId>) -> Map<(u32, usize), u32>
    decreases ids.len(),
{
    if ids.len() == 0 {
        counts
    } else {
        with_models(counts, ids.drop_last()).insert(model_key(ids.last()), 0)
    }
}

impl ModelBank {
    /// The instance count of each model, by model key.
    pub closed spec fn counts(&self) -> Map<(u32, usize), u32> {
        self.models@
    }

    /// Whether the render system of this bank has to upload its models again.
    pub closed spec fn user_changed(&self) -> bool {
        self.change_models_number_user_render_system
    }

    /// Whether the shadow render system has to upload the models of this bank again.
    pub closed spec fn shadow_changed(&self) -> bool {
        self.change_models_number_shadow_render_system
    }

    /// Creates a new empty model bank.
    pub fn new() -> (r: ModelBank)
        ensures
            r.counts() == Map::<(u32, usize), u32>::empty(),
            !r.user_changed(),
            !r.shadow_changed(),
    {
        let r = ModelBank {
            models: ModelCountMap::new(),
            change_models_number_user_render_system: false,
            change_models_number_shadow_render_system: false,
        };
        assert(r.counts() =~= Map::<(u32, usize), u32>::empty());
        r
    }

    /// Registers the model with this bank, without instances; the render systems are told
    /// that their models have to be uploaded again.
    pub fn add_model(&mut self, model_id: ModelId)
        ensures
            final(self).counts() == old(self).counts().insert(model_key(model_id), 0),
            final(self).user_changed(),
            final(self).shadow_changed(),
    {
        // Notify the render systems that new models need to be uploaded
        self.change_models_number_user_render_system = true;
        self.change_models_number_shadow_render_system = true;
        self.models.insert(model_id, 0);
    }

    /// Adds `number_instances` to the instance count of the model.
    pub fn register_model_instances(&mut self, model_id: ModelId, number_instances: u32)
        requires
            old(self).counts().contains_key(model_key(model_id)),
            old(self).counts()[model_key(model_id)] + number_instances <= u32::MAX,
        ensures
            final(self).counts() == old(self).counts().insert(
                model_key(model_id),
                (old(self).counts()[model_key(model_id)] + number_instances) as u32,
            ),
            final(self).user_changed() == old(self).user_changed(),
            final(self).shadow_changed() == old(self).shadow_changed(),
    {
        let count = self.models.get(model_id).unwrap();
        self.models.insert(model_id, count + number_instances);
    }

    /// Decreases the instance count of the model by one. The model is removed when no
    /// instance is left, and then the answer is true and the render systems are told that
    /// their models have to be uploaded again.
    pub fn remove_instance(&mut self, model_id: ModelId) -> (r: bool)
        requires
            old(self).counts().contains_key(model_key(model_id)),
            old(self).counts()[model_key(model_id)] > 0,
        ensures
            r == (old(self).counts()[model_key(model_id)] == 1),
            r ==> final(self).counts() == old(self).counts().remove(model_key(model_id))
                && final(self).user_changed() && final(self).shadow_changed(),
            !r ==> final(self).counts() == old(self).counts().insert(
                model_key(model_id),
                (old(self).counts()[model_key(model_id)] - 1) as u32,
            ) && final(self).user_changed() == old(self).user_changed() && final(self).shadow_changed()
                == old(self).shadow_changed(),
    {
        let count = self.models.get(model_id).unwrap() - 1;
        if count == 0 {
            self.models.remove(model_id);
            self.change_models_number_user_render_system = true;
            self.change_models_number_shadow_render_system = true;
            return true;
        }
        self.models.insert(model_id, count);
        false
    }

    /// The instance count of the model, if this bank holds it.
    pub fn instance_count(&self, model_id: ModelId) -> (r: Option<u32>)
        ensures
            r == (if self.counts().contains_key(model_key(model_id)) {
                Some(self.counts()[model_key(model_id)])
            } else {
                None::<u32>
            }),
    {
        self.models.get(model_id)
    }

    /// Every model stored in this bank once, with its instance count.
    pub fn stored_models(&self) -> (r: Vec<(ModelId, u32)>)
        ensures
            r@.map_values(|e: (ModelId, u32)| model_key(e.0)).no_duplicates(),
            forall|i: int| 0 <= i < r@.len() ==> self.counts().contains_key(model_key(#[trigger] r@[i].0))
                && self.counts()[model_key(r@[i].0)] == r@[i].1,
            forall|k: (u32, usize)| #[trigger] self.counts().contains_key(k) ==> exists|i: int|
                0 <= i < r@.len() && model_key(r@[i].0) == k,
    {
        let entries = self.models.entries();
        let mut r: Vec<(ModelId, u32)> = Vec::new();
        let mut i: usize = 0;
        while i < entries.len()
            invariant
                i <= entries.len(),
                r@.len() == i,
                forall|j: int| 0 <= j < i ==> model_key(#[trigger] r@[j].0) == entries@[j].0 && r@[j].1 == entries@[j].1,
            decreases entries.len() - i,
        {
            let ((model_index, index), count) = entries[i];
            r.push((ModelId { model_index, render_system_index: RenderSystemIndex { index } }, count));
            i = i + 1;
        }
        assert(r@.map_values(|e: (ModelId, u32)| model_key(e.0)) =~= entries@.map_values(
            |e: ((u32, usize), u32)| e.0,
        ));
        assert forall|i: int| 0 <= i < r@.len() implies self.counts().contains_key(model_key(#[trigger] r@[i].0))
            && self.counts()[model_key(r@[i].0)] == r@[i].1 by {
            assert(model_count_map_contents(self.models).contains_key(entries@[i].0));
        }
        assert forall|k: (u32, usize)| #[trigger] self.counts().contains_key(k) implies exists|i: int|
            0 <= i < r@.len() && model_key(r@[i].0) == k by {
            assert(model_count_map_contents(self.models).contains_key(k));
            let i = choose|i: int| 0 <= i < entries@.len() && entries@[i].0 == k;
            assert(model_key(r@[i].0) == k);
        }
        r
    }

    /// Whether the render system of this bank has to upload its models again.
    pub fn user_render_system_changed(&self) -> (r: bool)
        ensures
            r == self.user_changed(),
    {
        self.change_models_number_user_render_system
    }

    /// Whether the shadow render system has to upload the models of this bank again.
    pub fn shadow_render_system_changed(&self) -> (r: bool)
        ensures
            r == self.shadow_changed(),
    {
        self.change_models_number_shadow_render_system
    }
}

/// Owner of all model banks, one for each render system.
pub struct ModelBankOwner {
    name_model_lookup: ModelNameLookup,
    model_banks: Vec<ModelBank>,
    free_ids: Vec<ModelId>,
    number_models_loaded: usize,
}

impl ModelBankOwner {
    /// The model registered under each name.
    pub closed spec fn names(&self) -> Map<Seq<char>, ModelId> {
        self.name_model_lookup@
    }

    /// The model banks, by render system index.
    pub closed spec fn banks(&self) -> Seq<ModelBank> {
        self.model_banks@
    }

    /// The IDs of removed models, the last one to be used first.
    pub closed spec fn free_ids(&self) -> Seq<ModelId> {
        self.free_ids@
    }

    /// How many model IDs were made.
    pub closed spec fn models_loaded(&self) -> nat {
        self.number_models_loaded as nat
    }

    /// The ID the next registered model of the render system `index` gets: the last freed
    /// ID, else the next unused model index.
    pub open spec fn next_model_id(&self, index: RenderSystemIndex) -> ModelId {
        if self.free_ids().len() > 0 {
            self.free_ids().last()
        } else {
            ModelId { model_index: (self.models_loaded() + 1) as u32, render_system_index: index }
        }
    }

    /// Another model ID can be made.
    pub open spec fn can_allocate(&self) -> bool {
        self.free_ids().len() > 0 || self.models_loaded() < usize::MAX
    }

    /// Creates a new owner holding the given number of model banks.
    pub fn new(number_render_systems: usize) -> (r: ModelBankOwner)
        ensures
            r.banks().len() == number_render_systems,
            forall|i: int| 0 <= i < number_render_systems ==> (#[trigger] r.banks()[i]).counts() == Map::<
                (u32, usize),
                u32,
            >::empty() && !r.banks()[i].user_changed() && !r.banks()[i].shadow_changed(),
            r.free_ids() == Seq::<ModelId>::empty(),
            r.models_loaded() == 0,
            r.names() == Map::<Seq<char>, ModelId>::empty(),
    {
        let mut model_banks: Vec<ModelBank> = Vec::new();
        let mut i: usize = 0;
        while i < number_render_systems
            invariant
                i <= number_render_systems,
                model_banks@.len() == i,
                forall|j: int| 0 <= j < i ==> (#[trigger] model_banks@[j]).counts() == Map::<(u32, usize), u32>::empty()
                    && !model_banks@[j].user_changed() && !model_banks@[j].shadow_changed(),
            decreases number_render_systems - i,
        {
            model_banks.push(ModelBank::new());
            i = i + 1;
        }
        let r = ModelBankOwner {
            name_model_lookup: ModelNameLookup::new(),
            model_banks,
            free_ids: Vec::new(),
            number_models_loaded: 0,
        };
        assert(r.names() =~= Map::<Seq<char>, ModelId>::empty());
        r
    }

    /// The number of instances of the model, if its bank holds it.
    pub fn instance_count(&self, model_id: ModelId) -> (r: Option<u32>)
        requires
            model_id.render_system_index.index < self.banks().len(),
        ensures
            r == (if self.banks()[model_id.render_system_index.index as int].counts().contains_key(model_key(model_id)) {
                Some(self.banks()[model_id.render_system_index.index as int].counts()[model_key(model_id)])
            } else {
                None::<u32>
            }),
    {
        self.model_banks[model_id.render_system_index.index].instance_count(model_id)
    }

    fn get_model_id(&mut self, render_system_index: RenderSystemIndex) -> (r: ModelId)
        requires
            old(self).can_allocate(),
        ensures
            r == old(self).next_model_id(render_system_index),
            old(self).free_ids().len() > 0 ==> final(self).free_ids() == old(self).free_ids().drop_last()
                && final(self).models_loaded() == old(self).models_loaded(),
            old(self).free_ids().len() == 0 ==> final(self).free_ids() == old(self).free_ids()
                && final(self).models_loaded() == old(self).models_loaded() + 1,
            final(self).banks() == old(self).banks(),
            final(self).names() == old(self).names(),
    {
        match self.free_ids.pop() {
            Some(i) => i,
            None => {
                self.number_models_loaded = self.number_models_loaded + 1;
                ModelId::new(self.number_models_loaded as u32, render_system_index)
            },
        }
    }

    /// The model registered under `name`, if any.
    pub fn lookup_model(&self, name: &String) -> (r: Option<ModelId>)
        ensures
            r == (if self.names().contains_key(name@) {
                Some(self.names()[name@])
            } else {
                None::<ModelId>
            }),
    {
        self.name_model_lookup.get(name)
    }

    /// Creates a model ID for the named model and registers each of its levels of view with
    /// the bank of its render system. Answers the ID and the IDs of the levels of view, whose
    /// geometry is to be uploaded under them, in order.
    pub fn register_model(
        &mut self,
        model_name: String,
        render_system_index: RenderSystemIndex,
        number_level_of_views: usize,
    ) -> (r: (ModelId, Vec<ModelId>))
        requires
            render_system_index.index < old(self).banks().len(),
            old(self).can_allocate(),
        ensures
            r.0 == old(self).next_model_id(render_system_index),
            r.1@ == level_of_view_ids(r.0, number_level_of_views as nat),
            final(self).names() == old(self).names().insert(model_name@, r.0),
            old(self).free_ids().len() > 0 ==> final(self).free_ids() == old(self).free_ids().drop_last()
                && final(self).models_loaded() == old(self).models_loaded(),
            old(self).free_ids().len() == 0 ==> final(self).free_ids() == old(self).free_ids()
                && final(self).models_loaded() == old(self).models_loaded() + 1,
            final(self).banks().len() == old(self).banks().len(),
            forall|j: int| 0 <= j < old(self).banks().len() && j != render_system_index.index ==> #[trigger] final(self).banks()[j]
                == old(self).banks()[j],
            final(self).banks()[render_system_index.index as int].counts() == with_models(
                old(self).banks()[render_system_index.index as int].counts(),
                r.1@,
            ),
            final(self).banks()[render_system_index.index as int].user_changed() == (old(self).banks()[render_system_index.index as int].user_changed()
                || number_level_of_views > 0),
            final(self).banks()[render_system_index.index as int].shadow_changed() == (old(self).banks()[render_system_index.index as int].shadow_changed()
                || number_level_of_views > 0),
    {
        let ghost pre = *self;
        let base_model_id = self.get_model_id(render_system_index);
        let b = render_system_index.index;
        let mut level_ids: Vec<ModelId> = Vec::new();
        // Register every level of view; its geometry is uploaded under the adjusted ID
        let mut x: usize = 0;
        while x < number_level_of_views
            invariant
                x <= number_level_of_views,
                b == render_system_index.index,
                b < pre.banks().len(),
                base_model_id == pre.next_model_id(render_system_index),
                level_ids@ == level_of_view_ids(base_model_id, x as nat),
                self.banks().len() == pre.banks().len(),
                forall|j: int| 0 <= j < pre.banks().len() && j != b ==> #[trigger] self.banks()[j] == pre.banks()[j],
                self.banks()[b as int].counts() == with_models(pre.banks()[b as int].counts(), level_ids@),
                self.banks()[b as int].user_changed() == (pre.banks()[b as int].user_changed() || x > 0),
                self.banks()[b as int].shadow_changed() == (pre.banks()[b as int].shadow_changed() || x > 0),
                pre.free_ids().len() > 0 ==> self.free_ids() == pre.free_ids().drop_last()
                    && self.models_loaded() == pre.models_loaded(),
                pre.free_ids().len() == 0 ==> self.free_ids() == pre.free_ids()
                    && self.models_loaded() == pre.models_loaded() + 1,
                self.names() == pre.names(),
            decreases number_level_of_views - x,
        {
            let mut adjusted_model_id = base_model_id;
            ModelId::apply_level_of_view(&mut adjusted_model_id.model_index, x as u32);
            self.model_banks[b].add_model(adjusted_model_id);
            let ghost before = level_ids@;
            level_ids.push(adjusted_model_id);
            assert(level_ids@ =~= level_of_view_ids(base_model_id, (x + 1) as nat));
            assert(level_ids@.drop_last() =~= before);
            x = x + 1;
        }
        self.name_model_lookup.insert(model_name, base_model_id);
        (base_model_id, level_ids)
    }

    /// Whether the models of the bank of render system `render_system_index` have to be
    /// uploaded again.
    pub fn require_reupload_models_user_render_system(&self, render_system_index: usize) -> (r: bool)
        requires
            render_system_index < self.banks().len(),
        ensures
            r == self.banks()[render_system_index as int].user_changed(),
    {
        self.model_banks[render_system_index].user_render_system_changed()
    }

    /// Whether the shadow render system has to upload the models of any bank again.
    pub fn any_models_changed_shadow_perspective(&self) -> (r: bool)
        ensures
            r == exists|i: int| 0 <= i < self.banks().len() && (#[trigger] self.banks()[i]).shadow_changed(),
    {
        let mut reupload_models = false;
        let mut i: usize = 0;
        while i < self.model_banks.len()
            invariant
                i <= self.banks().len(),
                reupload_models == exists|j: int| 0 <= j < i && (#[trigger] self.banks()[j]).shadow_changed(),
            decreases self.banks().len() - i,
        {
            reupload_models = reupload_models || self.model_banks[i].shadow_render_system_changed();
            i = i + 1;
        }
        reupload_models
    }

    /// Clears the flag telling the render system `render_system_index` to upload its models
    /// again.
    pub fn clear_user_render_system_upload_flag(&mut self, render_system_index: usize)
        requires
            render_system_index < old(self).banks().len(),
        ensures
            final(self).banks().len() == old(self).banks().len(),
            forall|j: int| 0 <= j < old(self).banks().len() && j != render_system_index ==> #[trigger] final(self).banks()[j]
                == old(self).banks()[j],
            final(self).banks()[render_system_index as int].counts() == old(self).banks()[render_system_index as int].counts(),
            !final(self).banks()[render_system_index as int].user_changed(),
            final(self).banks()[render_system_index as int].shadow_changed() == old(self).banks()[render_system_index as int].shadow_changed(),
            final(self).free_ids() == old(self).free_ids(),
            final(self).models_loaded() == old(self).models_loaded(),
            final(self).names() == old(self).names(),
    {
        self.model_banks[render_system_index].change_models_number_user_render_system = false;
    }

    /// Clears the flags telling the shadow render system to upload the models of each bank
    /// again.
    pub fn clear_shadow_render_system_upload_flag(&mut self)
        ensures
            final(self).banks().len() == old(self).banks().len(),
            forall|j: int| 0 <= j < old(self).banks().len() ==> (#[trigger] final(self).banks()[j]).counts()
                == old(self).banks()[j].counts() && final(self).banks()[j].user_changed() == old(self).banks()[j].user_changed()
                && !final(self).banks()[j].shadow_changed(),
            final(self).free_ids() == old(self).free_ids(),
            final(self).models_loaded() == old(self).models_loaded(),
            final(self).names() == old(self).names(),
    {
        let ghost pre = *self;
        let mut i: usize = 0;
        while i < self.model_banks.len()
            invariant
                i <= self.banks().len(),
                self.banks().len() == pre.banks().len(),
                forall|j: int| 0 <= j < pre.banks().len() ==> (#[trigger] self.banks()[j]).counts()
                    == pre.banks()[j].counts() && self.banks()[j].user_changed() == pre.banks()[j].user_changed(),
                forall|j: int| 0 <= j < i ==> !(#[trigger] self.banks()[j]).shadow_changed(),
                self.free_ids() == pre.free_ids(),
                self.models_loaded() == pre.models_loaded(),
                self.names() == pre.names(),
            decreases self.banks().len() - i,
        {
            self.model_banks[i].change_models_number_shadow_render_system = false;
            i = i + 1;
        }
    }

    /// The model bank of the render system `render_system_index`.
    pub fn get_model_bank(&self, render_system_index: RenderSystemIndex) -> (r: &ModelBank)
        requires
            render_system_index.index < self.banks().len(),
        ensures
            *r == self.banks()[render_system_index.index as int],
    {
        &self.model_banks[render_system_index.index]
    }

    /// The model banks after `number_instances` more instances of the model were registered:
    /// only the count of that model changes.
    pub open spec fn instances_registered(pre: ModelBankOwner, post: ModelBankOwner, model_id: ModelId, number_instances: u32) -> bool {
        let b = model_id.render_system_index.index as int;
        &&& post.banks().len() == pre.banks().len()
        &&& forall|j: int| 0 <= j < pre.banks().len() && j != b ==> #[trigger] post.banks()[j] == pre.banks()[j]
        &&& post.banks()[b].counts() == pre.banks()[b].counts().insert(
            model_key(model_id),
            (pre.banks()[b].counts()[model_key(model_id)] + number_instances) as u32,
        )
        &&& post.banks()[b].user_changed() == pre.banks()[b].user_changed()
        &&& post.banks()[b].shadow_changed() == pre.banks()[b].shadow_changed()
        &&& post.free_ids() == pre.free_ids()
        &&& post.models_loaded() == pre.models_loaded()
        &&& post.names() == pre.names()
    }

    /// The model's count of instances can grow by `number_instances`.
    pub open spec fn can_register_instances(&self, model_id: ModelId, number_instances: u32) -> bool {
        &&& model_id.render_system_index.index < self.banks().len()
        &&& self.banks()[model_id.render_system_index.index as int].counts().contains_key(model_key(model_id))
        &&& self.banks()[model_id.render_system_index.index as int].counts()[model_key(model_id)] + number_instances
            <= u32::MAX
    }

    /// Registers `number_instances` more instances of the model.
    pub fn register_instances(&mut self, model_id: ModelId, number_instances: u32)
        requires
            old(self).can_register_instances(model_id, number_instances),
        ensures
            ModelBankOwner::instances_registered(*old(self), *final(self), model_id, number_instances),
    {
        self.model_banks[model_id.render_system_index.index].register_model_instances(model_id, number_instances);
    }

    /// The model `model_id` has an instance that can be removed.
    pub open spec fn can_remove_instance(&self, model_id: ModelId) -> bool {
        &&& model_id.render_system_index.index < self.banks().len()
        &&& self.banks()[model_id.render_system_index.index as int].counts().contains_key(model_key(model_id))
        &&& self.banks()[model_id.render_system_index.index as int].counts()[model_key(model_id)] > 0
    }

    /// What removing an instance of `model_id` from `pre` gives: the count drops by one; when
    /// it was the last instance the model leaves its bank, the bank's render systems are told
    /// to upload their models again, and the ID becomes free, to be used by the next
    /// registered model.
    pub open spec fn instance_removed(pre: ModelBankOwner, post: ModelBankOwner, model_id: ModelId) -> bool {
        let b = model_id.render_system_index.index as int;
        let last = pre.banks()[b].counts()[model_key(model_id)] == 1;
        &&& post.banks().len() == pre.banks().len()
        &&& forall|j: int| 0 <= j < pre.banks().len() && j != b ==> #[trigger] post.banks()[j] == pre.banks()[j]
        &&& last ==> post.banks()[b].counts() == pre.banks()[b].counts().remove(model_key(model_id))
            && post.banks()[b].user_changed() && post.banks()[b].shadow_changed() && post.free_ids()
            == pre.free_ids().push(model_id)
        &&& !last ==> post.banks()[b].counts() == pre.banks()[b].counts().insert(
            model_key(model_id),
            (pre.banks()[b].counts()[model_key(model_id)] - 1) as u32,
        ) && post.banks()[b].user_changed() == pre.banks()[b].user_changed() && post.banks()[b].shadow_changed()
            == pre.banks()[b].shadow_changed() && post.free_ids() == pre.free_ids()
        &&& post.models_loaded() == pre.models_loaded()
        &&& post.names() == pre.names()
    }

    /// The number of model banks, one for each render system.
    pub fn number_model_banks(&self) -> (r: usize)
        ensures
            r == self.banks().len(),
    {
        self.model_banks.len()
    }

    /// Removes an instance of the model; when it was the last instance the model leaves its
    /// bank and its ID becomes free, to be used by the next registered model.
    pub fn remove_instance(&mut self, model_id: ModelId)
        requires
            old(self).can_remove_instance(model_id),
        ensures
            ModelBankOwner::instance_removed(*old(self), *final(self), model_id),
    {
        if self.model_banks[model_id.render_system_index.index].remove_instance(model_id) {
            self.free_ids.push(model_id);
        }
    }
}

/// Once the last instance of a model is removed, the next model registered gets its ID.
pub proof fn lemma_freed_id_is_used_next(
    before: ModelBankOwner,
    after: ModelBankOwner,
    model_id: ModelId,
    index: RenderSystemIndex,
)
    requires
        before.can_remove_instance(model_id),
        before.banks()[model_id.render_system_index.index as int].counts()[model_key(model_id)] == 1,
        ModelBankOwner::instance_removed(before, after, model_id),
    ensures
        after.next_model_id(index) == model_id,
        after.can_allocate(),
{
}

/// The model ID that the entity's model component, of type `model_type`, holds: `None` when
/// the type is not registered, the entity has no such component, or its bytes hold no model ID.
pub open spec fn entity_model(ecs: &ECS, entity: EntityId, model_type: TypeIdentifier) -> Option<ModelId> {
    if ecs.is_registered(model_type) && ecs.has_component(entity.instance() as int, ecs.type_index(model_type)) {
        decode_model_id(ecs.component_values(ecs.type_index(model_type))[entity.instance()])
    } else {
        None
    }
}

/// Reads the model ID that the entity's model component, of type `model_type`, holds.
pub fn model_of_entity(ecs: &ECS, entity: EntityId, model_type: TypeIdentifier) -> (r: Option<ModelId>)
    requires
        ecs.wf(),
        entity.instance() < ecs.num_entities(),
    ensures
        r == entity_model(ecs, entity, model_type),
{
    match ecs.get_copy(entity, model_type) {
        Some(bytes) => ModelId::from_component_bytes(&bytes),
        None => None,
    }
}

} // verus!
