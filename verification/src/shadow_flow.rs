//! Which light source gets a shadow map next, and where in the shadow map texture array it
//! goes. Building the light's camera and culling the world from it happen around these
//! decisions; here the slots of the texture array are handed out and taken back.

use crate::collections::{light_shadow_map_contents, LightShadowMaps};
use crate::components::FindLightType;
use crate::entity_id::EntityId;
use std::collections::VecDeque;
use vstd::prelude::*;

verus! {

/// Round robin selection of what type of light source to look at when determining if a shadow
/// map needs to be created, with the light of that type being serviced, if one was chosen.
#[derive(Copy, Clone, Debug)]
pub enum ServicingLightType {
    DirectionalLight(Option<EntityId>),
    PointLight(Option<EntityId>),
    SpotLight(Option<EntityId>),
}

/// Indexes into the shadow map texture array for a given light source. Spot lights use six
/// shadow maps; point and directional lights only the first index.
#[derive(Copy, Clone)]
pub struct ShadowMapIndex {
    pub indexes: [Option<usize>; 6],
}

/// The lights a servicing step chooses from, each list in the order its set is walked.
pub struct LightCandidates {
    /// Every directional light of the entity-component store.
    pub directional_lights: Vec<EntityId>,
    /// Point lights near the camera, visible or not.
    pub nearby_point_lights: Vec<EntityId>,
    /// Spot lights near the camera, visible or not.
    pub nearby_spot_lights: Vec<EntityId>,
    /// Point lights visible to the camera.
    pub visible_point_lights: Vec<EntityId>,
    /// Spot lights visible to the camera.
    pub visible_spot_lights: Vec<EntityId>,
}

/// A shadow map to render: for which light, into which layer of the texture array, and for a
/// spot light which of its six faces.
#[derive(Copy, Clone)]
pub struct ShadowMapRequest {
    pub light: EntityId,
    pub light_type: FindLightType,
    pub texture_index: usize,
    pub face: Option<usize>,
}

/// Whether a shadow map needs to be created this frame.
#[derive(Copy, Clone)]
pub enum ShadowMapDecision {
    NoNewMapRequired,
    NewMapRequired(ShadowMapRequest),
}

/// Decides which light source needs a shadow map and hands out the layers of the shadow map
/// texture array.
pub struct ShadowFlow {
    current_light_type: ServicingLightType,
    spotlights: LightShadowMaps,
    point_lights: LightShadowMaps,
    directional_lights: LightShadowMaps,
    upload_indexes: VecDeque<u32>,
    free_indexes: VecDeque<usize>,
    number_shadow_maps: Ghost<nat>,
}

/// The light a servicing state carries, if any.
pub open spec fn serviced_light(s: ServicingLightType) -> Option<EntityId> {
    match s {
        ServicingLightType::DirectionalLight(l) => l,
        ServicingLightType::PointLight(l) => l,
        ServicingLightType::SpotLight(l) => l,
    }
}

/// The instance numbers of a list of entities.
pub open spec fn instances(s: Seq<EntityId>) -> Seq<u32> {
    s.map_values(|e: EntityId| e.instance())
}

/// The slots of a light that holds no shadow map yet.
pub open spec fn empty_slots() -> Seq<Option<usize>> {
    seq![None::<usize>, None::<usize>, None::<usize>, None::<usize>, None::<usize>, None::<usize>]
}

/// The layers held in the first `n` slots, in slot order.
pub open spec fn held_prefix(slots: Seq<Option<usize>>, n: nat) -> Seq<usize>
    decreases n,
{
    if n == 0 {
        Seq::empty()
    } else {
        let rest = held_prefix(slots, (n - 1) as nat);
        match slots[n - 1] {
            Some(i) => rest.push(i),
            None => rest,
        }
    }
}

/// The layers a light holds, in slot order.
pub open spec fn held(slots: Seq<Option<usize>>) -> Seq<usize> {
    held_prefix(slots, 6)
}

/// The layers given back when the lights `ks` of `m` are dropped, in that order.
pub open spec fn released(m: Map<u32, Seq<Option<usize>>>, ks: Seq<u32>) -> Seq<usize>
    decreases ks.len(),
{
    if ks.len() == 0 {
        Seq::empty()
    } else {
        released(m, ks.drop_last()) + held(m[ks.last()])
    }
}

/// `ks` lists, once each, the lights of `m` that are no longer nearby.
pub open spec fn is_release_order(m: Map<u32, Seq<Option<usize>>>, nearby: Seq<EntityId>, ks: Seq<u32>) -> bool {
    &&& ks.no_duplicates()
    &&& forall|k: u32| ks.contains(k) <==> (m.contains_key(k) && !instances(nearby).contains(k))
}

/// The lights of `m` that are still nearby.
pub open spec fn kept_lights(m: Map<u32, Seq<Option<usize>>>, nearby: Seq<EntityId>) -> Map<u32, Seq<Option<usize>>> {
    m.restrict(m.dom().filter(|k: u32| instances(nearby).contains(k)))
}

/// The last light of `s` that holds no entry in `dom`.
pub open spec fn last_unmapped(s: Seq<EntityId>, dom: Set<u32>) -> Option<EntityId>
    decreases s.len(),
{
    if s.len() == 0 {
        None
    } else if !dom.contains(s.last().instance()) {
        Some(s.last())
    } else {
        last_unmapped(s.drop_last(), dom)
    }
}

/// The first light of `s` that holds no entry in `dom`.
pub open spec fn first_unmapped(s: Seq<EntityId>, dom: Set<u32>) -> Option<EntityId>
    decreases s.len(),
{
    if s.len() == 0 {
        None
    } else if !dom.contains(s[0].instance()) {
        Some(s[0])
    } else {
        first_unmapped(s.drop_first(), dom)
    }
}

/// The first light of `nearby` that is not visible and holds no entry in `dom`.
pub open spec fn first_not_visible(nearby: Seq<EntityId>, visible: Seq<EntityId>, dom: Set<u32>) -> Option<EntityId>
    decreases nearby.len(),
{
    if nearby.len() == 0 {
        None
    } else if !visible.contains(nearby[0]) && !dom.contains(nearby[0].instance()) {
        Some(nearby[0])
    } else {
        first_not_visible(nearby.drop_first(), visible, dom)
    }
}

/// The light to give a shadow map next: a visible light without one (the last such, in the
/// order the visible lights are walked), else the first nearby light that is not visible and
/// has no map yet. `None` when every such light has a map.
pub open spec fn next_light(dom: Set<u32>, nearby: Seq<EntityId>, visible: Seq<EntityId>) -> Option<EntityId> {
    match last_unmapped(visible, dom) {
        Some(e) => Some(e),
        None => first_not_visible(nearby, visible, dom),
    }
}

/// The first slot without a layer.
pub open spec fn first_empty(slots: Seq<Option<usize>>) -> Option<nat>
    decreases slots.len(),
{
    if slots.len() == 0 {
        None
    } else if slots[0] is None {
        Some(0)
    } else {
        match first_empty(slots.drop_first()) {
            Some(i) => Some(i + 1),
            None => None,
        }
    }
}

/// The search for a light of one type: with no free layer nothing changes and no light is
/// found; otherwise the lights no longer nearby give back their layers (walked in the order
/// `ks`) and the next light is chosen among the rest.
pub open spec fn search(
    m: Map<u32, Seq<Option<usize>>>,
    free: Seq<usize>,
    nearby: Seq<EntityId>,
    visible: Seq<EntityId>,
    ks: Seq<u32>,
) -> (Map<u32, Seq<Option<usize>>>, Seq<usize>, Option<EntityId>) {
    if free.len() == 0 {
        (m, free, None)
    } else {
        let kept = kept_lights(m, nearby);
        (kept, free + released(m, ks), next_light(kept.dom(), nearby, visible))
    }
}

/// Whether some entity of `v` has the instance number `k`.
fn lists_instance(v: &Vec<EntityId>, k: u32) -> (r: bool)
    ensures
        r == instances(v@).contains(k),
{
    let mut i: usize = 0;
    while i < v.len()
        invariant
            i <= v.len(),
            forall|j: int| 0 <= j < i ==> v@[j].instance() != k,
        decreases v.len() - i,
    {
        if v[i].get_entity_instance() == k {
            assert(instances(v@)[i as int] == k);
            return true;
        }
        i = i + 1;
    }
    assert(!instances(v@).contains(k)) by {
        if instances(v@).contains(k) {
            let j = choose|j: int| 0 <= j < instances(v@).len() && instances(v@)[j] == k;
            assert(v@[j].instance() == k);
        }
    }
    false
}

/// Whether `e` is one of the entities of `v`.
fn lists_entity(v: &Vec<EntityId>, e: EntityId) -> (r: bool)
    ensures
        r == v@.contains(e),
{
    let mut i: usize = 0;
    while i < v.len()
        invariant
            i <= v.len(),
            forall|j: int| 0 <= j < i ==> v@[j] != e,
        decreases v.len() - i,
    {
        if v[i] == e {
            return true;
        }
        i = i + 1;
    }
    false
}

/// Six slots without a layer.
fn no_slots() -> (r: ShadowMapIndex)
    ensures
        r.indexes@ == empty_slots(),
{
    let r = ShadowMapIndex { indexes: [None, None, None, None, None, None] };
    assert(r.indexes@ =~= empty_slots());
    r
}

/// The first slot of `slots` without a layer.
fn first_empty_slot(slots: &ShadowMapIndex) -> (r: Option<usize>)
    ensures
        match r {
            Some(i) => first_empty(slots.indexes@) == Some(i as nat) && i < 6 && slots.indexes@[i as int] is None,
            None => first_empty(slots.indexes@) is None,
        },
{
    let ghost v = slots.indexes@;
    assert(v.skip(0) =~= v);
    let mut i: usize = 0;
    while i < 6
        invariant
            i <= 6,
            v == slots.indexes@,
            v.len() == 6,
            first_empty(v) == (match first_empty(v.skip(i as int)) {
                Some(j) => Some((j + i) as nat),
                None => None,
            }),
        decreases 6 - i,
    {
        assert(v.skip(i as int)[0] == v[i as int]);
        assert(v.skip(i as int).drop_first() =~= v.skip(i as int + 1));
        if slots.indexes[i].is_none() {
            return Some(i);
        }
        i = i + 1;
    }
    None
}

impl ShadowFlow {
    /// The light type being serviced, with its light if one was chosen.
    pub closed spec fn servicing(&self) -> ServicingLightType {
        self.current_light_type
    }

    /// The slots held by each light of type `t`, by entity instance.
    pub closed spec fn lights(&self, t: FindLightType) -> Map<u32, Seq<Option<usize>>> {
        match t {
            FindLightType::Directional => self.directional_lights@,
            FindLightType::Point => self.point_lights@,
            FindLightType::Spot => self.spotlights@,
        }
    }

    /// The layers not held by any light, in the order they are handed out.
    pub closed spec fn free(&self) -> Seq<usize> {
        self.free_indexes@
    }

    /// Layers written for spot lights, in the order their maps were requested.
    pub closed spec fn uploads(&self) -> Seq<u32> {
        self.upload_indexes@
    }

    /// The number of layers of the shadow map texture array.
    pub closed spec fn capacity(&self) -> nat {
        self.number_shadow_maps@
    }

    /// Slot `s` of the light `k` of type `t` holds layer `x`.
    pub open spec fn holds(&self, t: FindLightType, k: u32, s: int, x: usize) -> bool {
        &&& self.lights(t).contains_key(k)
        &&& 0 <= s < 6
        &&& self.lights(t)[k][s] == Some(x)
    }

    /// Every layer is below the capacity and in at most one place: free once, or held by
    /// one slot of one light.
    pub open spec fn layers_sound(&self) -> bool {
        &&& self.free().no_duplicates()
        &&& forall|i: int| 0 <= i < self.free().len() ==> self.free()[i] < self.capacity()
        &&& forall|t: FindLightType, k: u32, s: int, x: usize| #[trigger]
            self.holds(t, k, s, x) ==> x < self.capacity() && !self.free().contains(x)
        &&& forall|t1: FindLightType, k1: u32, s1: int, t2: FindLightType, k2: u32, s2: int, x: usize|
            #[trigger] self.holds(t1, k1, s1, x) && #[trigger] self.holds(t2, k2, s2, x) ==> t1 == t2
                && k1 == k2 && s1 == s2
    }

    /// Every light has six slots.
    pub open spec fn slots_sized(&self) -> bool {
        forall|t: FindLightType, k: u32| #[trigger] self.lights(t).contains_key(k) ==> self.lights(t)[k].len() == 6
    }

    /// The flow's invariant: its layers are sound and a spot light being serviced holds slots.
    pub open spec fn wf(&self) -> bool {
        &&& self.layers_sound()
        &&& self.slots_sized()
        &&& (self.servicing() matches ServicingLightType::SpotLight(Some(e)) ==> self.lights(
            FindLightType::Spot,
        ).contains_key(e.instance()))
    }

    /// A servicing step can run: a directional light being serviced always takes a free layer.
    pub open spec fn can_service(&self) -> bool {
        !(self.servicing() matches ServicingLightType::DirectionalLight(Some(_)) && self.free().len() == 0)
    }

    /// The light being searched for by a point or spot step, with the lights and free layers
    /// after the search: a light already serviced is kept; otherwise the search runs.
    pub open spec fn chosen(
        &self,
        t: FindLightType,
        nearby: Seq<EntityId>,
        visible: Seq<EntityId>,
        ks: Seq<u32>,
    ) -> (Map<u32, Seq<Option<usize>>>, Seq<usize>, Option<EntityId>) {
        match serviced_light(self.servicing()) {
            Some(e) => (self.lights(t), self.free(), Some(e)),
            None => search(self.lights(t), self.free(), nearby, visible, ks),
        }
    }

    /// The lights of type `t` once a newly chosen light has been given empty slots.
    pub open spec fn entered(
        &self,
        t: FindLightType,
        nearby: Seq<EntityId>,
        visible: Seq<EntityId>,
        ks: Seq<u32>,
    ) -> Map<u32, Seq<Option<usize>>> {
        let (m1, f1, found) = self.chosen(t, nearby, visible, ks);
        match (serviced_light(self.servicing()), found) {
            (None, Some(e)) => m1.insert(e.instance(), empty_slots()),
            _ => m1,
        }
    }

    /// `ks` is the order in which a search that ran walked the lights it dropped.
    pub open spec fn order_valid(&self, t: FindLightType, nearby: Seq<EntityId>, ks: Seq<u32>) -> bool {
        serviced_light(self.servicing()) is None && self.free().len() > 0 ==> is_release_order(
            self.lights(t),
            nearby,
            ks,
        )
    }

    /// One step servicing directional lights: a light without a map (the first of
    /// `directional`, when a layer is free) or the light already serviced takes the first free
    /// layer; with no such light the step moves on to point lights.
    pub open spec fn directional_step(&self, post: Self, directional: Seq<EntityId>, r: ShadowMapDecision) -> bool {
        let found = match serviced_light(self.servicing()) {
            Some(e) => Some(e),
            None => if self.free().len() == 0 {
                None
            } else {
                first_unmapped(directional, self.lights(FindLightType::Directional).dom())
            },
        };
        &&& forall|u: FindLightType| #[trigger] post.lights(u) == self.lights(u)
        &&& post.uploads() == self.uploads()
        &&& match found {
            Some(e) => {
                &&& post.servicing() == ServicingLightType::DirectionalLight(Some(e))
                &&& post.free() == self.free().drop_first()
                &&& r == ShadowMapDecision::NewMapRequired(
                    ShadowMapRequest {
                        light: e,
                        light_type: FindLightType::Directional,
                        texture_index: self.free()[0],
                        face: None,
                    },
                )
            },
            None => {
                &&& post.servicing() == ServicingLightType::PointLight(None)
                &&& post.free() == self.free()
                &&& r == ShadowMapDecision::NoNewMapRequired
            },
        }
    }

    /// One step servicing point lights: the light found (or already serviced) takes the first
    /// free layer, if there is one; with no light the step moves on to spot lights.
    pub open spec fn point_step(
        &self,
        post: Self,
        nearby: Seq<EntityId>,
        visible: Seq<EntityId>,
        ks: Seq<u32>,
        r: ShadowMapDecision,
    ) -> bool {
        let (m1, f1, found) = self.chosen(FindLightType::Point, nearby, visible, ks);
        &&& self.order_valid(FindLightType::Point, nearby, ks)
        &&& post.lights(FindLightType::Point) == self.entered(FindLightType::Point, nearby, visible, ks)
        &&& post.lights(FindLightType::Directional) == self.lights(FindLightType::Directional)
        &&& post.lights(FindLightType::Spot) == self.lights(FindLightType::Spot)
        &&& post.uploads() == self.uploads()
        &&& match found {
            Some(e) => {
                &&& post.servicing() == ServicingLightType::PointLight(Some(e))
                &&& if f1.len() > 0 {
                    &&& post.free() == f1.drop_first()
                    &&& r == ShadowMapDecision::NewMapRequired(
                        ShadowMapRequest {
                            light: e,
                            light_type: FindLightType::Point,
                            texture_index: f1[0],
                            face: None,
                        },
                    )
                } else {
                    &&& post.free() == f1
                    &&& r == ShadowMapDecision::NoNewMapRequired
                }
            },
            None => {
                &&& post.servicing() == ServicingLightType::SpotLight(None)
                &&& post.free() == f1
                &&& r == ShadowMapDecision::NoNewMapRequired
            },
        }
    }

    /// One step servicing spot lights: the light found (or already serviced) fills its first
    /// empty slot with the first free layer, if there is one, and the layer is queued for
    /// upload; a light with all six slots filled, or no light, moves the step on to
    /// directional lights.
    pub open spec fn spot_step(
        &self,
        post: Self,
        nearby: Seq<EntityId>,
        visible: Seq<EntityId>,
        ks: Seq<u32>,
        r: ShadowMapDecision,
    ) -> bool {
        let (m1, f1, found) = self.chosen(FindLightType::Spot, nearby, visible, ks);
        let m2 = self.entered(FindLightType::Spot, nearby, visible, ks);
        &&& self.order_valid(FindLightType::Spot, nearby, ks)
        &&& post.lights(FindLightType::Directional) == self.lights(FindLightType::Directional)
        &&& post.lights(FindLightType::Point) == self.lights(FindLightType::Point)
        &&& match found {
            Some(e) => {
                let slots = m2[e.instance()];
                match first_empty(slots) {
                    Some(i) => if f1.len() > 0 {
                        &&& post.lights(FindLightType::Spot) == m2.insert(e.instance(), slots.update(i as int, Some(f1[0])))
                        &&& post.free() == f1.drop_first()
                        &&& post.uploads() == self.uploads().push(f1[0] as u32)
                        &&& post.servicing() == ServicingLightType::SpotLight(Some(e))
                        &&& r == ShadowMapDecision::NewMapRequired(
                            ShadowMapRequest {
                                light: e,
                                light_type: FindLightType::Spot,
                                texture_index: f1[0],
                                face: Some(i as usize),
                            },
                        )
                    } else {
                        &&& post.lights(FindLightType::Spot) == m2
                        &&& post.free() == f1
                        &&& post.uploads() == self.uploads()
                        &&& post.servicing() == ServicingLightType::SpotLight(Some(e))
                        &&& r == ShadowMapDecision::NoNewMapRequired
                    },
                    None => {
                        &&& post.lights(FindLightType::Spot) == m2
                        &&& post.free() == f1
                        &&& post.uploads() == self.uploads()
                        &&& post.servicing() == ServicingLightType::DirectionalLight(None)
                        &&& r == ShadowMapDecision::NoNewMapRequired
                    },
                }
            },
            None => {
                &&& post.lights(FindLightType::Spot) == m2
                &&& post.free() == f1
                &&& post.uploads() == self.uploads()
                &&& post.servicing() == ServicingLightType::DirectionalLight(None)
                &&& r == ShadowMapDecision::NoNewMapRequired
            },
        }
    }

    /// One servicing step of the light type being serviced, from this flow to `post`,
    /// answering `r`; `ks` is the order in which dropped lights were walked, if a search ran.
    pub open spec fn steps_to(&self, post: Self, candidates: &LightCandidates, ks: Seq<u32>, r: ShadowMapDecision) -> bool {
        match self.servicing() {
            ServicingLightType::DirectionalLight(_) => self.directional_step(post, candidates.directional_lights@, r),
            ServicingLightType::PointLight(_) => self.point_step(
                post,
                candidates.nearby_point_lights@,
                candidates.visible_point_lights@,
                ks,
                r,
            ),
            ServicingLightType::SpotLight(_) => self.spot_step(
                post,
                candidates.nearby_spot_lights@,
                candidates.visible_spot_lights@,
                ks,
                r,
            ),
        }
    }

    /// Soundness and slot sizes depend only on the lights, the free layers and the capacity.
    proof fn lemma_same_layers(pre: ShadowFlow, post: ShadowFlow)
        requires
            pre.layers_sound(),
            pre.slots_sized(),
            forall|u: FindLightType| #[trigger] post.lights(u) == pre.lights(u),
            post.free() == pre.free(),
            post.capacity() == pre.capacity(),
        ensures
            post.layers_sound(),
            post.slots_sized(),
    {
        assert forall|t: FindLightType, k: u32, s: int, x: usize| #[trigger]
            post.holds(t, k, s, x) implies pre.holds(t, k, s, x) by {
            assert(post.lights(t) == pre.lights(t));
        }
        ShadowFlow::lemma_fewer_holdings_keep_sound(pre, post);
        assert forall|t: FindLightType, k: u32| #[trigger] post.lights(t).contains_key(k) implies post.lights(t)[k].len() == 6 by {
            assert(post.lights(t) == pre.lights(t));
        }
    }

    /// Taking the first free layer out of the free layers keeps the layers sound.
    proof fn lemma_pop_keeps_sound(pre: ShadowFlow, post: ShadowFlow)
        requires
            pre.layers_sound(),
            pre.slots_sized(),
            pre.free().len() > 0,
            post.free() == pre.free().drop_first(),
            forall|u: FindLightType| #[trigger] post.lights(u) == pre.lights(u),
            post.capacity() == pre.capacity(),
        ensures
            post.layers_sound(),
            post.slots_sized(),
    {
        assert forall|t: FindLightType, k: u32| #[trigger] post.lights(t).contains_key(k) implies post.lights(t)[k].len() == 6 by {
            assert(post.lights(t) == pre.lights(t));
        }
        assert forall|a: int, b: int| 0 <= a < b < post.free().len() implies post.free()[a] != post.free()[b] by {
            assert(post.free()[a] == pre.free()[a + 1]);
            assert(post.free()[b] == pre.free()[b + 1]);
        }
        assert forall|i: int| 0 <= i < post.free().len() implies post.free()[i] < post.capacity() by {
            assert(post.free()[i] == pre.free()[i + 1]);
        }
        assert forall|t: FindLightType, k: u32, s: int, x: usize| #[trigger]
            post.holds(t, k, s, x) implies x < post.capacity() && !post.free().contains(x) by {
            assert(post.lights(t) == pre.lights(t));
            assert(pre.holds(t, k, s, x));
            if post.free().contains(x) {
                let a = choose|a: int| 0 <= a < post.free().len() && post.free()[a] == x;
                assert(pre.free()[a + 1] == x);
            }
        }
        assert forall|t1: FindLightType, k1: u32, s1: int, t2: FindLightType, k2: u32, s2: int, x: usize|
            #[trigger] post.holds(t1, k1, s1, x) && #[trigger] post.holds(t2, k2, s2, x) implies t1 == t2 && k1 == k2
                && s1 == s2 by {
            assert(post.lights(t1) == pre.lights(t1));
            assert(post.lights(t2) == pre.lights(t2));
            assert(pre.holds(t1, k1, s1, x) && pre.holds(t2, k2, s2, x));
        }
    }

    /// Holding fewer layers, with the same free layers, keeps the layers sound.
    proof fn lemma_fewer_holdings_keep_sound(pre: ShadowFlow, post: ShadowFlow)
        requires
            pre.layers_sound(),
            post.free() == pre.free(),
            post.capacity() == pre.capacity(),
            forall|t: FindLightType, k: u32, s: int, x: usize| #[trigger]
                post.holds(t, k, s, x) ==> pre.holds(t, k, s, x),
        ensures
            post.layers_sound(),
    {
        assert forall|t1: FindLightType, k1: u32, s1: int, t2: FindLightType, k2: u32, s2: int, x: usize|
            #[trigger] post.holds(t1, k1, s1, x) && #[trigger] post.holds(t2, k2, s2, x) implies t1 == t2 && k1 == k2
                && s1 == s2 by {
            assert(pre.holds(t1, k1, s1, x) && pre.holds(t2, k2, s2, x));
        }
        assert forall|t: FindLightType, k: u32, s: int, x: usize| #[trigger]
            post.holds(t, k, s, x) implies x < post.capacity() && !post.free().contains(x) by {
            assert(pre.holds(t, k, s, x));
        }
    }

    /// Moving the first free layer into an empty slot keeps the layers sound.
    proof fn lemma_assign_keeps_sound(pre: ShadowFlow, post: ShadowFlow, t: FindLightType, k: u32, i: int)
        requires
            pre.layers_sound(),
            pre.slots_sized(),
            pre.free().len() > 0,
            pre.lights(t).contains_key(k),
            0 <= i < 6,
            pre.lights(t)[k].len() == 6,
            pre.lights(t)[k][i] is None,
            post.lights(t) == pre.lights(t).insert(k, pre.lights(t)[k].update(i, Some(pre.free()[0]))),
            forall|u: FindLightType| u != t ==> #[trigger] post.lights(u) == pre.lights(u),
            post.free() == pre.free().drop_first(),
            post.capacity() == pre.capacity(),
        ensures
            post.layers_sound(),
            post.slots_sized(),
    {
        let x0 = pre.free()[0];
        assert forall|u: FindLightType, q: u32| #[trigger] post.lights(u).contains_key(q) implies post.lights(u)[q].len() == 6 by {
            if u != t {
                assert(post.lights(u) == pre.lights(u));
            }
        }
        assert(pre.free().contains(x0));
        assert forall|a: int, b: int| 0 <= a < b < post.free().len() implies post.free()[a] != post.free()[b] by {
            assert(post.free()[a] == pre.free()[a + 1]);
            assert(post.free()[b] == pre.free()[b + 1]);
        }
        assert forall|a: int| 0 <= a < post.free().len() implies post.free()[a] < post.capacity() && post.free()[a] != x0 by {
            assert(post.free()[a] == pre.free()[a + 1]);
        }
        // every holding of `post` other than the new one is a holding of `pre`
        assert forall|u: FindLightType, q: u32, s: int, x: usize| #[trigger]
            post.holds(u, q, s, x) && !(u == t && q == k && s == i) implies pre.holds(u, q, s, x) by {
            if u != t {
                assert(post.lights(u) == pre.lights(u));
            }
        }
        assert(post.holds(t, k, i, x0));
        assert forall|u: FindLightType, q: u32, s: int, x: usize| #[trigger]
            post.holds(u, q, s, x) implies x < post.capacity() && !post.free().contains(x) by {
            if u == t && q == k && s == i {
                assert(x == x0);
            } else {
                assert(pre.holds(u, q, s, x));
                if post.free().contains(x) {
                    let a = choose|a: int| 0 <= a < post.free().len() && post.free()[a] == x;
                    assert(pre.free()[a + 1] == x);
                }
            }
        }
        assert forall|t1: FindLightType, k1: u32, s1: int, t2: FindLightType, k2: u32, s2: int, x: usize|
            #[trigger] post.holds(t1, k1, s1, x) && #[trigger] post.holds(t2, k2, s2, x) implies t1 == t2 && k1 == k2
                && s1 == s2 by {
            let new1 = t1 == t && k1 == k && s1 == i;
            let new2 = t2 == t && k2 == k && s2 == i;
            if new1 && !new2 {
                assert(pre.holds(t2, k2, s2, x));
                assert(x == x0);
            } else if new2 && !new1 {
                assert(pre.holds(t1, k1, s1, x));
                assert(x == x0);
            } else if !new1 && !new2 {
                assert(pre.holds(t1, k1, s1, x) && pre.holds(t2, k2, s2, x));
            }
        }
    }

    /// Creates a new shadow flow that handles the logic for the given number of possible
    /// shadow maps.
    pub fn new(number_shadow_maps: usize) -> (r: ShadowFlow)
        ensures
            r.wf(),
            r.capacity() == number_shadow_maps,
            r.servicing() == ServicingLightType::DirectionalLight(None),
            r.free() == Seq::new(number_shadow_maps as nat, |i: int| i as usize),
            forall|t: FindLightType| #[trigger] r.lights(t).dom() == Set::<u32>::empty(),
            r.uploads() == Seq::<u32>::empty(),
    {
        let mut free_indexes: VecDeque<usize> = VecDeque::new();
        let mut i: usize = 0;
        while i < number_shadow_maps
            invariant
                i <= number_shadow_maps,
                free_indexes@ == Seq::new(i as nat, |j: int| j as usize),
            decreases number_shadow_maps - i,
        {
            free_indexes.push_back(i);
            i = i + 1;
            assert(free_indexes@ =~= Seq::new(i as nat, |j: int| j as usize));
        }
        let r = ShadowFlow {
            current_light_type: ServicingLightType::DirectionalLight(None),
            spotlights: LightShadowMaps::new(),
            point_lights: LightShadowMaps::new(),
            directional_lights: LightShadowMaps::new(),
            upload_indexes: VecDeque::new(),
            free_indexes,
            number_shadow_maps: Ghost(number_shadow_maps as nat),
        };
        assert forall|t: FindLightType| #[trigger] r.lights(t).dom() == Set::<u32>::empty() by {
            assert(r.lights(t).dom() =~= Set::<u32>::empty());
        }
        r
    }

    /// The layers written for spot lights, in the order their maps were requested.
    pub fn upload_indexes(&self) -> (r: &VecDeque<u32>)
        ensures
            r@ == self.uploads(),
    {
        &self.upload_indexes
    }

    /// Whether `calculate_shadow_maps` can run on this flow.
    pub fn can_calculate_shadow_maps(&self) -> (r: bool)
        ensures
            r == self.can_service(),
    {
        match self.current_light_type {
            ServicingLightType::DirectionalLight(Some(_)) => self.free_indexes.len() > 0,
            _ => true,
        }
    }

    fn light_map(&self, t: FindLightType) -> (r: &LightShadowMaps)
        ensures
            r@ == self.lights(t),
    {
        match t {
            FindLightType::Directional => &self.directional_lights,
            FindLightType::Point => &self.point_lights,
            FindLightType::Spot => &self.spotlights,
        }
    }

    /// The first light of `v` without slots among the lights of type `t`.
    fn first_unmapped_light(&self, t: FindLightType, v: &Vec<EntityId>) -> (r: Option<EntityId>)
        ensures
            r == first_unmapped(v@, self.lights(t).dom()),
    {
        assert(v@.skip(0) =~= v@);
        let mut i: usize = 0;
        while i < v.len()
            invariant
                i <= v.len(),
                first_unmapped(v@, self.lights(t).dom()) == first_unmapped(v@.skip(i as int), self.lights(t).dom()),
            decreases v.len() - i,
        {
            let entity = v[i];
            assert(v@.skip(i as int)[0] == entity);
            assert(v@.skip(i as int).drop_first() =~= v@.skip(i as int + 1));
            if !self.light_map(t).contains_key(entity.get_entity_instance()) {
                return Some(entity);
            }
            i = i + 1;
        }
        None
    }

    /// Finds the directional light that needs a shadow map, if any.
    fn handle_direction_light(&mut self, current_light: Option<EntityId>, directional: &Vec<EntityId>) -> (r: ShadowMapDecision)
        requires
            old(self).wf(),
            old(self).can_service(),
            old(self).servicing() == ServicingLightType::DirectionalLight(current_light),
        ensures
            old(self).directional_step(*final(self), directional@, r),
            final(self).wf(),
            final(self).capacity() == old(self).capacity(),
    {
        let ghost pre = *self;
        let mut current_light = current_light;
        if current_light.is_none() {
            if self.free_indexes.len() == 0 {
                // Move on to the next light source type; hopefully when the round robin gets back
                // to this light type there will be a free index for the shadow map
                self.current_light_type = ServicingLightType::PointLight(None);
                assert(forall|u: FindLightType| #[trigger] self.lights(u) == pre.lights(u));
                proof {
                    ShadowFlow::lemma_same_layers(pre, *self);
                }
                return ShadowMapDecision::NoNewMapRequired;
            }
            current_light = self.first_unmapped_light(FindLightType::Directional, directional);
            if current_light.is_some() {
                self.current_light_type = ServicingLightType::DirectionalLight(current_light);
            }
        }
        assert(forall|u: FindLightType| #[trigger] self.lights(u) == pre.lights(u));
        proof {
            ShadowFlow::lemma_same_layers(pre, *self);
        }
        match current_light {
            Some(entity_id) => {
                let ghost mid = *self;
                let free_index = self.free_indexes.pop_front().unwrap();
                proof {
                    assert(forall|u: FindLightType| #[trigger] self.lights(u) == mid.lights(u));
                    ShadowFlow::lemma_pop_keeps_sound(mid, *self);
                }
                ShadowMapDecision::NewMapRequired(
                    ShadowMapRequest {
                        light: entity_id,
                        light_type: FindLightType::Directional,
                        texture_index: free_index,
                        face: None,
                    },
                )
            },
            None => {
                let ghost mid = *self;
                self.current_light_type = ServicingLightType::PointLight(None);
                assert(forall|u: FindLightType| #[trigger] self.lights(u) == pre.lights(u));
                proof {
                    ShadowFlow::lemma_same_layers(mid, *self);
                }
                ShadowMapDecision::NoNewMapRequired
            },
        }
    }

    /// Finds the point light that needs a shadow map, if any.
    fn handle_point_light(&mut self, current_light: Option<EntityId>, nearby: &Vec<EntityId>, visible: &Vec<EntityId>) -> (r: (ShadowMapDecision, Ghost<Seq<u32>>))
        requires
            old(self).wf(),
            old(self).servicing() == ServicingLightType::PointLight(current_light),
        ensures
            old(self).point_step(*final(self), nearby@, visible@, r.1@, r.0),
            final(self).wf(),
            final(self).capacity() == old(self).capacity(),
    {
        let ghost pre = *self;
        let mut current_light = current_light;
        let mut ks: Ghost<Seq<u32>> = Ghost(Seq::empty());
        if current_light.is_none() {
            let (found, order) = self.find_next_light_to_have_shadow_map(FindLightType::Point, nearby, visible);
            current_light = found;
            ks = order;
            let ghost searched = *self;
            self.current_light_type = ServicingLightType::PointLight(current_light);
            proof {
                assert(forall|u: FindLightType| #[trigger] self.lights(u) == searched.lights(u));
                ShadowFlow::lemma_same_layers(searched, *self);
            }
            if let Some(entity_id) = current_light {
                let ghost searched = *self;
                self.insert_light(FindLightType::Point, entity_id.get_entity_instance(), no_slots());
                proof {
                    assert forall|t: FindLightType, k: u32, s: int, x: usize| #[trigger]
                        self.holds(t, k, s, x) implies searched.holds(t, k, s, x) by {
                        if t != FindLightType::Point {
                            assert(self.lights(t) == searched.lights(t));
                        }
                    }
                    ShadowFlow::lemma_fewer_holdings_keep_sound(searched, *self);
                    assert forall|t: FindLightType, k: u32| #[trigger] self.lights(t).contains_key(k) implies self.lights(t)[k].len() == 6 by {
                        if t != FindLightType::Point {
                            assert(self.lights(t) == searched.lights(t));
                        }
                    }
                }
            }
        }
        assert(self.lights(FindLightType::Point) == pre.entered(FindLightType::Point, nearby@, visible@, ks@));
        match current_light {
            Some(entity_id) => {
                let ghost mid = *self;
                match self.free_indexes.pop_front() {
                    Some(free_index) => {
                        proof {
                            assert(forall|u: FindLightType| #[trigger] self.lights(u) == mid.lights(u));
                            ShadowFlow::lemma_pop_keeps_sound(mid, *self);
                        }
                        (
                            ShadowMapDecision::NewMapRequired(
                                ShadowMapRequest {
                                    light: entity_id,
                                    light_type: FindLightType::Point,
                                    texture_index: free_index,
                                    face: None,
                                },
                            ),
                            ks,
                        )
                    },
                    None => {
                        proof {
                            assert(forall|u: FindLightType| #[trigger] self.lights(u) == mid.lights(u));
                            ShadowFlow::lemma_same_layers(mid, *self);
                        }
                        (ShadowMapDecision::NoNewMapRequired, ks)
                    },
                }
            },
            None => {
                let ghost mid = *self;
                self.current_light_type = ServicingLightType::SpotLight(None);
                proof {
                    assert(forall|u: FindLightType| #[trigger] self.lights(u) == mid.lights(u));
                    ShadowFlow::lemma_same_layers(mid, *self);
                }
                (ShadowMapDecision::NoNewMapRequired, ks)
            },
        }
    }

    /// Finds the spot light that needs a shadow map, and which of its six faces, if any.
    fn handle_spot_light(&mut self, current_light: Option<EntityId>, nearby: &Vec<EntityId>, visible: &Vec<EntityId>) -> (r: (ShadowMapDecision, Ghost<Seq<u32>>))
        requires
            old(self).wf(),
            old(self).servicing() == ServicingLightType::SpotLight(current_light),
        ensures
            old(self).spot_step(*final(self), nearby@, visible@, r.1@, r.0),
            final(self).wf(),
            final(self).capacity() == old(self).capacity(),
    {
        let ghost pre = *self;
        let mut current_light = current_light;
        let mut ks: Ghost<Seq<u32>> = Ghost(Seq::empty());
        if current_light.is_none() {
            let (found, order) = self.find_next_light_to_have_shadow_map(FindLightType::Spot, nearby, visible);
            current_light = found;
            ks = order;
            let ghost searched = *self;
            self.current_light_type = ServicingLightType::SpotLight(current_light);
            proof {
                assert(forall|u: FindLightType| #[trigger] self.lights(u) == searched.lights(u));
                ShadowFlow::lemma_same_layers(searched, *self);
            }
            if let Some(entity_id) = current_light {
                let ghost searched = *self;
                self.insert_light(FindLightType::Spot, entity_id.get_entity_instance(), no_slots());
                proof {
                    assert forall|t: FindLightType, k: u32, s: int, x: usize| #[trigger]
                        self.holds(t, k, s, x) implies searched.holds(t, k, s, x) by {
                        if t != FindLightType::Spot {
                            assert(self.lights(t) == searched.lights(t));
                        }
                    }
                    ShadowFlow::lemma_fewer_holdings_keep_sound(searched, *self);
                    assert forall|t: FindLightType, k: u32| #[trigger] self.lights(t).contains_key(k) implies self.lights(t)[k].len() == 6 by {
                        if t != FindLightType::Spot {
                            assert(self.lights(t) == searched.lights(t));
                        }
                    }
                }
            }
        }
        assert(self.lights(FindLightType::Spot) == pre.entered(FindLightType::Spot, nearby@, visible@, ks@));
        assert(self.servicing() == ServicingLightType::SpotLight(current_light));
        assert(current_light matches Some(e) ==> self.lights(FindLightType::Spot).contains_key(e.instance()));
        match current_light {
            Some(entity_id) => {
                let key = entity_id.get_entity_instance();
                assert(self.lights(FindLightType::Spot).contains_key(key));
                assert(light_shadow_map_contents(self.spotlights).contains_key(key));
                let mut indexes = self.spotlights.get(key).unwrap();
                // Check if all six of the shadow maps needed for spot lights have been created
                match first_empty_slot(&indexes) {
                    Some(i) => {
                        let ghost mid = *self;
                        let free_index = match self.free_indexes.pop_front() {
                            Some(f) => f,
                            None => {
                                proof {
                                    assert(forall|u: FindLightType| #[trigger] self.lights(u) == mid.lights(u));
                                    ShadowFlow::lemma_same_layers(mid, *self);
                                }
                                return (ShadowMapDecision::NoNewMapRequired, ks);
                            },
                        };
                        indexes.indexes[i] = Some(free_index);
                        self.spotlights.insert(key, indexes);
                        self.upload_indexes.push_back(free_index as u32);
                        proof {
                            assert(self.lights(FindLightType::Spot) =~= mid.lights(FindLightType::Spot).insert(
                                key,
                                mid.lights(FindLightType::Spot)[key].update(i as int, Some(mid.free()[0])),
                            ));
                            assert(forall|u: FindLightType| u != FindLightType::Spot ==> #[trigger] self.lights(u) == mid.lights(u));
                            ShadowFlow::lemma_assign_keeps_sound(mid, *self, FindLightType::Spot, key, i as int);
                        }
                        (
                            ShadowMapDecision::NewMapRequired(
                                ShadowMapRequest {
                                    light: entity_id,
                                    light_type: FindLightType::Spot,
                                    texture_index: free_index,
                                    face: Some(i),
                                },
                            ),
                            ks,
                        )
                    },
                    None => {
                        let ghost mid = *self;
                        self.current_light_type = ServicingLightType::DirectionalLight(None);
                        proof {
                            assert(forall|u: FindLightType| #[trigger] self.lights(u) == mid.lights(u));
                            ShadowFlow::lemma_same_layers(mid, *self);
                        }
                        (ShadowMapDecision::NoNewMapRequired, ks)
                    },
                }
            },
            None => {
                let ghost mid = *self;
                self.current_light_type = ServicingLightType::DirectionalLight(None);
                proof {
                    assert(forall|u: FindLightType| #[trigger] self.lights(u) == mid.lights(u));
                    ShadowFlow::lemma_same_layers(mid, *self);
                }
                (ShadowMapDecision::NoNewMapRequired, ks)
            },
        }
    }

    /// Decides whether a shadow map needs to be created this frame, for which light and into
    /// which layer. The flow services directional, point and spot lights in turn, creating at
    /// most one new map per call.
    pub fn calculate_shadow_maps(&mut self, candidates: &LightCandidates) -> (r: ShadowMapDecision)
        requires
            old(self).wf(),
            old(self).can_service(),
        ensures
            final(self).wf(),
            final(self).capacity() == old(self).capacity(),
            exists|ks: Seq<u32>| #[trigger] old(self).steps_to(*final(self), candidates, ks, r),
            r matches ShadowMapDecision::NewMapRequired(q) ==> q.texture_index < old(self).capacity() && forall|
                t: FindLightType,
                k: u32,
                s: int,
            | !old(self).holds(t, k, s, q.texture_index),
    {
        let ghost pre = *self;
        proof {
            if pre.free().len() > 0 {
                assert(pre.free().contains(pre.free()[0]));
            }
        }
        match self.current_light_type {
            ServicingLightType::DirectionalLight(current_light) => {
                let r = self.handle_direction_light(current_light, &candidates.directional_lights);
                assert(pre.steps_to(*self, candidates, Seq::empty(), r));
                r
            },
            ServicingLightType::PointLight(current_light) => {
                let (r, ks) = self.handle_point_light(
                    current_light,
                    &candidates.nearby_point_lights,
                    &candidates.visible_point_lights,
                );
                assert(pre.steps_to(*self, candidates, ks@, r));
                r
            },
            ServicingLightType::SpotLight(current_light) => {
                let (r, ks) = self.handle_spot_light(
                    current_light,
                    &candidates.nearby_spot_lights,
                    &candidates.visible_spot_lights,
                );
                assert(pre.steps_to(*self, candidates, ks@, r));
                r
            },
        }
    }

    /// Determines the light of type `t` that should have a shadow map created for it. Lights
    /// that are no longer nearby give back their layers first. Nothing changes when no layer
    /// is free.
    fn find_next_light_to_have_shadow_map(&mut self, t: FindLightType, nearby: &Vec<EntityId>, visible: &Vec<EntityId>) -> (r: (Option<EntityId>, Ghost<Seq<u32>>))
        requires
            old(self).layers_sound(),
            old(self).slots_sized(),
        ensures
            ({
                let (m1, f1, found) = search(old(self).lights(t), old(self).free(), nearby@, visible@, r.1@);
                &&& old(self).free().len() > 0 ==> is_release_order(old(self).lights(t), nearby@, r.1@)
                &&& final(self).lights(t) == m1
                &&& final(self).free() == f1
                &&& r.0 == found
            }),
            forall|u: FindLightType| u != t ==> #[trigger] final(self).lights(u) == old(self).lights(u),
            final(self).servicing() == old(self).servicing(),
            final(self).capacity() == old(self).capacity(),
            final(self).uploads() == old(self).uploads(),
            final(self).layers_sound(),
            final(self).slots_sized(),
    {
        // Quick check that could save a lot of work
        if self.free_indexes.len() == 0 {
            return (None, Ghost(Seq::empty()));
        }
        let ghost m0 = self.lights(t);
        let ghost f0 = self.free();
        let ghost pre = *self;

        // Remove lights that are no longer nearby
        let keys = self.light_map(t).keys();
        assert(forall|k: u32| keys@.contains(k) <==> m0.contains_key(k)) by {
            assert forall|k: u32| keys@.contains(k) <==> m0.contains_key(k) by {
                assert(keys@.to_set().contains(k) <==> keys@.contains(k));
            }
        }
        let mut non_nearby: Vec<u32> = Vec::new();
        let mut i: usize = 0;
        while i < keys.len()
            invariant
                i <= keys.len(),
                keys@.no_duplicates(),
                forall|k: u32| keys@.contains(k) <==> m0.contains_key(k),
                non_nearby@.no_duplicates(),
                forall|k: u32| #[trigger] non_nearby@.contains(k) <==> (keys@.take(i as int).contains(k)
                    && !instances(nearby@).contains(k)),
            decreases keys.len() - i,
        {
            let k = keys[i];
            let ghost cur = keys@.take(i as int);
            let ghost next = keys@.take(i as int + 1);
            assert(next =~= cur.push(k));
            assert forall|q: u32| #[trigger] next.contains(q) <==> (cur.contains(q) || q == k) by {
                if cur.contains(q) {
                    let a = choose|a: int| 0 <= a < cur.len() && cur[a] == q;
                    assert(next[a] == q);
                }
                if q == k {
                    assert(next[cur.len() as int] == q);
                }
                if next.contains(q) {
                    let a = choose|a: int| 0 <= a < next.len() && next[a] == q;
                    if a < cur.len() {
                        assert(cur[a] == q);
                    }
                }
            }
            if !lists_instance(nearby, k) {
                assert(!non_nearby@.contains(k)) by {
                    if non_nearby@.contains(k) {
                        let a = choose|a: int| 0 <= a < i && keys@.take(i as int)[a] == k;
                        assert(keys@[a] == keys@[i as int]);
                    }
                }
                let ghost before = non_nearby@;
                non_nearby.push(k);
                assert forall|q: u32| #[trigger] non_nearby@.contains(q) <==> (before.contains(q) || q == k) by {
                    if before.contains(q) {
                        let a = choose|a: int| 0 <= a < before.len() && before[a] == q;
                        assert(non_nearby@[a] == q);
                    }
                    if q == k {
                        assert(non_nearby@[before.len() as int] == q);
                    }
                    if non_nearby@.contains(q) {
                        let a = choose|a: int| 0 <= a < non_nearby@.len() && non_nearby@[a] == q;
                        if a < before.len() {
                            assert(before[a] == q);
                        }
                    }
                }
                assert(non_nearby@.no_duplicates()) by {
                    assert forall|a: int, b: int| 0 <= a < b < non_nearby@.len() implies non_nearby@[a] != non_nearby@[b] by {
                        if b == before.len() {
                            assert(before.contains(before[a]));
                        }
                    }
                }
            }
            i = i + 1;
        }
        assert(keys@.take(keys.len() as int) =~= keys@);
        let ghost ks = non_nearby@;
        assert(is_release_order(m0, nearby@, ks));

        let mut j: usize = 0;
        while j < non_nearby.len()
            invariant
                j <= non_nearby.len(),
                ks == non_nearby@,
                is_release_order(m0, nearby@, ks),
                m0 == pre.lights(t),
                forall|k: u32| #[trigger] self.lights(t).contains_key(k) <==> (m0.contains_key(k) && !ks.take(j as int).contains(k)),
                forall|k: u32| #[trigger] self.lights(t).contains_key(k) ==> self.lights(t)[k] == m0[k],
                forall|u: FindLightType| u != t ==> #[trigger] self.lights(u) == pre.lights(u),
                self.free() == f0 + released(m0, ks.take(j as int)),
                self.servicing() == pre.servicing(),
                self.capacity() == pre.capacity(),
                self.uploads() == pre.uploads(),
                self.layers_sound(),
                self.slots_sized(),
            decreases non_nearby.len() - j,
        {
            let k = non_nearby[j];
            assert(ks.contains(k));
            assert(!ks.take(j as int).contains(k)) by {
                if ks.take(j as int).contains(k) {
                    let a = choose|a: int| 0 <= a < j && ks.take(j as int)[a] == k;
                    assert(ks[a] == ks[j as int]);
                }
            }
            let ghost before = *self;
            assert(m0.contains_key(k));
            assert(before.lights(t).contains_key(k));
            assert(before.lights(t)[k] == m0[k]);
            self.release_light(t, k);
            assert(ks.take(j as int + 1).drop_last() =~= ks.take(j as int));
            assert(ks.take(j as int + 1).last() == k);
            assert(self.free() =~= f0 + released(m0, ks.take(j as int + 1)));
            assert forall|q: u32| #[trigger] self.lights(t).contains_key(q) <==> (m0.contains_key(q) && !ks.take(j as int + 1).contains(q)) by {
                assert(ks.take(j as int + 1) =~= ks.take(j as int).push(k));
            }
            assert forall|q: u32| #[trigger] self.lights(t).contains_key(q) implies self.lights(t)[q] == m0[q] by {
                assert(before.lights(t).contains_key(q));
            }
            j = j + 1;
        }
        assert(ks.take(ks.len() as int) =~= ks);
        assert(self.lights(t) =~= kept_lights(m0, nearby@));
        assert(self.free() == f0 + released(m0, ks));
        let ghost mid = *self;

        // Find if a visible light is currently being rendered; creating a shadow for it is a priority
        let mut priority_light: Option<EntityId> = None;
        let mut v: usize = 0;
        while v < visible.len()
            invariant
                v <= visible.len(),
                priority_light == last_unmapped(visible@.take(v as int), self.lights(t).dom()),
                *self == mid,
            decreases visible.len() - v,
        {
            let x = visible[v];
            assert(visible@.take(v as int + 1).drop_last() =~= visible@.take(v as int));
            if !self.light_map(t).contains_key(x.get_entity_instance()) {
                priority_light = Some(x);
            }
            v = v + 1;
        }
        assert(visible@.take(visible.len() as int) =~= visible@);
        if priority_light.is_some() {
            return (priority_light, Ghost(ks));
        }

        // If all visible light sources have shadow maps already, then choose a nearby offscreen
        // light source without one. There is a chance it will be needed soon (such as if the
        // camera rotates)
        assert(nearby@.skip(0) =~= nearby@);
        let mut n: usize = 0;
        while n < nearby.len()
            invariant
                n <= nearby.len(),
                *self == mid,
                pre == *old(self),
                mid.lights(t) == kept_lights(m0, nearby@),
                m0 == pre.lights(t),
                f0 == pre.free(),
                f0.len() > 0,
                mid.free() == f0 + released(m0, ks),
                is_release_order(m0, nearby@, ks),
                forall|u: FindLightType| u != t ==> #[trigger] mid.lights(u) == pre.lights(u),
                mid.servicing() == pre.servicing(),
                mid.capacity() == pre.capacity(),
                mid.uploads() == pre.uploads(),
                mid.layers_sound(),
                mid.slots_sized(),
                last_unmapped(visible@, mid.lights(t).dom()) is None,
                first_not_visible(nearby@, visible@, mid.lights(t).dom()) == first_not_visible(
                    nearby@.skip(n as int),
                    visible@,
                    mid.lights(t).dom(),
                ),
            decreases nearby.len() - n,
        {
            let x = nearby[n];
            assert(nearby@.skip(n as int)[0] == x);
            assert(nearby@.skip(n as int).drop_first() =~= nearby@.skip(n as int + 1));
            if !lists_entity(visible, x) && !self.light_map(t).contains_key(x.get_entity_instance()) {
                return (Some(x), Ghost(ks));
            }
            n = n + 1;
        }
        // All required light sources have a shadow map
        (None, Ghost(ks))
    }

    fn insert_light(&mut self, t: FindLightType, key: u32, value: ShadowMapIndex)
        ensures
            final(self).lights(t) == old(self).lights(t).insert(key, value.indexes@),
            forall|u: FindLightType| u != t ==> #[trigger] final(self).lights(u) == old(self).lights(u),
            final(self).servicing() == old(self).servicing(),
            final(self).free() == old(self).free(),
            final(self).capacity() == old(self).capacity(),
            final(self).uploads() == old(self).uploads(),
    {
        match t {
            FindLightType::Directional => { self.directional_lights.insert(key, value); },
            FindLightType::Point => { self.point_lights.insert(key, value); },
            FindLightType::Spot => { self.spotlights.insert(key, value); },
        }
        assert(self.lights(t) =~= old(self).lights(t).insert(key, value.indexes@));
    }

    /// Drops the light `key` of type `t`; the layers it held go to the back of the free
    /// layers, in slot order.
    fn release_light(&mut self, t: FindLightType, key: u32)
        requires
            old(self).layers_sound(),
            old(self).slots_sized(),
            old(self).lights(t).contains_key(key),
        ensures
            final(self).lights(t) == old(self).lights(t).remove(key),
            forall|u: FindLightType| u != t ==> #[trigger] final(self).lights(u) == old(self).lights(u),
            final(self).free() == old(self).free() + held(old(self).lights(t)[key]),
            final(self).servicing() == old(self).servicing(),
            final(self).capacity() == old(self).capacity(),
            final(self).uploads() == old(self).uploads(),
            final(self).layers_sound(),
            final(self).slots_sized(),
    {
        let ghost pre = *self;
        let ghost slots_view = old(self).lights(t)[key];
        let slots = self.remove_light(t, key).unwrap();
        assert(self.free() =~= pre.free() + held_prefix(slots_view, 0));
        assert forall|u: FindLightType, k: u32, j: int, x: usize| #[trigger]
            self.holds(u, k, j, x) implies pre.holds(u, k, j, x) && !self.free().contains(x) by {
            if u != t {
                assert(self.lights(u) == pre.lights(u));
            }
            assert(pre.holds(u, k, j, x));
        }
        assert forall|j: int, x: usize| 0 <= j < 6 && slots_view[j] == Some(x) implies !self.free().contains(x) by {
            assert(pre.holds(t, key, j, x));
        }
        let mut s: usize = 0;
        while s < 6
            invariant
                s <= 6,
                slots.indexes@ == slots_view,
                slots_view.len() == 6,
                self.lights(t) == pre.lights(t).remove(key),
                forall|u: FindLightType| u != t ==> #[trigger] self.lights(u) == pre.lights(u),
                self.free() == pre.free() + held_prefix(slots_view, s as nat),
                self.servicing() == pre.servicing(),
                self.capacity() == pre.capacity(),
                self.uploads() == pre.uploads(),
                pre.layers_sound(),
                pre.slots_sized(),
                pre.lights(t).contains_key(key),
                pre.lights(t)[key] == slots_view,
                self.free().no_duplicates(),
                forall|i: int| 0 <= i < self.free().len() ==> self.free()[i] < self.capacity(),
                forall|u: FindLightType, k: u32, j: int, x: usize| #[trigger]
                    self.holds(u, k, j, x) ==> pre.holds(u, k, j, x) && !self.free().contains(x),
                forall|j: int, x: usize| s <= j < 6 && slots_view[j] == Some(x) ==> !self.free().contains(x),
            decreases 6 - s,
        {
            let ghost head = *self;
            if let Some(x) = slots.indexes[s] {
                assert(pre.holds(t, key, s as int, x));
                assert(!head.free().contains(x));
                self.free_indexes.push_back(x);
                assert(self.free() == head.free().push(x));
                assert(self.free().no_duplicates()) by {
                    assert forall|a: int, b: int| 0 <= a < b < self.free().len() implies self.free()[a] != self.free()[b] by {
                        if b == head.free().len() {
                            assert(head.free().contains(head.free()[a]));
                        }
                    }
                }
                assert(self.free() =~= pre.free() + held_prefix(slots_view, (s + 1) as nat));
                assert forall|j: int, y: usize| s + 1 <= j < 6 && slots_view[j] == Some(y) implies !self.free().contains(y) by {
                    assert(pre.holds(t, key, j, y));
                    if y == x {
                        assert(pre.holds(t, key, s as int, x));
                    }
                    assert(!head.free().contains(y));
                }
                assert forall|u: FindLightType, k: u32, j: int, z: usize| #[trigger]
                    self.holds(u, k, j, z) implies pre.holds(u, k, j, z) && !self.free().contains(z) by {
                    assert(self.lights(u) == head.lights(u));
                    assert(head.holds(u, k, j, z));
                    if z == x {
                        assert(pre.holds(t, key, s as int, x));
                        assert(u == t && k == key);
                        assert(!self.lights(t).contains_key(key));
                    }
                    assert(!head.free().contains(z));
                }
            } else {
                assert(self.free() =~= pre.free() + held_prefix(slots_view, (s + 1) as nat));
            }
            assert forall|u: FindLightType| u != t implies #[trigger] self.lights(u) == pre.lights(u) by {
                assert(self.lights(u) == head.lights(u));
            }
            s = s + 1;
        }
        assert(self.free() == pre.free() + held(slots_view));
        assert forall|u: FindLightType, k: u32| #[trigger] self.lights(u).contains_key(k) implies self.lights(u)[k].len() == 6 by {
            assert(pre.lights(u).contains_key(k));
        }
    }

    fn remove_light(&mut self, t: FindLightType, key: u32) -> (r: Option<ShadowMapIndex>)
        ensures
            final(self).lights(t) == old(self).lights(t).remove(key),
            forall|u: FindLightType| u != t ==> #[trigger] final(self).lights(u) == old(self).lights(u),
            r matches Some(v) ==> old(self).lights(t).contains_key(key) && v.indexes@ == old(self).lights(t)[key],
            r is None ==> !old(self).lights(t).contains_key(key),
            final(self).servicing() == old(self).servicing(),
            final(self).free() == old(self).free(),
            final(self).capacity() == old(self).capacity(),
            final(self).uploads() == old(self).uploads(),
    {
        let r = match t {
            FindLightType::Directional => self.directional_lights.remove(key),
            FindLightType::Point => self.point_lights.remove(key),
            FindLightType::Spot => self.spotlights.remove(key),
        };
        assert(self.lights(t) =~= old(self).lights(t).remove(key));
        r
    }
}

} // verus!
