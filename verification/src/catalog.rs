//! The resources collected for the README, filed by resource type and
//! status: one list per (type, status) that received a resource.

use vstd::prelude::*;
use crate::resource::{GarminResource, ResourceStatus, ResourceType, status_of};
use crate::sorting::{is_stable_sort_of, sorted_resources, sorted_resources_by_date};

verus! {

/// The key of one list: a resource type and a status.
pub type ListKey = (ResourceType, ResourceStatus);

/// The position of a resource type among the nine types.
pub open spec fn kind_index(t: ResourceType) -> int {
    match t {
        ResourceType::WatchFace => 0,
        ResourceType::DataField => 1,
        ResourceType::Widget => 2,
        ResourceType::DeviceApp => 3,
        ResourceType::AudioContentProvider => 4,
        ResourceType::Barrel => 5,
        ResourceType::Tool => 6,
        ResourceType::CompanionApp => 7,
        ResourceType::Miscellaneous => 8,
    }
}

/// Where the list for `k` is kept.
pub open spec fn slot_index(k: ListKey) -> int {
    2 * kind_index(k.0) + if k.1 == ResourceStatus::Inactive {
        1int
    } else {
        0int
    }
}

/// Different keys are kept apart.
pub proof fn lemma_slot_index_injective(a: ListKey, b: ListKey)
    ensures
        0 <= slot_index(a) < 18,
        slot_index(a) == slot_index(b) ==> a == b,
{
}

/// The lists of resources, one per key that received a resource.
pub struct GarminResources {
    slots: Vec<Option<Vec<GarminResource>>>,
}

impl View for GarminResources {
    type V = Map<ListKey, Seq<GarminResource>>;

    closed spec fn view(&self) -> Map<ListKey, Seq<GarminResource>> {
        Map::new(
            |k: ListKey| self.slots@[slot_index(k)] is Some,
            |k: ListKey| self.slots@[slot_index(k)]->0@,
        )
    }
}

/// The list under `k`, or an empty one.
pub open spec fn list_or_empty(m: Map<ListKey, Seq<GarminResource>>, k: ListKey) -> Seq<GarminResource> {
    if m.contains_key(k) {
        m[k]
    } else {
        Seq::empty()
    }
}

/// The index of a list's slot.
fn slot_of(t: ResourceType, s: ResourceStatus) -> (i: usize)
    ensures
        i as int == slot_index((t, s)),
        i < 18,
{
    let base: usize = match t {
        ResourceType::WatchFace => 0,
        ResourceType::DataField => 2,
        ResourceType::Widget => 4,
        ResourceType::DeviceApp => 6,
        ResourceType::AudioContentProvider => 8,
        ResourceType::Barrel => 10,
        ResourceType::Tool => 12,
        ResourceType::CompanionApp => 14,
        ResourceType::Miscellaneous => 16,
    };
    match s {
        ResourceStatus::Active => base,
        ResourceStatus::Inactive => base + 1,
    }
}

/// The key whose list is kept at slot `i`.
pub open spec fn key_at(i: int) -> ListKey {
    let t = if i / 2 == 0 {
        ResourceType::WatchFace
    } else if i / 2 == 1 {
        ResourceType::DataField
    } else if i / 2 == 2 {
        ResourceType::Widget
    } else if i / 2 == 3 {
        ResourceType::DeviceApp
    } else if i / 2 == 4 {
        ResourceType::AudioContentProvider
    } else if i / 2 == 5 {
        ResourceType::Barrel
    } else if i / 2 == 6 {
        ResourceType::Tool
    } else if i / 2 == 7 {
        ResourceType::CompanionApp
    } else {
        ResourceType::Miscellaneous
    };
    (t, if i % 2 == 1 { ResourceStatus::Inactive } else { ResourceStatus::Active })
}

impl GarminResources {
    /// The lists are all there.
    pub closed spec fn wf(&self) -> bool {
        self.slots@.len() == 18
    }

    /// No lists yet.
    pub fn new() -> (r: GarminResources)
        ensures
            r.wf(),
            r@ == Map::<ListKey, Seq<GarminResource>>::empty(),
    {
        let mut slots: Vec<Option<Vec<GarminResource>>> = Vec::new();
        let mut i: usize = 0;
        while i < 18
            invariant
                i <= 18,
                slots@.len() == i,
                forall|j: int| 0 <= j < i ==> slots@[j] is None,
            decreases 18 - i,
        {
            slots.push(None);
            i = i + 1;
        }
        let r = GarminResources { slots };
        assert(r@ =~= Map::<ListKey, Seq<GarminResource>>::empty()) by {
            assert forall|k: ListKey| !r@.contains_key(k) by {
                lemma_slot_index_injective(k, k);
            }
        }
        r
    }

    /// Files `resource` under its type and the status that its type and age
    /// give it, after the resources already there.
    pub fn add(&mut self, resource_type: ResourceType, is_old: bool, resource: GarminResource)
        requires
            old(self).wf(),
        ensures
            final(self).wf(),
            final(self)@ == old(self)@.insert(
                (resource_type, status_of(resource_type, is_old)),
                list_or_empty(old(self)@, (resource_type, status_of(resource_type, is_old))).push(resource),
            ),
    {
        let key = (resource_type, resource_type.status(is_old));
        let ghost before = self@;
        let i = slot_of(key.0, key.1);
        let mut slots: Vec<Option<Vec<GarminResource>>> = Vec::new();
        std::mem::swap(&mut slots, &mut self.slots);
        let ghost old_slots = slots@;
        let current = slots.remove(i);
        let mut list = match current {
            Some(l) => l,
            None => Vec::new(),
        };
        list.push(resource);
        slots.insert(i, Some(list));
        std::mem::swap(&mut slots, &mut self.slots);
        proof {
            assert forall|j: int| 0 <= j < 18 && j != i implies self.slots@[j] == old_slots[j] by {}
            let k0 = key;
            assert(self@ =~= before.insert(k0, list_or_empty(before, k0).push(resource))) by {
                assert forall|k: ListKey| #[trigger] self@.contains_key(k) == before.insert(
                    k0,
                    list_or_empty(before, k0).push(resource),
                ).contains_key(k) by {
                    lemma_slot_index_injective(k, k0);
                }
                assert forall|k: ListKey| self@.contains_key(k) implies #[trigger] self@[k] == before.insert(
                    k0,
                    list_or_empty(before, k0).push(resource),
                )[k] by {
                    lemma_slot_index_injective(k, k0);
                }
            }
        }
    }

    /// Files the outcome of looking a resource up: the resource, if there is
    /// one, under its type and the status that its age gives it.
    pub fn file(&mut self, resource_type: ResourceType, outcome: (Option<GarminResource>, bool))
        requires
            old(self).wf(),
        ensures
            final(self).wf(),
            outcome.0 is None ==> final(self)@ == old(self)@,
            outcome.0 matches Some(r) ==> final(self)@ == old(self)@.insert(
                (resource_type, status_of(resource_type, outcome.1)),
                list_or_empty(old(self)@, (resource_type, status_of(resource_type, outcome.1))).push(r),
            ),
    {
        let (resource, is_old) = outcome;
        match resource {
            Some(r) => self.add(resource_type, is_old, r),
            None => {},
        }
    }

    /// Sorts every list with `sorted_resources`.
    pub fn sort_lists(&mut self)
        requires
            old(self).wf(),
        ensures
            final(self).wf(),
            final(self)@.dom() == old(self)@.dom(),
            forall|k: ListKey| #[trigger] final(self)@.contains_key(k) ==> is_stable_sort_of(
                final(self)@[k],
                old(self)@[k],
                true,
            ),
    {
        self.sort_each(true);
    }

    /// Sorts every list with `sorted_resources_by_date`, the order of the
    /// flat layout.
    pub fn sort_lists_by_date(&mut self)
        requires
            old(self).wf(),
        ensures
            final(self).wf(),
            final(self)@.dom() == old(self)@.dom(),
            forall|k: ListKey| #[trigger] final(self)@.contains_key(k) ==> is_stable_sort_of(
                final(self)@[k],
                old(self)@[k],
                false,
            ),
    {
        self.sort_each(false);
    }

    fn sort_each(&mut self, ties: bool)
        requires
            old(self).wf(),
        ensures
            final(self).wf(),
            final(self)@.dom() == old(self)@.dom(),
            forall|k: ListKey| #[trigger] final(self)@.contains_key(k) ==> is_stable_sort_of(
                final(self)@[k],
                old(self)@[k],
                ties,
            ),
    {
        let mut slots: Vec<Option<Vec<GarminResource>>> = Vec::new();
        std::mem::swap(&mut slots, &mut self.slots);
        let ghost old_slots = slots@;
        let mut i: usize = 0;
        while i < 18
            invariant
                slots@.len() == 18,
                old_slots.len() == 18,
                i <= 18,
                forall|j: int| i <= j < 18 ==> slots@[j] == old_slots[j],
                forall|j: int| 0 <= j < i ==> (#[trigger] slots@[j] is Some) == (old_slots[j] is Some),
                forall|j: int| 0 <= j < i && #[trigger] slots@[j] is Some ==> is_stable_sort_of(
                    slots@[j]->0@,
                    old_slots[j]->0@,
                    ties,
                ),
            decreases 18 - i,
        {
            let current = slots.remove(i);
            let next = match current {
                Some(mut l) => {
                    if ties {
                        sorted_resources(&mut l);
                    } else {
                        sorted_resources_by_date(&mut l);
                    }
                    Some(l)
                },
                None => None,
            };
            slots.insert(i, next);
            i = i + 1;
        }
        std::mem::swap(&mut slots, &mut self.slots);
        proof {
            assert forall|k: ListKey| #[trigger] self@.contains_key(k) == old_slots[slot_index(k)] is Some by {
                lemma_slot_index_injective(k, k);
            }
            assert forall|k: ListKey| #[trigger] self@.contains_key(k) implies is_stable_sort_of(
                self@[k],
                old_slots[slot_index(k)]->0@,
                ties,
            ) by {
                lemma_slot_index_injective(k, k);
            }
        }
    }

    /// Takes the list under `(resource_type, status)` out, if there is one.
    pub fn take_list(&mut self, resource_type: ResourceType, status: ResourceStatus) -> (r: Option<Vec<GarminResource>>)
        requires
            old(self).wf(),
        ensures
            final(self).wf(),
            final(self)@ == old(self)@.remove((resource_type, status)),
            r is Some <==> old(self)@.contains_key((resource_type, status)),
            r matches Some(l) ==> l@ == old(self)@[(resource_type, status)],
    {
        let i = slot_of(resource_type, status);
        let ghost before = self@;
        let mut slots: Vec<Option<Vec<GarminResource>>> = Vec::new();
        std::mem::swap(&mut slots, &mut self.slots);
        let ghost old_slots = slots@;
        let current = slots.remove(i);
        slots.insert(i, None);
        std::mem::swap(&mut slots, &mut self.slots);
        proof {
            lemma_slot_index_injective((resource_type, status), (resource_type, status));
            assert forall|j: int| 0 <= j < 18 && j != i implies self.slots@[j] == old_slots[j] by {}
            assert(self@ =~= before.remove((resource_type, status))) by {
                assert forall|k: ListKey| #[trigger] self@.contains_key(k) == before.remove((resource_type, status)).contains_key(k) by {
                    lemma_slot_index_injective(k, (resource_type, status));
                }
                assert forall|k: ListKey| self@.contains_key(k) implies #[trigger] self@[k] == before.remove((resource_type, status))[k] by {
                    lemma_slot_index_injective(k, (resource_type, status));
                }
            }
        }
        current
    }
}

} // verus!
