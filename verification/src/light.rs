//! The live scene lights of a product: each light handle owns a logical
//! light id that no other live light owns, with the light's descriptor
//! (kind, color, intensity and placement, which are floating point and
//! validated by the renderer model) carried as an opaque value.

use crate::error::CsharpEngineServicesError;
use crate::table::HandleTable;
use vstd::prelude::*;
use vstd::string::StringExecFns;

verus! {

/// A live light: its logical id and its descriptor.
#[derive(Debug)]
pub struct LightEntry<D> {
    pub light_id: u64,
    pub descriptor: D,
}

/// The live lights by handle.
pub struct LightRegistry<D> {
    lights: HandleTable<LightEntry<D>>,
    next_light: u64,
}

/// Whether some live light other than `except` owns logical id `light_id`.
pub open spec fn light_id_owned<D>(
    lights: Map<u64, LightEntry<D>>,
    light_id: u64,
    except: Option<u64>,
) -> bool {
    exists|h: u64| #[trigger]
        lights.dom().contains(h) && lights[h].light_id == light_id && except != Some(h)
}

impl<D> LightRegistry<D> {
    /// The live lights.
    pub closed spec fn lights_view(&self) -> Map<u64, LightEntry<D>> {
        self.lights@
    }

    /// The handle the next light gets.
    pub closed spec fn next_light_view(&self) -> u64 {
        self.next_light
    }

    /// Handles are never reused and no two live lights own one logical id.
    pub closed spec fn wf(&self) -> bool {
        &&& self.lights.wf()
        &&& self.lights.all_below(self.next_light)
        &&& 1 <= self.next_light
        &&& forall|a: u64, b: u64|
            #![trigger self.lights@[a], self.lights@[b]]
            self.lights@.dom().contains(a) && self.lights@.dom().contains(b) && a != b
                ==> self.lights@[a].light_id != self.lights@[b].light_id
    }

    /// No lights; handles start at one.
    pub fn new() -> (r: Self)
        ensures
            r.wf(),
            r.lights_view() == Map::<u64, LightEntry<D>>::empty(),
            r.next_light_view() == 1,
    {
        LightRegistry { lights: HandleTable::new(), next_light: 1 }
    }

    fn owner_of(&self, light_id: u64, except: Option<u64>) -> (b: bool)
        requires
            self.wf(),
        ensures
            b == light_id_owned(self.lights_view(), light_id, except),
    {
        let n = self.lights.len();
        let mut i: usize = 0;
        while i < n
            invariant
                self.lights.wf(),
                n == self.lights.keys_seq().len(),
                i <= n,
                forall|j: int|
                    0 <= j < i ==> (#[trigger] self.lights.vals_seq()[j]).light_id != light_id
                        || except == Some(self.lights.keys_seq()[j]),
            decreases n - i,
        {
            let h = self.lights.key_at(i);
            if self.lights.value_at(i).light_id == light_id && except != Some(h) {
                proof {
                    self.lights.lemma_entry(i as int);
                    assert(self.lights_view().dom().contains(h));
                }
                return true;
            }
            i = i + 1;
        }
        proof {
            assert forall|h: u64| #[trigger] self.lights_view().dom().contains(h) implies !(
            self.lights_view()[h].light_id == light_id && except != Some(h)) by {
                let j = self.lights.lemma_key(h);
                assert(self.lights.vals_seq()[j].light_id != light_id || except == Some(
                    self.lights.keys_seq()[j],
                ));
            }
        }
        false
    }

    /// Adds a light that owns logical id `light_id`, under the next handle.
    pub fn create(&mut self, light_id: u64, descriptor: D) -> (r: Result<
        u64,
        CsharpEngineServicesError,
    >)
        requires
            old(self).wf(),
        ensures
            final(self).wf(),
            r is Err ==> final(self).lights_view() == old(self).lights_view()
                && final(self).next_light_view() == old(self).next_light_view(),
            r is Ok <==> !light_id_owned(old(self).lights_view(), light_id, None)
                && old(self).next_light_view() < u64::MAX,
            r matches Err(e) ==> e.code_view() == (if light_id_owned(
                old(self).lights_view(),
                light_id,
                None,
            ) {
                "CSHARP_LIGHT_LOGICAL_ID"@
            } else {
                "CSHARP_LIGHT_HANDLE"@
            }),
            r matches Ok(h) ==> {
                &&& h == old(self).next_light_view()
                &&& !old(self).lights_view().dom().contains(h)
                &&& final(self).lights_view() == old(self).lights_view().insert(
                    h,
                    LightEntry { light_id, descriptor },
                )
                &&& final(self).next_light_view() == h + 1
            },
    {
        if self.owner_of(light_id, None) {
            return Err(
                CsharpEngineServicesError::new(
                    "CSHARP_LIGHT_LOGICAL_ID",
                    String::from_str("logical light id is already owned by a live light"),
                ),
            );
        }
        let h = self.next_light;
        if h == u64::MAX {
            return Err(
                CsharpEngineServicesError::new(
                    "CSHARP_LIGHT_HANDLE",
                    String::from_str("light handle overflow"),
                ),
            );
        }
        let ghost before = *self;
        self.next_light = h + 1;
        self.lights.insert_new(h, LightEntry { light_id, descriptor });
        proof {
            assert forall|a: u64, b: u64|
                #![trigger self.lights@[a], self.lights@[b]]
                self.lights@.dom().contains(a) && self.lights@.dom().contains(b) && a != b
                    implies self.lights@[a].light_id != self.lights@[b].light_id by {
                if a != h && b != h {
                    assert(before.lights@[a].light_id != before.lights@[b].light_id);
                } else if a == h {
                    assert(before.lights_view().dom().contains(b));
                } else {
                    assert(before.lights_view().dom().contains(a));
                }
            }
        }
        Ok(h)
    }

    /// Replaces a live light's logical id and descriptor; the logical id
    /// must not be owned by another live light.
    pub fn update(&mut self, light: u64, light_id: u64, descriptor: D) -> (r: Result<
        (),
        CsharpEngineServicesError,
    >)
        requires
            old(self).wf(),
        ensures
            final(self).wf(),
            final(self).next_light_view() == old(self).next_light_view(),
            r is Err ==> final(self).lights_view() == old(self).lights_view(),
            r is Ok <==> old(self).lights_view().dom().contains(light) && !light_id_owned(
                old(self).lights_view(),
                light_id,
                Some(light),
            ),
            r matches Err(e) ==> e.code_view() == (if !old(self).lights_view().dom().contains(
                light,
            ) {
                "CSHARP_LIGHT_HANDLE"@
            } else {
                "CSHARP_LIGHT_LOGICAL_ID"@
            }),
            r is Ok ==> final(self).lights_view() == old(self).lights_view().insert(
                light,
                LightEntry { light_id, descriptor },
            ),
    {
        if !self.lights.contains(light) {
            return Err(
                CsharpEngineServicesError::new(
                    "CSHARP_LIGHT_HANDLE",
                    String::from_str("light handle is not live"),
                ),
            );
        }
        if self.owner_of(light_id, Some(light)) {
            return Err(
                CsharpEngineServicesError::new(
                    "CSHARP_LIGHT_LOGICAL_ID",
                    String::from_str("logical light id is already owned by a different live light"),
                ),
            );
        }
        let ghost before = *self;
        self.lights.insert(light, LightEntry { light_id, descriptor });
        proof {
            assert(self.lights@.dom() =~= before.lights@.dom());
            assert forall|a: u64, b: u64|
                #![trigger self.lights@[a], self.lights@[b]]
                self.lights@.dom().contains(a) && self.lights@.dom().contains(b) && a != b
                    implies self.lights@[a].light_id != self.lights@[b].light_id by {
                if a != light && b != light {
                    assert(before.lights@[a].light_id != before.lights@[b].light_id);
                } else if a == light {
                    assert(before.lights_view().dom().contains(b));
                } else {
                    assert(before.lights_view().dom().contains(a));
                }
            }
        }
        Ok(())
    }

    /// Disposes a light; one that is no longer live is ignored (its handle
    /// is a tombstone of a replacement). Says whether a light was removed.
    pub fn destroy(&mut self, light: u64) -> (removed: bool)
        requires
            old(self).wf(),
        ensures
            final(self).wf(),
            removed == old(self).lights_view().dom().contains(light),
            final(self).lights_view() == old(self).lights_view().remove(light),
            final(self).next_light_view() == old(self).next_light_view(),
    {
        let ghost before = *self;
        let r = self.lights.remove(light);
        proof {
            assert forall|a: u64, b: u64|
                #![trigger self.lights@[a], self.lights@[b]]
                self.lights@.dom().contains(a) && self.lights@.dom().contains(b) && a != b
                    implies self.lights@[a].light_id != self.lights@[b].light_id by {
                assert(before.lights@[a].light_id != before.lights@[b].light_id);
            }
        }
        r.is_some()
    }

    /// A live light.
    pub fn read(&self, light: u64) -> (r: Result<&LightEntry<D>, CsharpEngineServicesError>)
        requires
            self.wf(),
        ensures
            r is Ok <==> self.lights_view().dom().contains(light),
            r matches Ok(e) ==> *e == self.lights_view()[light],
            r matches Err(e) ==> e.code_view() == "CSHARP_LIGHT_HANDLE"@,
    {
        match self.lights.get(light) {
            Some(e) => Ok(e),
            None => Err(
                CsharpEngineServicesError::new(
                    "CSHARP_LIGHT_HANDLE",
                    String::from_str("light handle is not live"),
                ),
            ),
        }
    }

    /// The number of live lights.
    pub fn len(&self) -> (n: usize)
        requires
            self.wf(),
        ensures
            n == self.lights_view().dom().len(),
    {
        self.lights.len()
    }

    /// The live lights in handle order, each with its handle: what the
    /// renderer projects.
    pub fn light_at(&self, i: usize) -> (r: (u64, &LightEntry<D>))
        requires
            self.wf(),
            i < self.lights_view().dom().len(),
        ensures
            self.lights_view().dom().contains(r.0),
            *r.1 == self.lights_view()[r.0],
    {
        proof {
            self.lights.lemma_len();
            self.lights.lemma_entry(i as int);
        }
        (self.lights.key_at(i), self.lights.value_at(i))
    }

    /// No two live lights own the same logical id.
    pub proof fn lemma_light_ids_unique(&self)
        requires
            self.wf(),
        ensures
            forall|a: u64, b: u64|
                #![trigger self.lights_view()[a], self.lights_view()[b]]
                self.lights_view().dom().contains(a) && self.lights_view().dom().contains(b) && a
                    != b ==> self.lights_view()[a].light_id != self.lights_view()[b].light_id,
    {
    }
}

} // verus!
