//! The per-scale buffer cache.
//!
//! The cache keeps, for each output scale factor currently in use, the
//! description of one offscreen pixel buffer — its device size and a dirty
//! flag.  The pixels themselves live with the host rasterizer; the cache
//! carries exactly the facts the element's decisions read.  Scales are keyed
//! by their exact integer value and each scale appears at most once.

use vstd::prelude::*;

use crate::geometry::LogicalSize;
use crate::geometry::ScaleFactor;
use crate::geometry::scaled_dim;
use crate::geometry::scaled_dim_spec;

verus! {

/// One cached buffer: its scale key, its device size, and whether its pixels
/// are stale relative to the last computed view.
#[derive(Clone, Copy, Debug, PartialEq, Eq, Structural)]
pub struct BufferSlot {
    pub scale: ScaleFactor,
    pub dev_w: u32,
    pub dev_h: u32,
    pub dirty: bool,
}

/// The slot as it stands right after an allocation for `scale` at logical
/// size `size`: freshly sized and dirty.
pub open spec fn fresh_slot(scale: ScaleFactor, size: LogicalSize) -> BufferSlot {
    BufferSlot {
        scale,
        dev_w: scaled_dim_spec(size.w as nat, scale.units as nat) as u32,
        dev_h: scaled_dim_spec(size.h as nat, scale.units as nat) as u32,
        dirty: true,
    }
}

/// Some slot in `s` is keyed by `units`.
pub open spec fn slots_have(s: Seq<BufferSlot>, units: u32) -> bool {
    exists|i: int| 0 <= i < s.len() && (#[trigger] s[i]).scale.units == units
}

/// `x` is one of the slots of `s`.
pub open spec fn slot_among(s: Seq<BufferSlot>, x: BufferSlot) -> bool {
    exists|j: int| 0 <= j < s.len() && x == #[trigger] s[j]
}

/// Some element of `s` equals `units`.
pub open spec fn units_have(s: Seq<u32>, units: u32) -> bool {
    exists|i: int| 0 <= i < s.len() && #[trigger] s[i] == units
}

/// All cached buffers, at most one per scale factor.
#[derive(Debug)]
pub struct BufferCache {
    pub slots: Vec<BufferSlot>,
}

impl BufferCache {
    /// No two slots share a scale key.
    pub open spec fn wf(self) -> bool {
        forall|i: int, j: int|
            0 <= i < j < self.slots@.len() ==> self.slots@[i].scale.units
                != self.slots@[j].scale.units
    }

    /// Some slot is keyed by `units`.
    pub open spec fn has_scale(self, units: u32) -> bool {
        slots_have(self.slots@, units)
    }

    /// The index of the slot keyed by `units`.
    pub open spec fn idx_of(self, units: u32) -> int {
        choose|i: int| 0 <= i < self.slots@.len() && (#[trigger] self.slots@[i]).scale.units == units
    }

    /// The slot keyed by `units`.
    pub open spec fn slot_for(self, units: u32) -> BufferSlot {
        self.slots@[self.idx_of(units)]
    }

    /// Every slot's scale is a valid scale factor.
    pub open spec fn scales_valid(self) -> bool {
        forall|i: int| 0 <= i < self.slots@.len() ==> (#[trigger] self.slots@[i]).scale.valid()
    }

    /// Every slot's device size is the given logical size scaled by the
    /// slot's own scale factor.
    pub open spec fn sized_for(self, size: LogicalSize) -> bool {
        forall|i: int|
            0 <= i < self.slots@.len() ==> {
                let s = #[trigger] self.slots@[i];
                s.dev_w == scaled_dim_spec(size.w as nat, s.scale.units as nat) && s.dev_h
                    == scaled_dim_spec(size.h as nat, s.scale.units as nat)
            }
    }

    /// Every slot is marked dirty.
    pub open spec fn all_dirty(self) -> bool {
        forall|i: int| 0 <= i < self.slots@.len() ==> (#[trigger] self.slots@[i]).dirty
    }

    /// An empty cache.
    pub fn empty() -> (r: BufferCache)
        ensures
            r.slots@.len() == 0,
            r.wf(),
    {
        BufferCache { slots: Vec::new() }
    }

    /// The index of the slot keyed by `units`, if one exists.
    pub fn find(&self, units: u32) -> (r: Option<usize>)
        ensures
            (r is Some) <==> self.has_scale(units),
            (r matches Some(i) ==> 0 <= i < self.slots@.len() && self.slots@[i as int].scale.units
                == units),
    {
        let n = self.slots.len();
        let mut i: usize = 0;
        while i < n
            invariant
                n == self.slots@.len(),
                i <= n,
                forall|j: int| 0 <= j < i ==> (#[trigger] self.slots@[j]).scale.units != units,
            decreases n - i,
        {
            if self.slots[i].scale.units == units {
                return Some(i);
            }
            i = i + 1;
        }
        None
    }

    /// Allocates a buffer for `scale` if none is cached yet.  A new buffer is
    /// sized to `size` scaled by `scale` and starts dirty; existing slots are
    /// left exactly as they were.
    pub fn ensure_scale(&mut self, scale: ScaleFactor, size: LogicalSize)
        requires
            old(self).wf(),
            scale.valid(),
            size.valid(),
        ensures
            final(self).wf(),
            final(self).has_scale(scale.units),
            forall|u: u32|
                #[trigger] final(self).has_scale(u) <==> (old(self).has_scale(u) || u
                    == scale.units),
            old(self).has_scale(scale.units) ==> *final(self) == *old(self),
            !old(self).has_scale(scale.units) ==> final(self).slots@ == old(self).slots@.push(
                fresh_slot(scale, size),
            ),
            forall|u: u32|
                old(self).has_scale(u) ==> #[trigger] final(self).slot_for(u) == old(self).slot_for(
                    u,
                ),
            old(self).sized_for(size) ==> final(self).sized_for(size),
            old(self).scales_valid() ==> final(self).scales_valid(),
    {
        if let Some(_i) = self.find(scale.units) {
            return ;
        }
        let dev_w = scaled_dim(size.w, scale.units);
        let dev_h = scaled_dim(size.h, scale.units);
        let slot = BufferSlot { scale, dev_w, dev_h, dirty: true };
        self.slots.push(slot);
        proof {
            let n = old(self).slots@.len() as int;
            crate::geometry::lemma_scaled_dim_bound(size.w as nat, scale.units as nat);
            crate::geometry::lemma_scaled_dim_bound(size.h as nat, scale.units as nat);
            assert(self.slots@[n] == fresh_slot(scale, size));
            assert(self.slots@[n].scale.units == scale.units);
            assert(self.slots@[n].dev_w == scaled_dim_spec(size.w as nat, scale.units as nat));
            assert(self.slots@[n].dev_h == scaled_dim_spec(size.h as nat, scale.units as nat));
            assert(self.has_scale(scale.units));
            if old(self).sized_for(size) {
                assert forall|i: int| 0 <= i < self.slots@.len() implies {
                    let s = #[trigger] self.slots@[i];
                    s.dev_w == scaled_dim_spec(size.w as nat, s.scale.units as nat) && s.dev_h
                        == scaled_dim_spec(size.h as nat, s.scale.units as nat)
                } by {
                    if i < n {
                        assert(old(self).slots@[i] == self.slots@[i]);
                    }
                }
            }
            if old(self).scales_valid() {
                assert forall|i: int| 0 <= i < self.slots@.len() implies (#[trigger] self.slots@[i]).scale.valid() by {
                    if i < n {
                        assert(old(self).slots@[i] == self.slots@[i]);
                    }
                }
            }
            assert forall|u: u32| #[trigger] self.has_scale(u) implies (old(self).has_scale(u) || u
                == scale.units) by {
                let i = self.idx_of(u);
                assert(0 <= i < self.slots@.len() && self.slots@[i].scale.units == u);
                if i < n {
                    assert(old(self).slots@[i].scale.units == u);
                }
            }
            assert forall|u: u32| old(self).has_scale(u) implies #[trigger] self.has_scale(u) by {
                let i = old(self).idx_of(u);
                assert(0 <= i < old(self).slots@.len() && old(self).slots@[i].scale.units == u);
                assert(self.slots@[i].scale.units == u);
            }
            assert forall|u: u32| old(self).has_scale(u) implies #[trigger] self.slot_for(u) == old(
                self,
            ).slot_for(u) by {
                let i = old(self).idx_of(u);
                assert(0 <= i < old(self).slots@.len() && old(self).slots@[i].scale.units == u);
                assert(self.slots@[i].scale.units == u);
                let k = self.idx_of(u);
                assert(0 <= k < self.slots@.len() && self.slots@[k].scale.units == u);
                assert(k == i);
            }
        }
    }

    /// Marks every cached buffer dirty; nothing else changes.
    pub fn mark_all_dirty(&mut self)
        requires
            old(self).wf(),
        ensures
            final(self).wf(),
            final(self).slots@.len() == old(self).slots@.len(),
            forall|i: int|
                0 <= i < old(self).slots@.len() ==> #[trigger] final(self).slots@[i] == (BufferSlot {
                    scale: old(self).slots@[i].scale,
                    dev_w: old(self).slots@[i].dev_w,
                    dev_h: old(self).slots@[i].dev_h,
                    dirty: true,
                }),
            final(self).all_dirty(),
            forall|u: u32| #[trigger] final(self).has_scale(u) <==> old(self).has_scale(u),
    {
        let n = self.slots.len();
        let mut out: Vec<BufferSlot> = Vec::new();
        let mut i: usize = 0;
        while i < n
            invariant
                n == old(self).slots@.len(),
                self.slots@ == old(self).slots@,
                i <= n,
                out@.len() == i,
                forall|j: int|
                    0 <= j < i ==> #[trigger] out@[j] == (BufferSlot {
                        scale: old(self).slots@[j].scale,
                        dev_w: old(self).slots@[j].dev_w,
                        dev_h: old(self).slots@[j].dev_h,
                        dirty: true,
                    }),
            decreases n - i,
        {
            let s = self.slots[i];
            out.push(BufferSlot { scale: s.scale, dev_w: s.dev_w, dev_h: s.dev_h, dirty: true });
            i = i + 1;
        }
        self.slots = out;
        proof {
            assert forall|u: u32| #[trigger] self.has_scale(u) implies old(self).has_scale(u) by {
                let i = self.idx_of(u);
                assert(old(self).slots@[i].scale.units == u);
            }
            assert forall|u: u32| old(self).has_scale(u) implies #[trigger] self.has_scale(u) by {
                let i = old(self).idx_of(u);
                assert(self.slots@[i].scale.units == u);
            }
        }
    }

    /// Reallocates every cached buffer for a new logical size: each slot's
    /// device size is recomputed from its own scale and the slot is marked
    /// dirty.  The set of cached scales does not change.
    pub fn resize_all(&mut self, size: LogicalSize)
        requires
            old(self).wf(),
            old(self).scales_valid(),
            size.valid(),
        ensures
            final(self).wf(),
            final(self).slots@.len() == old(self).slots@.len(),
            forall|i: int|
                0 <= i < old(self).slots@.len() ==> #[trigger] final(self).slots@[i] == fresh_slot(
                    old(self).slots@[i].scale,
                    size,
                ),
            final(self).all_dirty(),
            final(self).sized_for(size),
            forall|u: u32| #[trigger] final(self).has_scale(u) <==> old(self).has_scale(u),
    {
        let n = self.slots.len();
        let mut out: Vec<BufferSlot> = Vec::new();
        let mut i: usize = 0;
        while i < n
            invariant
                n == old(self).slots@.len(),
                self.slots@ == old(self).slots@,
                old(self).scales_valid(),
                size.valid(),
                i <= n,
                out@.len() == i,
                forall|j: int|
                    0 <= j < i ==> #[trigger] out@[j] == fresh_slot(old(self).slots@[j].scale, size),
            decreases n - i,
        {
            let s = self.slots[i];
            let dev_w = scaled_dim(size.w, s.scale.units);
            let dev_h = scaled_dim(size.h, s.scale.units);
            out.push(BufferSlot { scale: s.scale, dev_w, dev_h, dirty: true });
            i = i + 1;
        }
        self.slots = out;
        proof {
            assert forall|i: int| 0 <= i < self.slots@.len() implies {
                let s = #[trigger] self.slots@[i];
                s.dev_w == scaled_dim_spec(size.w as nat, s.scale.units as nat) && s.dev_h
                    == scaled_dim_spec(size.h as nat, s.scale.units as nat)
            } by {
                crate::geometry::lemma_scaled_dim_bound(
                    size.w as nat,
                    old(self).slots@[i].scale.units as nat,
                );
                crate::geometry::lemma_scaled_dim_bound(
                    size.h as nat,
                    old(self).slots@[i].scale.units as nat,
                );
            }
            assert forall|u: u32| #[trigger] self.has_scale(u) implies old(self).has_scale(u) by {
                let i = self.idx_of(u);
                assert(old(self).slots@[i].scale.units == u);
            }
            assert forall|u: u32| old(self).has_scale(u) implies #[trigger] self.has_scale(u) by {
                let i = old(self).idx_of(u);
                assert(self.slots@[i].scale.units == u);
            }
        }
    }

    /// Removes every cached buffer whose scale is not among `live`.  Kept
    /// slots are left exactly as they were, dirty flag included.
    pub fn prune(&mut self, live: &Vec<u32>)
        requires
            old(self).wf(),
        ensures
            final(self).wf(),
            forall|u: u32|
                #[trigger] final(self).has_scale(u) <==> (old(self).has_scale(u) && units_have(
                    live@,
                    u,
                )),
            forall|u: u32|
                final(self).has_scale(u) ==> #[trigger] final(self).slot_for(u) == old(
                    self,
                ).slot_for(u),
            forall|k: int|
                0 <= k < final(self).slots@.len() ==> slot_among(
                    old(self).slots@,
                    #[trigger] final(self).slots@[k],
                ),
    {
        let n = self.slots.len();
        let mut kept: Vec<BufferSlot> = Vec::new();
        let mut i: usize = 0;
        while i < n
            invariant
                n == old(self).slots@.len(),
                self.slots@ == old(self).slots@,
                old(self).wf(),
                i <= n,
                forall|a: int, b: int|
                    0 <= a < b < kept@.len() ==> kept@[a].scale.units != kept@[b].scale.units,
                forall|k: int|
                    0 <= k < kept@.len() ==> exists|j: int|
                        0 <= j < i && (#[trigger] kept@[k]) == old(self).slots@[j],
                forall|u: u32|
                    #[trigger] slots_have(kept@, u) <==> (slots_have(
                        old(self).slots@.take(i as int),
                        u,
                    ) && units_have(live@, u)),
            decreases n - i,
        {
            let s = self.slots[i];
            let mut is_live = false;
            let mut t: usize = 0;
            let m = live.len();
            while t < m
                invariant
                    m == live@.len(),
                    t <= m,
                    is_live <==> exists|j: int| 0 <= j < t && #[trigger] live@[j] == s.scale.units,
                decreases m - t,
            {
                if live[t] == s.scale.units {
                    is_live = true;
                }
                t = t + 1;
            }
            proof {
                assert(is_live <==> units_have(live@, s.scale.units));
                assert(old(self).slots@.take(i + 1).drop_last() =~= old(self).slots@.take(i as int));
                assert(old(self).slots@.take(i + 1).last() == old(self).slots@[i as int]);
            }
            if is_live {
                proof {
                    assert forall|a: int| 0 <= a < kept@.len() implies kept@[a].scale.units
                        != s.scale.units by {
                        let j = choose|j: int| 0 <= j < i && (#[trigger] kept@[a]) == old(self).slots@[j];
                        assert(old(self).slots@[j].scale.units != old(
                            self,
                        ).slots@[i as int].scale.units);
                    }
                }
                let ghost kept0 = kept@;
                kept.push(s);
                proof {
                    assert forall|u: u32| #[trigger] slots_have(kept@, u) implies (slots_have(
                        old(self).slots@.take(i + 1),
                        u,
                    ) && units_have(live@, u)) by {
                        let k = choose|k: int|
                            0 <= k < kept@.len() && (#[trigger] kept@[k]).scale.units == u;
                        if k < kept@.len() - 1 {
                            assert(kept@.drop_last() =~= kept0);
                            assert(slots_have(kept0, u)) by {
                                assert(kept0[k].scale.units == u);
                            }
                            let j = choose|j: int|
                                0 <= j < old(self).slots@.take(i as int).len() && (#[trigger] old(
                                    self,
                                ).slots@.take(i as int)[j]).scale.units == u;
                            assert(old(self).slots@.take(i + 1)[j].scale.units == u);
                        } else {
                            assert(old(self).slots@.take(i + 1)[i as int].scale.units == u);
                        }
                    }
                    assert forall|u: u32| (slots_have(old(self).slots@.take(i + 1), u)
                        && units_have(live@, u)) implies #[trigger] slots_have(kept@, u) by {
                        let j = choose|j: int|
                            0 <= j < old(self).slots@.take(i + 1).len() && (#[trigger] old(
                                self,
                            ).slots@.take(i + 1)[j]).scale.units == u;
                        if j < i {
                            assert(slots_have(old(self).slots@.take(i as int), u)) by {
                                assert(old(self).slots@.take(i as int)[j].scale.units == u);
                            }
                            assert(slots_have(kept0, u));
                            let k = choose|k: int|
                                0 <= k < kept0.len() && (#[trigger] kept0[k]).scale.units == u;
                            assert(kept@[k].scale.units == u);
                        } else {
                            assert(kept@[kept@.len() - 1].scale.units == u);
                        }
                    }
                }
            } else {
                proof {
                    assert forall|u: u32| #[trigger] slots_have(kept@, u) implies (slots_have(
                        old(self).slots@.take(i + 1),
                        u,
                    ) && units_have(live@, u)) by {
                        assert(slots_have(old(self).slots@.take(i as int), u));
                        let j = choose|j: int|
                            0 <= j < old(self).slots@.take(i as int).len() && (#[trigger] old(
                                self,
                            ).slots@.take(i as int)[j]).scale.units == u;
                        assert(old(self).slots@.take(i + 1)[j].scale.units == u);
                    }
                    assert forall|u: u32| (slots_have(old(self).slots@.take(i + 1), u)
                        && units_have(live@, u)) implies #[trigger] slots_have(kept@, u) by {
                        let j = choose|j: int|
                            0 <= j < old(self).slots@.take(i + 1).len() && (#[trigger] old(
                                self,
                            ).slots@.take(i + 1)[j]).scale.units == u;
                        assert(j != i) by {
                            assert(old(self).slots@.take(i + 1)[i as int].scale.units
                                == s.scale.units);
                        }
                        assert(slots_have(old(self).slots@.take(i as int), u)) by {
                            assert(old(self).slots@.take(i as int)[j].scale.units == u);
                        }
                    }
                }
            }
            i = i + 1;
        }
        let ghost kept_fin = kept@;
        self.slots = kept;
        proof {
            assert(old(self).slots@.take(n as int) =~= old(self).slots@);
            assert forall|k: int| 0 <= k < self.slots@.len() implies slot_among(
                old(self).slots@,
                #[trigger] self.slots@[k],
            ) by {
                let j = choose|j: int| 0 <= j < n && (#[trigger] kept_fin[k]) == old(self).slots@[j];
                assert(self.slots@[k] == old(self).slots@[j]);
            }
            assert forall|u: u32| self.has_scale(u) implies #[trigger] self.slot_for(u) == old(
                self,
            ).slot_for(u) by {
                let k = self.idx_of(u);
                assert(0 <= k < self.slots@.len() && self.slots@[k].scale.units == u);
                let j = choose|j: int|
                    0 <= j < n && #[trigger] self.slots@[k] == old(self).slots@[j];
                assert(old(self).slots@[j].scale.units == u);
                let oj = old(self).idx_of(u);
                assert(0 <= oj < old(self).slots@.len() && old(self).slots@[oj].scale.units == u);
                assert(oj == j);
            }
        }
    }

    /// Clears the dirty flag of the slot keyed by `units`; the slot's size
    /// and every other slot are left exactly as they were.
    pub fn mark_clean(&mut self, units: u32)
        requires
            old(self).wf(),
            old(self).has_scale(units),
        ensures
            final(self).wf(),
            final(self).slots@.len() == old(self).slots@.len(),
            forall|u: u32| #[trigger] final(self).has_scale(u) <==> old(self).has_scale(u),
            final(self).slot_for(units) == (BufferSlot {
                scale: old(self).slot_for(units).scale,
                dev_w: old(self).slot_for(units).dev_w,
                dev_h: old(self).slot_for(units).dev_h,
                dirty: false,
            }),
            forall|u: u32|
                old(self).has_scale(u) && u != units ==> #[trigger] final(self).slot_for(u) == old(
                    self,
                ).slot_for(u),
            forall|i: int|
                0 <= i < old(self).slots@.len() && old(self).slots@[i].scale.units != units
                    ==> #[trigger] final(self).slots@[i] == old(self).slots@[i],
            forall|i: int|
                0 <= i < old(self).slots@.len() ==> {
                    let a = #[trigger] final(self).slots@[i];
                    let b = old(self).slots@[i];
                    a.scale == b.scale && a.dev_w == b.dev_w && a.dev_h == b.dev_h
                },
    {
        let idx = match self.find(units) {
            Some(i) => i,
            None => {
                return ;
            },
        };
        let s = self.slots[idx];
        let updated = BufferSlot { scale: s.scale, dev_w: s.dev_w, dev_h: s.dev_h, dirty: false };
        self.slots[idx] = updated;
        proof {
            let oi = old(self).idx_of(units);
            assert(0 <= oi < old(self).slots@.len() && old(self).slots@[oi].scale.units == units);
            assert(oi == idx);
            assert forall|u: u32| #[trigger] self.has_scale(u) implies old(self).has_scale(u) by {
                let i = self.idx_of(u);
                assert(old(self).slots@[i].scale.units == u);
            }
            assert forall|u: u32| old(self).has_scale(u) implies #[trigger] self.has_scale(u) by {
                let i = old(self).idx_of(u);
                assert(self.slots@[i].scale.units == u);
            }
            assert(self.slots@[idx as int].scale.units == units);
            assert(self.idx_of(units) == idx as int);
            assert forall|u: u32| old(self).has_scale(u) && u != units implies #[trigger] self
                .slot_for(u) == old(self).slot_for(u) by {
                let i = old(self).idx_of(u);
                assert(0 <= i < old(self).slots@.len() && old(self).slots@[i].scale.units == u);
                assert(i != idx);
                assert(self.slots@[i].scale.units == u);
                assert(self.idx_of(u) == i);
            }
        }
    }
}

} // verus!
