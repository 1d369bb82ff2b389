//! The element core: one mutually-exclusively-owned state record and the
//! decisions every public operation makes on it.
//!
//! The host wraps this core in its shared, identity-compared handle and owns
//! the outside collaborators: the event loop, the scheduler, the rasterizer
//! and the compositor's outputs.  Each host callback hands the core plain
//! values (an output's identity and scale, a pointer position, drained
//! channel messages), lets it decide, and carries the returned events,
//! deferred tasks and actions back out.
//!
//! The core's invariant is the buffer-set law: the set of cached buffer
//! scales always equals the set of distinct scale factors among the
//! currently attached outputs, and every cached buffer is sized to the
//! element's logical size scaled by its own key.

use vstd::prelude::*;

use crate::buffers::BufferCache;
use crate::buffers::BufferSlot;
use crate::buffers::fresh_slot;
use crate::effects::ProgramEffect;
use crate::effects::deferred_parts;
use crate::effects::immediate_parts;
use crate::effects::partition_effects;
use crate::geometry::CursorPos;
use crate::geometry::LogicalSize;
use crate::geometry::ScaleFactor;
use crate::input::InputEvent;
use crate::input::ModifierState;
use crate::input::axis_event;
use crate::input::axis_event_spec;
use crate::input::gather_modifiers;
use crate::input::map_button;
use crate::input::map_button_spec;
use crate::program::Program;
use crate::program::ThemeKind;

verus! {

/// The fixed z-ordering hint of the element: the host's shell tier.
pub const SHELL_Z_INDEX: u8 = 30;

/// One attached output: the host's identity for it and its scale factor as
/// last queried from the host.
#[derive(Clone, Copy, Debug, PartialEq, Eq, Structural)]
pub struct OutputRef {
    pub id: u64,
    pub scale: ScaleFactor,
}

/// The element's state: logical size, last-known cursor position, attached
/// outputs, the per-scale buffer cache, the theme, and the queue of program
/// messages awaiting the next update pass.
#[derive(Debug)]
pub struct ElementCore<M> {
    pub size: LogicalSize,
    pub cursor: Option<CursorPos>,
    pub outputs: Vec<OutputRef>,
    pub buffers: BufferCache,
    pub theme: ThemeKind,
    pub queue: Vec<M>,
}

impl<M> ElementCore<M> {
    /// Some attached output currently has scale `units`.
    pub open spec fn output_scale_at(self, units: u32) -> bool {
        exists|i: int|
            0 <= i < self.outputs@.len() && (#[trigger] self.outputs@[i]).scale.units == units
    }

    /// Every attached output's scale is valid.
    pub open spec fn outputs_valid(self) -> bool {
        forall|i: int| 0 <= i < self.outputs@.len() ==> (#[trigger] self.outputs@[i]).scale.valid()
    }

    /// The buffer cache on its own is consistent with the element's size:
    /// unique, valid scale keys and every buffer sized for `size`.
    pub open spec fn cache_ok(self) -> bool {
        &&& self.size.valid()
        &&& self.outputs_valid()
        &&& self.buffers.wf()
        &&& self.buffers.scales_valid()
        &&& self.buffers.sized_for(self.size)
    }

    /// The buffer-set law: a scale has a cached buffer exactly when some
    /// attached output has that scale.
    pub open spec fn scales_match(self) -> bool {
        &&& forall|j: int|
            0 <= j < self.buffers.slots@.len() ==> self.output_scale_at(
                (#[trigger] self.buffers.slots@[j]).scale.units,
            )
        &&& forall|i: int|
            0 <= i < self.outputs@.len() ==> self.buffers.has_scale(
                (#[trigger] self.outputs@[i]).scale.units,
            )
    }

    /// The element's full invariant: a consistent cache whose key set equals
    /// the attached outputs' scale set.
    pub open spec fn wf(self) -> bool {
        self.cache_ok() && self.scales_match()
    }

    /// The buffer-set law survives any change that keeps the outputs and
    /// the slots' scale keys: matching is a fact about keys alone.
    pub proof fn lemma_scales_match_same_keys(pre: ElementCore<M>, post: ElementCore<M>)
        requires
            pre.scales_match(),
            post.outputs@ == pre.outputs@,
            post.buffers.slots@.len() == pre.buffers.slots@.len(),
            forall|j: int|
                0 <= j < pre.buffers.slots@.len() ==> (#[trigger] post.buffers.slots@[j]).scale.units
                    == pre.buffers.slots@[j].scale.units,
        ensures
            post.scales_match(),
    {
        assert forall|j: int| 0 <= j < post.buffers.slots@.len() implies post.output_scale_at(
            post.buffers.slots@[j].scale.units,
        ) by {
            assert(pre.output_scale_at(pre.buffers.slots@[j].scale.units));
            let i = choose|i: int|
                0 <= i < pre.outputs@.len() && (#[trigger] pre.outputs@[i]).scale.units
                    == pre.buffers.slots@[j].scale.units;
            assert(post.outputs@[i].scale.units == post.buffers.slots@[j].scale.units);
        }
        assert forall|i: int| 0 <= i < post.outputs@.len() implies post.buffers.has_scale(
            post.outputs@[i].scale.units,
        ) by {
            assert(pre.buffers.has_scale(pre.outputs@[i].scale.units));
            let k = choose|k: int|
                0 <= k < pre.buffers.slots@.len() && (#[trigger] pre.buffers.slots@[k]).scale.units
                    == pre.outputs@[i].scale.units;
            assert(post.buffers.slots@[k].scale.units == post.outputs@[i].scale.units);
        }
    }

    /// A fresh element: the given size, no cursor yet, no outputs, no
    /// buffers, the dark theme, an empty message queue.
    pub fn new(size: LogicalSize) -> (r: ElementCore<M>)
        requires
            size.valid(),
        ensures
            r.wf(),
            r.size == size,
            r.cursor is None,
            r.outputs@.len() == 0,
            r.buffers.slots@.len() == 0,
            r.theme == ThemeKind::Dark,
            r.queue@.len() == 0,
    {
        ElementCore {
            size,
            cursor: None,
            outputs: Vec::new(),
            buffers: BufferCache::empty(),
            theme: ThemeKind::Dark,
            queue: Vec::new(),
        }
    }

    /// The element's logical bounding box: located at the origin, sized to
    /// the logical size.
    pub fn bbox(&self) -> (r: LogicalSize)
        ensures
            r == self.size,
    {
        self.size
    }

    /// Whether the element accepts input at a point: always, over its whole
    /// rectangle.
    pub fn is_in_input_region(&self, pos: CursorPos) -> (r: bool)
        ensures
            r == true,
    {
        let _ = pos;
        true
    }

    /// The element's z-ordering hint: the fixed shell tier.
    pub fn z_index(&self) -> (r: u8)
        ensures
            r == SHELL_Z_INDEX,
    {
        SHELL_Z_INDEX
    }

    /// Whether the element is still alive: always, while a handle exists.
    pub fn alive(&self) -> (r: bool)
        ensures
            r == true,
    {
        true
    }

    /// The buffer phase of a resize.  With the current size this changes
    /// nothing at all — no buffer is reallocated and no dirty flag moves.
    /// With a new size, every cached buffer is reallocated to the new size
    /// scaled by its own key and marked dirty.
    pub fn set_logical_size(&mut self, size: LogicalSize)
        requires
            old(self).wf(),
            size.valid(),
        ensures
            final(self).wf(),
            old(self).size == size ==> *final(self) == *old(self),
            old(self).size != size ==> {
                &&& final(self).size == size
                &&& final(self).cursor == old(self).cursor
                &&& final(self).outputs == old(self).outputs
                &&& final(self).theme == old(self).theme
                &&& final(self).queue == old(self).queue
                &&& final(self).buffers.slots@.len() == old(self).buffers.slots@.len()
                &&& forall|i: int|
                    0 <= i < old(self).buffers.slots@.len()
                        ==> (#[trigger] final(self).buffers.slots@[i]) == fresh_slot(
                        old(self).buffers.slots@[i].scale,
                        size,
                    )
                &&& final(self).buffers.all_dirty()
            },
            forall|u: u32|
                #[trigger] final(self).buffers.has_scale(u) <==> old(self).buffers.has_scale(u),
    {
        if self.size == size {
            return ;
        }
        self.size = size;
        self.buffers.resize_all(size);
        proof {
            Self::lemma_scales_match_same_keys(*old(self), *self);
        }
    }

    /// A pointer entered the element at `pos`: the program receives, in
    /// order, exactly a cursor-entered event and a cursor-moved event to
    /// `pos`, and the cached cursor position becomes `pos`.
    pub fn pointer_enter(&mut self, pos: CursorPos) -> (evs: Vec<InputEvent>)
        requires
            old(self).wf(),
        ensures
            final(self).wf(),
            evs@ =~= seq![InputEvent::CursorEntered, InputEvent::CursorMoved(pos)],
            final(self).cursor == Some(pos),
            final(self).size == old(self).size,
            final(self).outputs == old(self).outputs,
            final(self).buffers == old(self).buffers,
            final(self).theme == old(self).theme,
            final(self).queue == old(self).queue,
    {
        self.cursor = Some(pos);
        proof {
            Self::lemma_scales_match_same_keys(*old(self), *self);
        }
        let mut evs: Vec<InputEvent> = Vec::new();
        evs.push(InputEvent::CursorEntered);
        evs.push(InputEvent::CursorMoved(pos));
        evs
    }

    /// The pointer moved to `pos`: the program receives exactly a
    /// cursor-moved event and the cached cursor position becomes `pos`.
    pub fn pointer_motion(&mut self, pos: CursorPos) -> (evs: Vec<InputEvent>)
        requires
            old(self).wf(),
        ensures
            final(self).wf(),
            evs@ =~= seq![InputEvent::CursorMoved(pos)],
            final(self).cursor == Some(pos),
            final(self).size == old(self).size,
            final(self).outputs == old(self).outputs,
            final(self).buffers == old(self).buffers,
            final(self).theme == old(self).theme,
            final(self).queue == old(self).queue,
    {
        self.cursor = Some(pos);
        proof {
            Self::lemma_scales_match_same_keys(*old(self), *self);
        }
        let mut evs: Vec<InputEvent> = Vec::new();
        evs.push(InputEvent::CursorMoved(pos));
        evs
    }

    /// Relative pointer motion carries no program event at this layer.
    pub fn pointer_relative_motion(&self) -> (evs: Vec<InputEvent>)
        ensures
            evs@.len() == 0,
    {
        Vec::new()
    }

    /// A pointer button changed state: the program receives exactly one
    /// pressed or released event for the translated button.
    pub fn pointer_button(&self, code: u32, pressed: bool) -> (evs: Vec<InputEvent>)
        ensures
            pressed ==> evs@ =~= seq![InputEvent::ButtonPressed(map_button_spec(code))],
            !pressed ==> evs@ =~= seq![InputEvent::ButtonReleased(map_button_spec(code))],
    {
        let button = map_button(code);
        let mut evs: Vec<InputEvent> = Vec::new();
        if pressed {
            evs.push(InputEvent::ButtonPressed(button));
        } else {
            evs.push(InputEvent::ButtonReleased(button));
        }
        evs
    }

    /// A scroll frame arrived: the program receives exactly one wheel event,
    /// line-based when the host reported discrete steps, pixel-based
    /// otherwise.
    pub fn pointer_axis(&self, discrete: Option<(i32, i32)>, axis_x: i64, axis_y: i64) -> (evs:
        Vec<InputEvent>)
        ensures
            evs@ =~= seq![axis_event_spec(discrete, axis_x, axis_y)],
    {
        let mut evs: Vec<InputEvent> = Vec::new();
        evs.push(axis_event(discrete, axis_x, axis_y));
        evs
    }

    /// The pointer left the element: the program receives exactly a
    /// cursor-left event.  The cached cursor position is deliberately left
    /// as it was — whether a later off-element render should see the stale
    /// position or a sentinel is a documented open question, settled here by
    /// keeping the source of truth untouched.
    pub fn pointer_leave(&self) -> (evs: Vec<InputEvent>)
        ensures
            evs@ =~= seq![InputEvent::CursorLeft],
    {
        let mut evs: Vec<InputEvent> = Vec::new();
        evs.push(InputEvent::CursorLeft);
        evs
    }

    /// The keyboard modifier state changed: the program receives exactly one
    /// modifiers-changed event with each of the four bits tested
    /// independently.
    pub fn keyboard_modifiers(&self, shift: bool, alt: bool, ctrl: bool, logo: bool) -> (evs: Vec<
        InputEvent,
    >)
        ensures
            evs@ =~= seq![
                InputEvent::ModifiersChanged(ModifierState { shift, alt, ctrl, logo }),
            ],
    {
        let mods = gather_modifiers(shift, alt, ctrl, logo);
        let mut evs: Vec<InputEvent> = Vec::new();
        evs.push(InputEvent::ModifiersChanged(mods));
        evs
    }

    /// Keyboard focus entered, left, or a key changed state: key-symbol
    /// translation is an acknowledged gap at this layer, so these yield no
    /// program event.  The gap is stated, not silently papered over.
    pub fn keyboard_key(&self) -> (evs: Vec<InputEvent>)
        ensures
            evs@.len() == 0,
    {
        Vec::new()
    }

    /// The host activated or deactivated the element: the program receives
    /// exactly one focus event.
    pub fn set_activate(&self, activated: bool) -> (evs: Vec<InputEvent>)
        ensures
            activated ==> evs@ =~= seq![InputEvent::Focused],
            !activated ==> evs@ =~= seq![InputEvent::Unfocused],
    {
        let mut evs: Vec<InputEvent> = Vec::new();
        if activated {
            evs.push(InputEvent::Focused);
        } else {
            evs.push(InputEvent::Unfocused);
        }
        evs
    }
}

/// The cursor position handed to a program update step: the cached position,
/// or the out-of-bounds sentinel (one logical pixel beyond the top-left
/// corner) while no pointer has entered yet.
pub open spec fn cursor_or_sentinel_spec(c: Option<CursorPos>) -> CursorPos {
    match c {
        Some(p) => p,
        None => (CursorPos { x: -1000i64, y: -1000i64 }),
    }
}

/// The inputs of one program update step.
pub struct UpdateInputs<M> {
    pub messages: Vec<M>,
    pub size: LogicalSize,
    pub cursor: CursorPos,
    pub theme: ThemeKind,
}

/// The decision of one update pass: skip it outright, or run exactly one
/// program step with these inputs.
pub enum UpdateDecision<M> {
    Skip,
    Run(UpdateInputs<M>),
}

impl<M> ElementCore<M> {
    /// Decides one update pass.  The drained channel messages join the
    /// queue; a pass runs only when forced or when something was drained.  An
    /// unforced pass with nothing drained is an exact no-op: the state is
    /// untouched and no program step runs.  When a pass runs, it consumes
    /// the whole queue and sees the current size, the cursor or its
    /// sentinel, and the theme.
    pub fn begin_update(&mut self, force: bool, drained: Vec<M>) -> (g: UpdateDecision<M>)
        requires
            old(self).wf(),
        ensures
            final(self).wf(),
            final(self).size == old(self).size,
            final(self).cursor == old(self).cursor,
            final(self).outputs == old(self).outputs,
            final(self).buffers == old(self).buffers,
            final(self).theme == old(self).theme,
            !force && drained@.len() == 0 ==> (g is Skip) && *final(self) == *old(self),
            force || drained@.len() > 0 ==> (g matches UpdateDecision::Run(inputs) && {
                &&& inputs.messages@ == old(self).queue@ + drained@
                &&& inputs.size == old(self).size
                &&& inputs.cursor == cursor_or_sentinel_spec(old(self).cursor)
                &&& inputs.theme == old(self).theme
                &&& final(self).queue@.len() == 0
            }),
    {
        let mut drained = drained;
        if !force && drained.len() == 0 {
            return UpdateDecision::Skip;
        }
        let mut messages: Vec<M> = Vec::new();
        messages.append(&mut self.queue);
        messages.append(&mut drained);
        proof {
            Self::lemma_scales_match_same_keys(*old(self), *self);
        }
        let cursor = match self.cursor {
            Some(p) => p,
            None => CursorPos { x: -1000, y: -1000 },
        };
        UpdateDecision::Run(UpdateInputs { messages, size: self.size, cursor, theme: self.theme })
    }

    /// Applies what a program step reported.  A changed view marks every
    /// cached buffer dirty — a single logical change can affect every
    /// scale's rasterization; an unchanged view leaves the cache alone.
    /// The effects are split into deferred tasks, for the host scheduler,
    /// and immediate actions, handed back untouched, each in submission
    /// order.
    pub fn finish_update<T, A>(&mut self, view_changed: bool, effects: Vec<ProgramEffect<T, A>>)
        -> (r: (Vec<T>, Vec<A>))
        requires
            old(self).wf(),
        ensures
            final(self).wf(),
            r.0@ == deferred_parts(effects@),
            r.1@ == immediate_parts(effects@),
            final(self).size == old(self).size,
            final(self).cursor == old(self).cursor,
            final(self).outputs == old(self).outputs,
            final(self).theme == old(self).theme,
            final(self).queue == old(self).queue,
            !view_changed ==> final(self).buffers == old(self).buffers,
            view_changed ==> final(self).buffers.all_dirty(),
            final(self).buffers.slots@.len() == old(self).buffers.slots@.len(),
            forall|i: int|
                0 <= i < old(self).buffers.slots@.len() ==> {
                    let a = #[trigger] final(self).buffers.slots@[i];
                    let b = old(self).buffers.slots@[i];
                    a.scale == b.scale && a.dev_w == b.dev_w && a.dev_h == b.dev_h && (b.dirty
                        ==> a.dirty)
                },
    {
        if view_changed {
            self.buffers.mark_all_dirty();
            proof {
                Self::lemma_scales_match_same_keys(*old(self), *self);
            }
        }
        partition_effects(effects)
    }

    /// One full update pass, as the render and input paths run it: gate,
    /// then at most one program step, then the bookkeeping of its outcome.
    /// Unforced with nothing drained, it is an exact no-op that returns no
    /// effects.  Whatever the program returns, the outputs, the cursor, the
    /// size and every buffer's scale and device size are untouched, and no
    /// dirty buffer becomes clean.
    pub fn run_update<P: Program<Message = M>>(
        &mut self,
        program: &mut P,
        force: bool,
        drained: Vec<M>,
    ) -> (r: (Vec<P::Task>, Vec<P::Action>))
        requires
            old(self).wf(),
        ensures
            final(self).wf(),
            !force && drained@.len() == 0 ==> *final(self) == *old(self) && r.0@.len() == 0
                && r.1@.len() == 0,
            force || drained@.len() > 0 ==> final(self).queue@.len() == 0,
            final(self).size == old(self).size,
            final(self).cursor == old(self).cursor,
            final(self).outputs == old(self).outputs,
            final(self).theme == old(self).theme,
            final(self).buffers.slots@.len() == old(self).buffers.slots@.len(),
            forall|i: int|
                0 <= i < old(self).buffers.slots@.len() ==> {
                    let a = #[trigger] final(self).buffers.slots@[i];
                    let b = old(self).buffers.slots@[i];
                    a.scale == b.scale && a.dev_w == b.dev_w && a.dev_h == b.dev_h && (b.dirty
                        ==> a.dirty)
                },
    {
        match self.begin_update(force, drained) {
            UpdateDecision::Skip => (Vec::new(), Vec::new()),
            UpdateDecision::Run(inputs) => {
                let outcome = program.update(
                    inputs.messages,
                    inputs.size,
                    inputs.cursor,
                    inputs.theme,
                );
                self.finish_update(outcome.view_changed, outcome.effects)
            },
        }
    }

    /// A forced redraw and update pass: every cached buffer is marked dirty
    /// and one program step runs unconditionally, consuming the queue.
    pub fn force_update<P: Program<Message = M>>(&mut self, program: &mut P, drained: Vec<M>) -> (r:
        (Vec<P::Task>, Vec<P::Action>))
        requires
            old(self).wf(),
        ensures
            final(self).wf(),
            final(self).size == old(self).size,
            final(self).cursor == old(self).cursor,
            final(self).outputs == old(self).outputs,
            final(self).theme == old(self).theme,
            final(self).queue@.len() == 0,
            final(self).buffers.slots@.len() == old(self).buffers.slots@.len(),
            final(self).buffers.all_dirty(),
            forall|i: int|
                0 <= i < old(self).buffers.slots@.len() ==> {
                    let a = #[trigger] final(self).buffers.slots@[i];
                    let b = old(self).buffers.slots@[i];
                    a.scale == b.scale && a.dev_w == b.dev_w && a.dev_h == b.dev_h
                },
    {
        self.buffers.mark_all_dirty();
        proof {
            Self::lemma_scales_match_same_keys(*old(self), *self);
        }
        self.run_update(program, true, drained)
    }

    /// Resizes the element and, when the size actually changed, runs one
    /// forced update pass.  With the current size the whole call is an
    /// exact no-op: no buffer is reallocated, no dirty flag moves, no
    /// program step runs and no effect is returned.  With a new size every
    /// cached buffer is reallocated to the new size scaled by its own key
    /// and marked dirty.
    pub fn resize<P: Program<Message = M>>(
        &mut self,
        program: &mut P,
        size: LogicalSize,
        drained: Vec<M>,
    ) -> (r: (Vec<P::Task>, Vec<P::Action>))
        requires
            old(self).wf(),
            size.valid(),
        ensures
            final(self).wf(),
            old(self).size == size ==> *final(self) == *old(self) && r.0@.len() == 0
                && r.1@.len() == 0,
            old(self).size != size ==> {
                &&& final(self).size == size
                &&& final(self).cursor == old(self).cursor
                &&& final(self).outputs == old(self).outputs
                &&& final(self).theme == old(self).theme
                &&& final(self).queue@.len() == 0
                &&& final(self).buffers.slots@.len() == old(self).buffers.slots@.len()
                &&& final(self).buffers.all_dirty()
                &&& final(self).buffers.sized_for(size)
                &&& forall|i: int|
                    0 <= i < old(self).buffers.slots@.len()
                        ==> (#[trigger] final(self).buffers.slots@[i]).scale == old(
                        self,
                    ).buffers.slots@[i].scale
            },
    {
        if self.size == size {
            return (Vec::new(), Vec::new());
        }
        self.set_logical_size(size);
        self.run_update(program, true, drained)
    }
}

/// `x` is one of the outputs of `s`.
pub open spec fn output_among(s: Seq<OutputRef>, x: OutputRef) -> bool {
    exists|j: int| 0 <= j < s.len() && x == #[trigger] s[j]
}

/// The outputs of `s` whose identity is not `id`, in their original order.
pub open spec fn outputs_without(s: Seq<OutputRef>, id: u64) -> Seq<OutputRef>
    decreases s.len(),
{
    if s.len() == 0 {
        Seq::empty()
    } else {
        let rest = outputs_without(s.drop_last(), id);
        if s.last().id == id {
            rest
        } else {
            rest.push(s.last())
        }
    }
}

impl<M> ElementCore<M> {
    /// An output began displaying the element: a buffer for its scale is
    /// allocated if none is cached yet — freshly sized to the current
    /// logical size and dirty — and the output joins the attached list.
    /// Buffers of other scales are left exactly as they were.
    pub fn output_enter(&mut self, id: u64, scale: ScaleFactor)
        requires
            old(self).wf(),
            scale.valid(),
        ensures
            final(self).wf(),
            final(self).outputs@ == old(self).outputs@.push(OutputRef { id, scale }),
            final(self).size == old(self).size,
            final(self).cursor == old(self).cursor,
            final(self).theme == old(self).theme,
            final(self).queue == old(self).queue,
            forall|u: u32|
                #[trigger] final(self).buffers.has_scale(u) <==> (old(self).buffers.has_scale(u)
                    || u == scale.units),
            forall|u: u32|
                old(self).buffers.has_scale(u) ==> #[trigger] final(self).buffers.slot_for(u)
                    == old(self).buffers.slot_for(u),
            old(self).buffers.has_scale(scale.units) ==> final(self).buffers == old(self).buffers,
            !old(self).buffers.has_scale(scale.units) ==> final(self).buffers.slots@ == old(
                self,
            ).buffers.slots@.push(fresh_slot(scale, old(self).size)),
            !old(self).buffers.has_scale(scale.units) ==> final(self).buffers.slot_for(scale.units)
                == fresh_slot(scale, old(self).size),
    {
        let sz = self.size;
        self.buffers.ensure_scale(scale, sz);
        self.outputs.push(OutputRef { id, scale });
        proof {
            assert forall|j: int| 0 <= j < self.buffers.slots@.len() implies self.output_scale_at(
                (self.buffers.slots@[j]).scale.units,
            ) by {
                let u = self.buffers.slots@[j].scale.units;
                assert(self.buffers.has_scale(u));
                if old(self).buffers.has_scale(u) {
                    let jj = choose|jj: int|
                        0 <= jj < old(self).buffers.slots@.len() && (#[trigger] old(
                            self,
                        ).buffers.slots@[jj]).scale.units == u;
                    assert(old(self).output_scale_at(u));
                    let i = choose|i: int|
                        0 <= i < old(self).outputs@.len() && (#[trigger] old(
                            self,
                        ).outputs@[i]).scale.units == u;
                    assert(self.outputs@[i].scale.units == u);
                } else {
                    assert(self.outputs@[old(self).outputs@.len() as int].scale.units == u);
                }
            }
            assert forall|i: int| 0 <= i < self.outputs@.len() implies self.buffers.has_scale(
                (self.outputs@[i]).scale.units,
            ) by {
                if i < old(self).outputs@.len() {
                    assert(self.outputs@[i] == old(self).outputs@[i]);
                    assert(old(self).buffers.has_scale(old(self).outputs@[i].scale.units));
                } else {
                    assert(self.outputs@[i].scale.units == scale.units);
                }
            }
        }
    }

    /// Recomputes the buffer set from the attached outputs, two-phase: every
    /// buffer whose scale no longer belongs to any output is removed, then a
    /// buffer is ensured for every output scale still missing one.  Kept
    /// buffers are untouched, dirty flag included; new ones start dirty.
    /// This restores the buffer-set law from any consistent cache.
    pub fn refresh(&mut self)
        requires
            old(self).cache_ok(),
        ensures
            final(self).wf(),
            final(self).size == old(self).size,
            final(self).cursor == old(self).cursor,
            final(self).outputs == old(self).outputs,
            final(self).theme == old(self).theme,
            final(self).queue == old(self).queue,
            forall|u: u32|
                #[trigger] final(self).buffers.has_scale(u) <==> old(self).output_scale_at(u),
            forall|u: u32|
                old(self).buffers.has_scale(u) && old(self).output_scale_at(u)
                    ==> (#[trigger] final(self).buffers.slot_for(u)) == old(self).buffers.slot_for(
                    u,
                ),
            forall|u: u32|
                !old(self).buffers.has_scale(u) && #[trigger] final(self).buffers.has_scale(u)
                    ==> final(self).buffers.slot_for(u).dirty,
    {
        let n_out = self.outputs.len();
        let mut live: Vec<u32> = Vec::new();
        let mut i: usize = 0;
        while i < n_out
            invariant
                *self == *old(self),
                n_out == self.outputs@.len(),
                i <= n_out,
                live@.len() == i,
                forall|j: int| 0 <= j < i ==> #[trigger] live@[j] == self.outputs@[j].scale.units,
            decreases n_out - i,
        {
            let u = self.outputs[i].scale.units;
            live.push(u);
            i = i + 1;
        }
        proof {
            assert forall|u: u32| #[trigger] crate::buffers::units_have(live@, u) implies old(
                self,
            ).output_scale_at(u) by {
                let j = choose|j: int| 0 <= j < live@.len() && #[trigger] live@[j] == u;
                assert(self.outputs@[j].scale.units == u);
            }
            assert forall|u: u32| old(self).output_scale_at(u) implies #[trigger] crate::buffers::units_have(
                live@,
                u,
            ) by {
                let j = choose|j: int|
                    0 <= j < self.outputs@.len() && (#[trigger] self.outputs@[j]).scale.units == u;
                assert(live@[j] == u);
            }
        }
        self.buffers.prune(&live);
        let ghost pruned = self.buffers;
        proof {
            assert forall|k: int| 0 <= k < self.buffers.slots@.len() implies {
                let s = #[trigger] self.buffers.slots@[k];
                s.scale.valid() && s.dev_w == crate::geometry::scaled_dim_spec(
                    self.size.w as nat,
                    s.scale.units as nat,
                ) && s.dev_h == crate::geometry::scaled_dim_spec(
                    self.size.h as nat,
                    s.scale.units as nat,
                )
            } by {
                let j = choose|j: int|
                    0 <= j < old(self).buffers.slots@.len() && self.buffers.slots@[k]
                        == #[trigger] old(self).buffers.slots@[j];
            }
        }
        let mut k: usize = 0;
        while k < n_out
            invariant
                n_out == self.outputs@.len(),
                k <= n_out,
                self.size == old(self).size,
                self.cursor == old(self).cursor,
                self.outputs == old(self).outputs,
                self.theme == old(self).theme,
                self.queue == old(self).queue,
                old(self).cache_ok(),
                self.buffers.wf(),
                self.buffers.scales_valid(),
                self.buffers.sized_for(self.size),
                forall|u: u32| pruned.has_scale(u) ==> #[trigger] self.buffers.has_scale(u),
                forall|j: int|
                    0 <= j < k ==> self.buffers.has_scale(
                        (#[trigger] self.outputs@[j]).scale.units,
                    ),
                forall|u: u32|
                    #[trigger] self.buffers.has_scale(u) ==> (pruned.has_scale(u) || exists|j: int|
                        0 <= j < k && (#[trigger] self.outputs@[j]).scale.units == u),
                forall|u: u32|
                    pruned.has_scale(u) ==> #[trigger] self.buffers.slot_for(u) == pruned.slot_for(
                        u,
                    ),
                forall|u: u32|
                    !pruned.has_scale(u) && #[trigger] self.buffers.has_scale(u)
                        ==> self.buffers.slot_for(u).dirty,
                forall|u: u32|
                    #[trigger] pruned.has_scale(u) <==> (old(self).buffers.has_scale(u)
                        && crate::buffers::units_have(live@, u)),
                forall|u: u32|
                    pruned.has_scale(u) ==> #[trigger] pruned.slot_for(u) == old(
                        self,
                    ).buffers.slot_for(u),
                forall|u: u32| #[trigger] crate::buffers::units_have(live@, u) <==> old(
                    self,
                ).output_scale_at(u),
            decreases n_out - k,
        {
            let sc = self.outputs[k].scale;
            let sz = self.size;
            let ghost pre = self.buffers;
            self.buffers.ensure_scale(sc, sz);
            k = k + 1;
        }
        proof {
            assert forall|j: int| 0 <= j < self.buffers.slots@.len() implies self.output_scale_at(
                (self.buffers.slots@[j]).scale.units,
            ) by {
                let u = self.buffers.slots@[j].scale.units;
                assert(self.buffers.has_scale(u));
                if pruned.has_scale(u) {
                    assert(crate::buffers::units_have(live@, u));
                    assert(old(self).output_scale_at(u));
                    let oi = choose|oi: int|
                        0 <= oi < old(self).outputs@.len() && (#[trigger] old(
                            self,
                        ).outputs@[oi]).scale.units == u;
                    assert(self.outputs@[oi].scale.units == u);
                } else {
                    let oj = choose|oj: int|
                        0 <= oj < n_out && (#[trigger] self.outputs@[oj]).scale.units == u;
                    assert(self.outputs@[oj].scale.units == u);
                }
            }
            assert forall|u: u32| #[trigger] self.buffers.has_scale(u) implies old(
                self,
            ).output_scale_at(u) by {
                if pruned.has_scale(u) {
                    assert(crate::buffers::units_have(live@, u));
                } else {
                    let oj = choose|oj: int|
                        0 <= oj < n_out && (#[trigger] self.outputs@[oj]).scale.units == u;
                    assert(old(self).outputs@[oj].scale.units == u);
                }
            }
            assert forall|u: u32| old(self).output_scale_at(u) implies #[trigger] self.buffers.has_scale(
                u,
            ) by {
                let oi = choose|oi: int|
                    0 <= oi < old(self).outputs@.len() && (#[trigger] old(
                        self,
                    ).outputs@[oi]).scale.units == u;
                assert(self.buffers.has_scale(self.outputs@[oi].scale.units));
            }
            assert forall|u: u32|
                old(self).buffers.has_scale(u) && old(self).output_scale_at(u) implies #[trigger] self.buffers.slot_for(
                u,
            ) == old(self).buffers.slot_for(u) by {
                assert(crate::buffers::units_have(live@, u));
                assert(pruned.has_scale(u));
            }
        }
    }

    /// An output stopped displaying the element: every attached entry with
    /// its identity is removed, then the buffer set is recomputed, so that
    /// buffers of scales no longer displayed are dropped while every
    /// surviving scale keeps its buffer exactly as it was.
    pub fn output_leave(&mut self, id: u64)
        requires
            old(self).wf(),
        ensures
            final(self).wf(),
            final(self).size == old(self).size,
            final(self).cursor == old(self).cursor,
            final(self).theme == old(self).theme,
            final(self).queue == old(self).queue,
            final(self).outputs@ == outputs_without(old(self).outputs@, id),
            forall|k: int|
                0 <= k < final(self).outputs@.len() ==> (#[trigger] final(self).outputs@[k]).id
                    != id,
            forall|k: int|
                0 <= k < final(self).outputs@.len() ==> output_among(
                    old(self).outputs@,
                    #[trigger] final(self).outputs@[k],
                ),
            forall|j: int|
                0 <= j < old(self).outputs@.len() && (#[trigger] old(self).outputs@[j]).id != id
                    ==> output_among(final(self).outputs@, old(self).outputs@[j]),
            forall|u: u32|
                #[trigger] final(self).buffers.has_scale(u) ==> final(self).buffers.slot_for(u)
                    == old(self).buffers.slot_for(u),
    {
        let n = self.outputs.len();
        let mut kept: Vec<OutputRef> = Vec::new();
        let mut i: usize = 0;
        while i < n
            invariant
                *self == *old(self),
                n == self.outputs@.len(),
                i <= n,
                kept@ == outputs_without(self.outputs@.take(i as int), id),
                forall|k: int| 0 <= k < kept@.len() ==> (#[trigger] kept@[k]).id != id,
                forall|k: int|
                    0 <= k < kept@.len() ==> output_among(self.outputs@, #[trigger] kept@[k]),
                forall|j: int|
                    0 <= j < i && (#[trigger] self.outputs@[j]).id != id ==> output_among(
                        kept@,
                        self.outputs@[j],
                    ),
            decreases n - i,
        {
            proof {
                assert(self.outputs@.take(i + 1).drop_last() =~= self.outputs@.take(i as int));
                assert(self.outputs@.take(i + 1).last() == self.outputs@[i as int]);
            }
            let o = self.outputs[i];
            if o.id != id {
                let ghost kept0 = kept@;
                kept.push(o);
                proof {
                    assert forall|j: int|
                        0 <= j < i + 1 && (#[trigger] self.outputs@[j]).id != id implies output_among(
                        kept@,
                        self.outputs@[j],
                    ) by {
                        if j < i {
                            let kk = choose|kk: int|
                                0 <= kk < kept0.len() && self.outputs@[j] == #[trigger] kept0[kk];
                            assert(self.outputs@[j] == kept@[kk]);
                        } else {
                            assert(self.outputs@[j] == kept@[kept@.len() - 1]);
                        }
                    }
                }
            }
            i = i + 1;
        }
        self.outputs = kept;
        proof {
            assert(old(self).outputs@.take(n as int) =~= old(self).outputs@);
            assert forall|k: int| 0 <= k < self.outputs@.len() implies (#[trigger] self.outputs@[k]).scale.valid() by {
                let j = choose|j: int|
                    0 <= j < old(self).outputs@.len() && self.outputs@[k] == #[trigger] old(
                        self,
                    ).outputs@[j];
            }
        }
        let ghost mid = *self;
        self.refresh();
        proof {
            assert forall|u: u32| #[trigger] self.buffers.has_scale(u) implies self.buffers.slot_for(
                u,
            ) == old(self).buffers.slot_for(u) by {
                assert(mid.output_scale_at(u));
                let oi = choose|oi: int|
                    0 <= oi < mid.outputs@.len() && (#[trigger] mid.outputs@[oi]).scale.units == u;
                let oj = choose|oj: int|
                    0 <= oj < old(self).outputs@.len() && mid.outputs@[oi] == #[trigger] old(
                        self,
                    ).outputs@[oj];
                assert(old(self).output_scale_at(u));
                assert(old(self).buffers.has_scale(u));
            }
        }
    }
}

/// What a render request must do for a given scale: draw nothing because no
/// buffer exists for it, redraw the buffer's pixels and then wrap it, or
/// wrap the cached pixels as they are.
#[derive(Clone, Copy, Debug, PartialEq, Eq, Structural)]
pub enum RenderStep {
    /// No output with this scale displays the element; no render element is
    /// produced this frame, which is not an error.
    NoBuffer,
    /// Wrap the cached pixels unchanged, at this device size.  Either they
    /// are current, or the device size is degenerate — then the buffer
    /// stays dirty until a drawable size exists.
    Reuse(u32, u32),
    /// The buffer is stale and drawable: rasterize the current view into it
    /// at this device size, then wrap it.
    Redraw(u32, u32),
}

impl<M> ElementCore<M> {
    /// Buffer-set law: in a well-formed element state — which every
    /// operation here preserves — a scale has a cached buffer exactly when
    /// some currently attached output has that scale, whatever sequence of
    /// attaches and detaches led to the state.
    pub proof fn lemma_buffer_set_law(self)
        requires
            self.wf(),
        ensures
            forall|u: u32| #[trigger] self.buffers.has_scale(u) <==> self.output_scale_at(u),
    {
        assert forall|u: u32| #[trigger] self.buffers.has_scale(u) implies self.output_scale_at(
            u,
        ) by {
            let j = choose|j: int|
                0 <= j < self.buffers.slots@.len() && (#[trigger] self.buffers.slots@[j]).scale.units
                    == u;
            assert(self.output_scale_at(self.buffers.slots@[j].scale.units));
        }
        assert forall|u: u32| self.output_scale_at(u) implies #[trigger] self.buffers.has_scale(
            u,
        ) by {
            let i = choose|i: int|
                0 <= i < self.outputs@.len() && (#[trigger] self.outputs@[i]).scale.units == u;
            assert(self.buffers.has_scale(self.outputs@[i].scale.units));
        }
    }

    /// Whether a buffer is cached for `scale`.
    pub fn has_buffer(&self, scale: ScaleFactor) -> (r: bool)
        ensures
            r == self.buffers.has_scale(scale.units),
    {
        self.buffers.find(scale.units).is_some()
    }

    /// How many buffers are cached: one per distinct attached scale.
    pub fn buffer_count(&self) -> (r: usize)
        ensures
            r == self.buffers.slots@.len(),
    {
        self.buffers.slots.len()
    }

    /// Plans a render request for `scale`.  A scale no attached output has
    /// yields no render element — an empty result, never an error.  A dirty
    /// buffer of non-degenerate device size must be redrawn; anything else
    /// is wrapped as it stands.  The caller runs an unforced update pass
    /// first and reports a completed redraw through `note_drawn`.
    pub fn render_plan(&self, scale: ScaleFactor) -> (r: RenderStep)
        requires
            self.wf(),
        ensures
            (r is NoBuffer) <==> !self.buffers.has_scale(scale.units),
            (r is NoBuffer) <==> !self.output_scale_at(scale.units),
            (r matches RenderStep::Redraw(w, h) ==> {
                let s = self.buffers.slot_for(scale.units);
                s.dirty && w == s.dev_w && h == s.dev_h && w > 0 && h > 0
            }),
            (r matches RenderStep::Reuse(w, h) ==> {
                let s = self.buffers.slot_for(scale.units);
                w == s.dev_w && h == s.dev_h && (!s.dirty || w == 0 || h == 0)
            }),
            self.buffers.has_scale(scale.units) ==> {
                let s = self.buffers.slot_for(scale.units);
                (r is Redraw) <==> (s.dirty && s.dev_w > 0 && s.dev_h > 0)
            },
    {
        proof {
            self.lemma_buffer_set_law();
        }
        match self.buffers.find(scale.units) {
            None => RenderStep::NoBuffer,
            Some(i) => {
                let s = self.buffers.slots[i];
                proof {
                    let k = self.buffers.idx_of(scale.units);
                    assert(0 <= k < self.buffers.slots@.len()
                        && self.buffers.slots@[k].scale.units == scale.units);
                    assert(k == i);
                }
                if s.dirty && s.dev_w > 0 && s.dev_h > 0 {
                    RenderStep::Redraw(s.dev_w, s.dev_h)
                } else {
                    RenderStep::Reuse(s.dev_w, s.dev_h)
                }
            },
        }
    }

    /// Records that the buffer for `scale` was successfully redrawn: its
    /// dirty flag is cleared and nothing else changes.
    pub fn note_drawn(&mut self, scale: ScaleFactor)
        requires
            old(self).wf(),
            old(self).buffers.has_scale(scale.units),
        ensures
            final(self).wf(),
            final(self).size == old(self).size,
            final(self).cursor == old(self).cursor,
            final(self).outputs == old(self).outputs,
            final(self).theme == old(self).theme,
            final(self).queue == old(self).queue,
            forall|u: u32|
                #[trigger] final(self).buffers.has_scale(u) <==> old(self).buffers.has_scale(u),
            final(self).buffers.slot_for(scale.units) == (BufferSlot {
                scale: old(self).buffers.slot_for(scale.units).scale,
                dev_w: old(self).buffers.slot_for(scale.units).dev_w,
                dev_h: old(self).buffers.slot_for(scale.units).dev_h,
                dirty: false,
            }),
            forall|u: u32|
                old(self).buffers.has_scale(u) && u != scale.units
                    ==> (#[trigger] final(self).buffers.slot_for(u)) == old(self).buffers.slot_for(
                    u,
                ),
    {
        self.buffers.mark_clean(scale.units);
        proof {
            assert forall|j: int| 0 <= j < old(self).buffers.slots@.len() implies (#[trigger] self.buffers.slots@[j]).scale.units
                == old(self).buffers.slots@[j].scale.units by {
                assert(self.buffers.slots@[j].scale == old(self).buffers.slots@[j].scale);
            }
            Self::lemma_scales_match_same_keys(*old(self), *self);
        }
    }
}

} // verus!
