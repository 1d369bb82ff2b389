//! Behavior tests of the element core: buffer-set maintenance, resize,
//! update gating and render planning.

use iced_element::element::ElementCore;
use iced_element::element::RenderStep;
use iced_element::element::UpdateDecision;
use iced_element::geometry::CursorPos;
use iced_element::geometry::LogicalSize;
use iced_element::geometry::ScaleFactor;
use iced_element::effects::ProgramEffect;
use iced_element::program::Program;
use iced_element::program::ProgramUpdate;
use iced_element::program::ThemeKind;

/// A program that records what the element hands it and answers with a
/// configurable outcome.
struct TestProgram {
    updates: usize,
    last_messages: Vec<u32>,
    last_size: Option<LogicalSize>,
    last_cursor: Option<CursorPos>,
    report_view_changed: bool,
    emit: Vec<ProgramEffect<u8, i32>>,
}

impl TestProgram {
    fn new() -> TestProgram {
        TestProgram {
            updates: 0,
            last_messages: Vec::new(),
            last_size: None,
            last_cursor: None,
            report_view_changed: true,
            emit: Vec::new(),
        }
    }
}

impl Program for TestProgram {
    type Message = u32;
    type Task = u8;
    type Action = i32;

    fn update(
        &mut self,
        messages: Vec<u32>,
        size: LogicalSize,
        cursor: CursorPos,
        _theme: ThemeKind,
    ) -> ProgramUpdate<u8, i32> {
        self.updates += 1;
        self.last_messages = messages;
        self.last_size = Some(size);
        self.last_cursor = Some(cursor);
        ProgramUpdate {
            view_changed: self.report_view_changed,
            effects: std::mem::take(&mut self.emit),
        }
    }
}

fn size(w: u32, h: u32) -> LogicalSize {
    LogicalSize { w, h }
}

fn scale(units: u32) -> ScaleFactor {
    ScaleFactor { units }
}

fn slot_dims(core: &ElementCore<u32>, units: u32) -> (u32, u32, bool) {
    for s in core.buffers.slots.iter() {
        if s.scale.units == units {
            return (s.dev_w, s.dev_h, s.dirty);
        }
    }
    panic!("no buffer cached for scale {units}");
}

#[test]
fn attach_detach_scenario() {
    let mut core: ElementCore<u32> = ElementCore::new(size(100, 50));
    assert_eq!(core.buffer_count(), 0);

    core.output_enter(1, scale(1000));
    assert_eq!(core.buffer_count(), 1);
    assert_eq!(slot_dims(&core, 1000), (100, 50, true));

    core.output_enter(2, scale(2000));
    assert_eq!(core.buffer_count(), 2);
    assert_eq!(slot_dims(&core, 2000), (200, 100, true));

    core.output_leave(1);
    assert_eq!(core.buffer_count(), 1);
    assert!(core.has_buffer(scale(2000)));
    assert!(!core.has_buffer(scale(1000)));
}

#[test]
fn buffer_set_matches_outputs_after_any_sequence() {
    let mut core: ElementCore<u32> = ElementCore::new(size(64, 64));
    let steps: [(bool, u64, u32); 8] = [
        (true, 1, 1000),
        (true, 2, 2000),
        (true, 3, 1000),
        (false, 1, 0),
        (true, 4, 1500),
        (false, 3, 0),
        (false, 2, 0),
        (false, 4, 0),
    ];
    for (attach, id, units) in steps {
        if attach {
            core.output_enter(id, scale(units));
        } else {
            core.output_leave(id);
        }
        // the cached scale set equals the attached outputs' scale set
        let mut live: Vec<u32> = Vec::new();
        for o in core.outputs.iter() {
            if !live.contains(&o.scale.units) {
                live.push(o.scale.units);
            }
        }
        assert_eq!(core.buffer_count(), live.len());
        for u in live {
            assert!(core.has_buffer(scale(u)));
        }
    }
    assert_eq!(core.buffer_count(), 0);
    assert_eq!(core.outputs.len(), 0);
}

#[test]
fn duplicate_scales_share_one_buffer() {
    let mut core: ElementCore<u32> = ElementCore::new(size(10, 10));
    core.output_enter(1, scale(1000));
    core.output_enter(2, scale(1000));
    assert_eq!(core.buffer_count(), 1);
    core.output_leave(1);
    assert_eq!(core.buffer_count(), 1);
    assert!(core.has_buffer(scale(1000)));
    core.output_leave(2);
    assert_eq!(core.buffer_count(), 0);
}

#[test]
fn resize_with_current_size_is_a_no_op() {
    let mut core: ElementCore<u32> = ElementCore::new(size(100, 50));
    let mut prog = TestProgram::new();
    core.output_enter(1, scale(1000));
    core.output_enter(2, scale(2000));
    // make one buffer clean so unchanged dirty flags are observable
    core.note_drawn(scale(1000));
    assert_eq!(slot_dims(&core, 1000), (100, 50, false));

    let before: Vec<(u32, u32, u32, bool)> = core
        .buffers
        .slots
        .iter()
        .map(|s| (s.scale.units, s.dev_w, s.dev_h, s.dirty))
        .collect();

    let (tasks, actions) = core.resize(&mut prog, size(100, 50), Vec::new());
    assert_eq!(prog.updates, 0, "no program step may run on an unchanged size");
    assert!(tasks.is_empty() && actions.is_empty());
    let after: Vec<(u32, u32, u32, bool)> = core
        .buffers
        .slots
        .iter()
        .map(|s| (s.scale.units, s.dev_w, s.dev_h, s.dirty))
        .collect();
    assert_eq!(before, after);
}

#[test]
fn resize_with_new_size_reallocates_and_dirties_all() {
    let mut core: ElementCore<u32> = ElementCore::new(size(100, 50));
    let mut prog = TestProgram::new();
    core.output_enter(1, scale(1000));
    core.output_enter(2, scale(1500));
    core.note_drawn(scale(1500));

    let (_, _) = core.resize(&mut prog, size(101, 57), Vec::new());
    assert_eq!(prog.updates, 1, "a real resize runs one forced update pass");
    // ceil(101 * 1.0) = 101, ceil(57 * 1.0) = 57
    assert_eq!(slot_dims(&core, 1000), (101, 57, true));
    // ceil(101 * 1.5) = ceil(151.5) = 152, ceil(57 * 1.5) = ceil(85.5) = 86
    assert_eq!(slot_dims(&core, 1500), (152, 86, true));
}

#[test]
fn unforced_update_with_nothing_pending_is_a_no_op() {
    let mut core: ElementCore<u32> = ElementCore::new(size(10, 10));
    let mut prog = TestProgram::new();
    core.output_enter(1, scale(1000));
    core.note_drawn(scale(1000));

    let (tasks, actions) = core.run_update(&mut prog, false, Vec::new());
    assert_eq!(prog.updates, 0);
    assert!(tasks.is_empty() && actions.is_empty());
    assert_eq!(slot_dims(&core, 1000), (10, 10, false));
}

#[test]
fn drained_messages_force_a_pass_and_join_the_queue() {
    let mut core: ElementCore<u32> = ElementCore::new(size(10, 10));
    let mut prog = TestProgram::new();
    core.queue.push(7);
    core.queue.push(8);

    let (_, _) = core.run_update(&mut prog, false, vec![9, 10]);
    assert_eq!(prog.updates, 1);
    assert_eq!(prog.last_messages, vec![7, 8, 9, 10]);
    assert!(core.queue.is_empty());
}

#[test]
fn changed_view_dirties_every_buffer() {
    let mut core: ElementCore<u32> = ElementCore::new(size(20, 20));
    let mut prog = TestProgram::new();
    core.output_enter(1, scale(1000));
    core.output_enter(2, scale(2000));
    core.note_drawn(scale(1000));
    core.note_drawn(scale(2000));

    prog.report_view_changed = true;
    let (_, _) = core.run_update(&mut prog, true, Vec::new());
    assert!(slot_dims(&core, 1000).2);
    assert!(slot_dims(&core, 2000).2);
}

#[test]
fn unchanged_view_leaves_clean_buffers_clean() {
    let mut core: ElementCore<u32> = ElementCore::new(size(20, 20));
    let mut prog = TestProgram::new();
    core.output_enter(1, scale(1000));
    core.note_drawn(scale(1000));

    prog.report_view_changed = false;
    let (_, _) = core.run_update(&mut prog, true, Vec::new());
    assert!(!slot_dims(&core, 1000).2);
}

#[test]
fn force_update_dirties_and_runs_one_pass() {
    let mut core: ElementCore<u32> = ElementCore::new(size(20, 20));
    let mut prog = TestProgram::new();
    prog.report_view_changed = false;
    core.output_enter(1, scale(1000));
    core.note_drawn(scale(1000));

    let (_, _) = core.force_update(&mut prog, Vec::new());
    assert_eq!(prog.updates, 1);
    assert!(slot_dims(&core, 1000).2);
}

#[test]
fn cursor_sentinel_before_first_pointer_entry() {
    let mut core: ElementCore<u32> = ElementCore::new(size(10, 10));
    let mut prog = TestProgram::new();
    let (_, _) = core.run_update(&mut prog, true, Vec::new());
    assert_eq!(prog.last_cursor, Some(CursorPos { x: -1000, y: -1000 }));

    let _ = core.pointer_enter(CursorPos { x: 4500, y: 2250 });
    let (_, _) = core.run_update(&mut prog, true, Vec::new());
    assert_eq!(prog.last_cursor, Some(CursorPos { x: 4500, y: 2250 }));
}

#[test]
fn render_plan_without_matching_output_is_empty() {
    let mut core: ElementCore<u32> = ElementCore::new(size(30, 30));
    core.output_enter(1, scale(1000));
    // no output displays the element at 2.0: no render element, no error
    assert_eq!(core.render_plan(scale(2000)), RenderStep::NoBuffer);
    assert_eq!(core.render_plan(scale(1000)), RenderStep::Redraw(30, 30));
}

#[test]
fn render_plan_redraws_once_then_reuses() {
    let mut core: ElementCore<u32> = ElementCore::new(size(30, 30));
    core.output_enter(1, scale(1000));
    assert_eq!(core.render_plan(scale(1000)), RenderStep::Redraw(30, 30));
    core.note_drawn(scale(1000));
    assert_eq!(core.render_plan(scale(1000)), RenderStep::Reuse(30, 30));
}

#[test]
fn degenerate_size_suppresses_redraw_but_stays_dirty() {
    let mut core: ElementCore<u32> = ElementCore::new(size(0, 30));
    core.output_enter(1, scale(1000));
    assert_eq!(core.render_plan(scale(1000)), RenderStep::Reuse(0, 30));
    assert!(slot_dims(&core, 1000).2, "a degenerate buffer keeps its dirty flag");

    let mut prog = TestProgram::new();
    let (_, _) = core.resize(&mut prog, size(40, 30), Vec::new());
    assert_eq!(core.render_plan(scale(1000)), RenderStep::Redraw(40, 30));
}

#[test]
fn fixed_element_queries() {
    let core: ElementCore<u32> = ElementCore::new(size(11, 22));
    assert_eq!(core.bbox(), size(11, 22));
    assert!(core.is_in_input_region(CursorPos { x: 999_000, y: 999_000 }));
    assert_eq!(core.z_index(), iced_element::element::SHELL_Z_INDEX);
    assert!(core.alive());
}

#[test]
fn fresh_element_state() {
    let core: ElementCore<u32> = ElementCore::new(size(5, 6));
    assert_eq!(core.cursor, None);
    assert_eq!(core.theme, ThemeKind::Dark);
    assert!(core.outputs.is_empty());
    assert!(core.queue.is_empty());
    assert_eq!(core.buffer_count(), 0);
}

#[test]
fn refresh_recomputes_after_an_output_scale_change() {
    let mut core: ElementCore<u32> = ElementCore::new(size(40, 40));
    core.output_enter(1, scale(1000));
    assert!(core.has_buffer(scale(1000)));

    // the host output switched to a 2.0 scale; the stored entry follows,
    // and refresh prunes the stale buffer and ensures the new one
    core.outputs[0].scale = scale(2000);
    core.refresh();
    assert!(!core.has_buffer(scale(1000)));
    assert!(core.has_buffer(scale(2000)));
    assert_eq!(slot_dims(&core, 2000), (80, 80, true));
}

#[test]
fn refresh_keeps_live_buffers_untouched() {
    let mut core: ElementCore<u32> = ElementCore::new(size(40, 40));
    core.output_enter(1, scale(1000));
    core.note_drawn(scale(1000));
    core.refresh();
    assert_eq!(slot_dims(&core, 1000), (40, 40, false), "refresh must not dirty a live buffer");
}

#[test]
fn update_decision_skip_keeps_the_queue() {
    let mut core: ElementCore<u32> = ElementCore::new(size(10, 10));
    core.queue.push(42);
    let decision = core.begin_update(false, Vec::new());
    assert!(matches!(decision, UpdateDecision::Skip));
    assert_eq!(core.queue, vec![42]);
}

#[test]
fn update_decision_run_consumes_queue_and_drained() {
    let mut core: ElementCore<u32> = ElementCore::new(size(10, 10));
    core.queue.push(1);
    let decision = core.begin_update(false, vec![2, 3]);
    match decision {
        UpdateDecision::Run(inputs) => {
            assert_eq!(inputs.messages, vec![1, 2, 3]);
            assert_eq!(inputs.size, size(10, 10));
            assert_eq!(inputs.cursor, CursorPos { x: -1000, y: -1000 });
        }
        UpdateDecision::Skip => panic!("drained messages must force a pass"),
    }
    assert!(core.queue.is_empty());
}

#[test]
fn deferred_tasks_are_split_from_returned_actions() {
    let mut core: ElementCore<u32> = ElementCore::new(size(10, 10));
    let mut prog = TestProgram::new();
    prog.emit = vec![
        iced_element::effects::ProgramEffect::Deferred(5),
        iced_element::effects::ProgramEffect::Immediate(-7),
    ];
    let (tasks, actions) = core.run_update(&mut prog, true, Vec::new());
    assert_eq!(tasks, vec![5]);
    assert_eq!(actions, vec![-7]);
}
