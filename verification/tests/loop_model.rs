use mterm::{
    apply_key_event, apply_modifiers, chars_size, clear_transient, fit_length, grid_replacement,
    intercept_key, render_recovery, run_iterations, KeyDisposition, KeyState, PresentResult,
    RenderRecovery, RenderStatus, TickResult, KEY_ESCAPE, KEY_RETURN,
};

fn idle_key() -> KeyState {
    KeyState { pressed: false, shift: false, ctrl: false, alt: false, vkey: None, code: None }
}

#[test]
fn no_changes_issue_no_renders() {
    let ticks = vec![TickResult::Continue, TickResult::Continue, TickResult::Continue];
    let presents = vec![
        PresentResult::NoChanges,
        PresentResult::NoChanges,
        PresentResult::NoChanges,
    ];
    let trace = run_iterations(&ticks, &presents);
    assert_eq!(trace.updates, 3);
    assert_eq!(trace.draws, 3);
    assert_eq!(trace.renders, 0);
}

#[test]
fn a_single_change_issues_exactly_one_render() {
    let ticks = vec![TickResult::Continue, TickResult::Continue, TickResult::Continue];
    let presents = vec![
        PresentResult::NoChanges,
        PresentResult::Changed,
        PresentResult::NoChanges,
    ];
    let trace = run_iterations(&ticks, &presents);
    assert_eq!(trace.renders, 1);
}

#[test]
fn stop_ends_the_loop_after_its_own_iteration() {
    let ticks = vec![
        TickResult::Continue,
        TickResult::Continue,
        TickResult::Stop,
        TickResult::Continue,
        TickResult::Continue,
    ];
    let presents = vec![PresentResult::Changed; 5];
    let trace = run_iterations(&ticks, &presents);
    // The iteration whose update returned Stop still draws; nothing runs
    // after it.
    assert_eq!(trace.updates, 3);
    assert_eq!(trace.draws, 3);
    assert_eq!(trace.renders, 3);
}

#[test]
fn an_empty_script_runs_nothing() {
    let trace = run_iterations(&vec![], &vec![]);
    assert_eq!(trace.updates, 0);
    assert_eq!(trace.draws, 0);
    assert_eq!(trace.renders, 0);
}

#[test]
fn escape_press_exits_whatever_the_modifiers() {
    let mut key = idle_key();
    key.pressed = true;
    key.vkey = Some(KEY_ESCAPE);
    assert!(matches!(intercept_key(&key), KeyDisposition::Exit));
    key.shift = true;
    key.ctrl = true;
    key.alt = true;
    assert!(matches!(intercept_key(&key), KeyDisposition::Exit));
}

#[test]
fn escape_release_is_forwarded() {
    let mut key = idle_key();
    key.pressed = false;
    key.vkey = Some(KEY_ESCAPE);
    assert!(matches!(intercept_key(&key), KeyDisposition::Forward));
}

#[test]
fn alt_return_toggles_fullscreen() {
    let mut key = idle_key();
    key.pressed = true;
    key.alt = true;
    key.vkey = Some(KEY_RETURN);
    assert!(matches!(intercept_key(&key), KeyDisposition::ToggleFullscreen));
    // Any extra modifier or a mapped character makes it an ordinary event.
    key.shift = true;
    assert!(matches!(intercept_key(&key), KeyDisposition::Forward));
    key.shift = false;
    key.code = Some('\n');
    assert!(matches!(intercept_key(&key), KeyDisposition::Forward));
}

#[test]
fn plain_return_is_forwarded() {
    let mut key = idle_key();
    key.pressed = true;
    key.vkey = Some(KEY_RETURN);
    assert!(matches!(intercept_key(&key), KeyDisposition::Forward));
}

#[test]
fn clearing_transient_state_keeps_the_modifiers() {
    let mut key = idle_key();
    apply_modifiers(&mut key, true, false, true);
    apply_key_event(&mut key, true, Some(65));
    assert!(key.pressed);
    assert_eq!(key.vkey, Some(65));
    clear_transient(&mut key);
    assert!(!key.pressed);
    assert_eq!(key.vkey, None);
    assert_eq!(key.code, None);
    assert!(key.shift);
    assert!(!key.ctrl);
    assert!(key.alt);
}

#[test]
fn grid_dimensions_divide_pixels_by_glyph_cells() {
    assert_eq!(chars_size(800, 600, 8, 16), (100, 37));
    assert_eq!(chars_size(7, 15, 8, 16), (0, 0));
}

#[test]
fn window_size_is_rounded_to_whole_cells_with_a_floor() {
    assert_eq!(fit_length(801, 8), 800);
    assert_eq!(fit_length(800, 8), 800);
    // At least 20 cells, whatever was requested.
    assert_eq!(fit_length(10, 8), 160);
}

#[test]
fn frame_buffer_is_replaced_only_when_the_grid_changes() {
    // 800x600 pixels over 8x16 cells is a 100x37 grid.
    assert_eq!(grid_replacement((100, 37), 800, 600, 8, 16), None);
    // A pixel change too small to alter the grid keeps the planes.
    assert_eq!(grid_replacement((100, 37), 807, 607, 8, 16), None);
    // A change of either grid dimension replaces them.
    assert_eq!(grid_replacement((100, 37), 808, 600, 8, 16), Some((101, 37)));
    assert_eq!(grid_replacement((100, 37), 800, 591, 8, 16), Some((100, 36)));
}

#[test]
fn render_outcomes_map_to_recovery_actions() {
    assert!(matches!(render_recovery(&RenderStatus::Completed), RenderRecovery::Proceed));
    assert!(matches!(
        render_recovery(&RenderStatus::SurfaceLost),
        RenderRecovery::RebuildSurface
    ));
    assert!(matches!(render_recovery(&RenderStatus::OutOfMemory), RenderRecovery::Halt));
    assert!(matches!(render_recovery(&RenderStatus::OtherError), RenderRecovery::Proceed));
}
