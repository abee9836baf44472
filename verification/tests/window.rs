use imgviewer::window::{
    clamp_geometry, clamp_i64_to_i32, effective_dpi, initial_outer_bounds, native_bounds, outer_probe_rect,
    post_move_correction, saved_origin, state_length_allowed, usable_saved_state, window_state_action,
    work_area_from_rect, NativeRect, SavedWindowState, StateFileAction, StateFileRead, WorkArea,
    MAX_WINDOW_STATE_BYTES,
};

#[test]
fn removed_monitor_moves_window_into_primary_work_area() {
    let areas = [WorkArea { x: 0, y: 0, width: 1920, height: 1040 }];
    assert_eq!(clamp_geometry((2500, 100), (1100, 750), &areas), Some(((820, 100), (1100, 750))));
}

#[test]
fn completely_offscreen_window_prefers_primary_in_multi_monitor_layout() {
    let areas = [
        WorkArea { x: 0, y: 0, width: 1920, height: 1040 },
        WorkArea { x: 1920, y: 0, width: 1920, height: 1040 },
    ];
    assert_eq!(clamp_geometry((8000, 4000), (1100, 750), &areas), Some(((820, 290), (1100, 750))));
}

#[test]
fn oversized_saved_window_is_shrunk_to_work_area() {
    let areas = [WorkArea { x: -1280, y: 0, width: 1280, height: 720 }];
    assert_eq!(clamp_geometry((-1300, -50), (2000, 1200), &areas), Some(((-1280, 0), (1280, 720))));
}

#[test]
fn existing_visible_geometry_is_unchanged() {
    let areas = [WorkArea { x: 0, y: 0, width: 1920, height: 1040 }];
    assert_eq!(clamp_geometry((100, 100), (1100, 750), &areas), Some(((100, 100), (1100, 750))));
}

#[test]
fn i64_values_are_safely_clamped_for_win32_calls() {
    assert_eq!(clamp_i64_to_i32(i64::MAX), i32::MAX);
    assert_eq!(clamp_i64_to_i32(i64::MIN), i32::MIN);
    assert_eq!(clamp_i64_to_i32(42), 42);
}

// Additional scenarios.

#[test]
fn no_work_area_gives_no_geometry() {
    assert_eq!(clamp_geometry((0, 0), (10, 10), &[]), None);
}

#[test]
fn window_overlapping_the_second_monitor_more_stays_there() {
    let areas = [
        WorkArea { x: 0, y: 0, width: 1920, height: 1040 },
        WorkArea { x: 1920, y: 0, width: 1920, height: 1040 },
    ];
    assert_eq!(clamp_geometry((3000, 500), (1100, 750), &areas), Some(((2740, 290), (1100, 750))));
}

fn saved(maximized: bool) -> SavedWindowState {
    SavedWindowState {
        width: 1100,
        height: 750,
        x: 10,
        y: 20,
        prev_x: 30,
        prev_y: 40,
        maximized,
        visible: true,
        decorated: true,
        fullscreen: false,
    }
}

#[test]
fn maximized_state_restores_its_previous_origin() {
    assert_eq!(saved_origin(saved(false)), (10, 20));
    assert_eq!(saved_origin(saved(true)), (30, 40));
}

#[test]
fn empty_saved_size_is_ignored_and_current_window_used() {
    let mut state = saved(false);
    state.width = 0;
    assert_eq!(usable_saved_state(Some(state)), None);
    let current = NativeRect { left: 5, top: 6, right: 105, bottom: 206 };
    assert_eq!(initial_outer_bounds(Some(state), current, None), (5, 6, 100, 200));
}

#[test]
fn saved_geometry_uses_the_frame_adjusted_size() {
    let current = NativeRect { left: 0, top: 0, right: 10, bottom: 10 };
    let adjusted = NativeRect { left: -8, top: -31, right: 1108, bottom: 758 };
    assert_eq!(initial_outer_bounds(Some(saved(false)), current, Some(adjusted)), (10, 20, 1116, 789));
    assert_eq!(initial_outer_bounds(Some(saved(false)), current, None), (10, 20, 1100, 750));
}

#[test]
fn probe_and_native_bounds_saturate_to_win32_ranges() {
    let probe = outer_probe_rect((i64::MAX - 1, 0, 10, 10));
    assert_eq!(probe, NativeRect { left: i32::MAX, top: 0, right: i32::MAX, bottom: 10 });
    assert_eq!(native_bounds((1, 2), (u64::MAX, 3)), (1, 2, i32::MAX, 3));
}

#[test]
fn empty_monitor_work_area_is_refused() {
    assert!(work_area_from_rect(NativeRect { left: 0, top: 0, right: 0, bottom: 10 }).is_err());
    assert_eq!(
        work_area_from_rect(NativeRect { left: -10, top: 0, right: 10, bottom: 20 }).unwrap(),
        WorkArea { x: -10, y: 0, width: 20, height: 20 }
    );
}

#[test]
fn post_move_rectangle_is_corrected_only_when_outside() {
    let area = WorkArea { x: 0, y: 0, width: 1920, height: 1040 };
    assert_eq!(post_move_correction(NativeRect { left: 100, top: 100, right: 1200, bottom: 850 }, area), None);
    assert_eq!(
        post_move_correction(NativeRect { left: 1800, top: 100, right: 2900, bottom: 850 }, area),
        Some(((820, 100), (1100, 750)))
    );
}

#[test]
fn monitor_dpi_falls_back_to_96() {
    assert_eq!(effective_dpi(0, 144), 144);
    assert_eq!(effective_dpi(-1, 144), 96);
    assert_eq!(effective_dpi(0, 0), 96);
}

#[test]
fn window_state_file_limit_and_actions() {
    assert!(state_length_allowed(MAX_WINDOW_STATE_BYTES));
    assert!(!state_length_allowed(MAX_WINDOW_STATE_BYTES + 1));
    assert_eq!(window_state_action(StateFileRead::Read { parses: true }), StateFileAction::Keep);
    assert_eq!(window_state_action(StateFileRead::Read { parses: false }), StateFileAction::Remove);
    assert_eq!(window_state_action(StateFileRead::TooLarge), StateFileAction::Remove);
    assert_eq!(window_state_action(StateFileRead::NotFound), StateFileAction::Keep);
    assert_eq!(window_state_action(StateFileRead::Failed), StateFileAction::Fail);
}

#[test]
fn oversized_windows_and_far_work_areas_are_clamped_as_by_wrapping_and_saturating() {
    let areas = [WorkArea { x: 0, y: 0, width: 1920, height: 1040 }];
    assert_eq!(clamp_geometry((0, 0), (u64::MAX, u64::MAX), &areas), Some(((0, 0), (1920, 1040))));
    let far = [
        WorkArea { x: 0, y: 0, width: 1920, height: 1040 },
        WorkArea { x: i64::MAX - 30, y: 0, width: 20, height: 1040 },
    ];
    assert_eq!(clamp_geometry((i64::MAX - 12, 10), (20, 4), &far), Some(((i64::MAX - 30, 10), (20, 4))));
}
