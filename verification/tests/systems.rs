use std::collections::HashMap;

use ratty::inline::{InlineAnchor, InlineObject};
use ratty::presentation::TerminalPresentationMode;
use ratty::systems::{
    active_mobius_progress, after_upload, begin_pump, brightness_source, cursor_cell, cursor_model_shown,
    finish_mobius_transition, infer_upward_scroll, is_renderable, mobius_step, needs_inline_sync,
    needs_redraw, needs_warp_update, object_color, planes_visible, pump_step, renderable_ids,
    request_exit, sprites_visible, start_shutdown, text_cursor, AfterUpload, BrightnessSource,
    MobiusProgress, MobiusStep, MobiusTransitionDirection, ModelLoadState, PumpAction, PumpEvent,
    PumpState,
};

const FLAT: TerminalPresentationMode = TerminalPresentationMode::Flat2d;
const PLANE: TerminalPresentationMode = TerminalPresentationMode::Plane3d;
const STRIP: TerminalPresentationMode = TerminalPresentationMode::Mobius3d;

fn rows(texts: &[&str]) -> Vec<String> {
    texts.iter().map(|text| (*text).to_owned()).collect()
}

#[test]
fn exits_are_requested_once() {
    let mut requested = false;
    assert!(!request_exit(&mut requested, false));
    assert!(request_exit(&mut requested, true));
    assert!(requested);
    assert!(!request_exit(&mut requested, true));
    let mut started = false;
    assert!(!start_shutdown(&mut started, false));
    assert!(start_shutdown(&mut started, true));
    assert!(!start_shutdown(&mut started, true));
}

#[test]
fn output_is_pumped_until_it_runs_dry() {
    let mut state = PumpState { processed_output: false, pty_disconnected: false };
    assert_eq!(pump_step(&mut state, PumpEvent::Empty), PumpAction::Stop);
    assert!(!state.processed_output);
    assert_eq!(pump_step(&mut state, PumpEvent::Chunk), PumpAction::Feed);
    assert!(state.processed_output);
    assert_eq!(pump_step(&mut state, PumpEvent::Disconnected), PumpAction::Exit);
    assert!(state.pty_disconnected);
    assert_eq!(pump_step(&mut state, PumpEvent::Disconnected), PumpAction::Stop);
}

#[test]
fn upward_scrolls_are_inferred() {
    let before = rows(&["a", "b", "c", "d"]);
    assert_eq!(infer_upward_scroll(&before, &rows(&["c", "d", "x", "y"])), 2);
    assert_eq!(infer_upward_scroll(&before, &rows(&["b", "c", "d", "e"])), 1);
    assert_eq!(infer_upward_scroll(&before, &before), 0);
    assert_eq!(infer_upward_scroll(&before, &rows(&["x", "y", "z", "w"])), 0);
    assert_eq!(infer_upward_scroll(&rows(&["", "", ""]), &rows(&["", "", ""])), 2);
    assert_eq!(infer_upward_scroll(&before, &rows(&["d", "x"])), 0);
    assert_eq!(infer_upward_scroll(&rows(&[]), &before), 0);
}

#[test]
fn inline_objects_are_shown_by_mode() {
    assert!(sprites_visible(FLAT) && !planes_visible(FLAT));
    assert!(!sprites_visible(PLANE) && planes_visible(PLANE));
    assert!(!sprites_visible(STRIP) && planes_visible(STRIP));
}

#[test]
fn redraws_follow_requests_and_modes() {
    let loaded = ModelLoadState { first_frame_uploaded: true, loaded: true };
    assert!(needs_redraw(true, FLAT, true, &loaded));
    assert!(!needs_redraw(false, FLAT, false, &loaded));
    assert!(needs_redraw(false, PLANE, false, &loaded));
    assert!(!needs_redraw(false, PLANE, true, &loaded));
    assert!(needs_redraw(false, FLAT, true, &ModelLoadState::default()));
}

#[test]
fn cursor_models_are_spawned_after_the_first_frame() {
    let mut load = ModelLoadState::default();
    assert_eq!(after_upload(&mut load, true), AfterUpload::RequestRedraw);
    assert_eq!(after_upload(&mut load, true), AfterUpload::SpawnCursorModel);
    assert_eq!(after_upload(&mut load, true), AfterUpload::Nothing);
    let mut load = ModelLoadState { first_frame_uploaded: true, loaded: false };
    assert_eq!(after_upload(&mut load, false), AfterUpload::Nothing);
    assert!(load.loaded);
}

#[test]
fn text_cursors_give_way_to_the_model() {
    assert_eq!(text_cursor(false, false, 3, 7), Some((7, 3)));
    assert_eq!(text_cursor(true, false, 3, 7), None);
    assert_eq!(text_cursor(false, true, 3, 7), None);
}

#[test]
fn warped_terminals_keep_syncing_objects() {
    assert!(needs_inline_sync(PLANE, true, true, false));
    assert!(!needs_inline_sync(PLANE, true, false, false));
    assert!(!needs_inline_sync(FLAT, true, true, false));
    assert!(needs_inline_sync(FLAT, false, false, true));
}

#[test]
fn anchors_on_the_terminal_are_rendered() {
    assert!(is_renderable(0, 1, 24));
    assert!(is_renderable(23, 9, 24));
    assert!(!is_renderable(24, 1, 24));
    assert!(!is_renderable(0, 0, 24));
    assert!(!is_renderable(3, 0xffff_fff0, 24));
    let mut anchors: HashMap<u32, InlineAnchor<()>> = HashMap::new();
    let mut objects: HashMap<u32, InlineObject<(), (), u8>> = HashMap::new();
    for id in 1..5 {
        let row = (id as u16) * 10;
        anchors.insert(id, InlineAnchor { row, col: 0, columns: 1, rows: 1, style: () });
        if id != 2 {
            objects.insert(id, InlineObject::RgpObject(0));
        }
    }
    let mut ids = renderable_ids(&anchors, &objects, 35);
    ids.sort();
    assert_eq!(ids, vec![1, 3]);
}

#[test]
fn objects_without_a_color_are_white() {
    assert_eq!(object_color(None), [255, 255, 255]);
    assert_eq!(object_color(Some([1, 2, 3])), [1, 2, 3]);
}

#[test]
fn brightness_comes_from_the_nearest_root() {
    assert_eq!(
        brightness_source(&[5, 6, 7], &[7], &[6]),
        Some(BrightnessSource::Cursor)
    );
    assert_eq!(
        brightness_source(&[5, 7, 6], &[7], &[6, 7]),
        Some(BrightnessSource::Object(7))
    );
    assert_eq!(brightness_source(&[5], &[7], &[6]), None);
    assert_eq!(brightness_source(&[], &[7], &[6]), None);
}

#[test]
fn warps_are_updated_when_needed() {
    assert!(!needs_warp_update(FLAT, true, true, true));
    assert!(!needs_warp_update(PLANE, false, false, false));
    assert!(needs_warp_update(PLANE, false, true, false));
    assert!(needs_warp_update(PLANE, false, false, true));
    assert!(needs_warp_update(STRIP, false, false, false));
}

#[test]
fn mobius_transitions_are_stepped() {
    assert_eq!(mobius_step(FLAT, true), MobiusStep::Stop);
    assert_eq!(mobius_step(STRIP, false), MobiusStep::Wait);
    assert_eq!(mobius_step(STRIP, true), MobiusStep::Advance);
    assert_eq!(active_mobius_progress(PLANE, true), MobiusProgress::Flat);
    assert_eq!(active_mobius_progress(STRIP, true), MobiusProgress::Morphing);
    assert_eq!(active_mobius_progress(STRIP, false), MobiusProgress::Complete);
    let mut mode = STRIP;
    assert!(!finish_mobius_transition(&mut mode, MobiusTransitionDirection::Entering, PLANE));
    assert_eq!(mode, STRIP);
    assert!(finish_mobius_transition(&mut mode, MobiusTransitionDirection::Exiting, PLANE));
    assert_eq!(mode, PLANE);
}

#[test]
fn cursor_models_follow_the_cursor() {
    assert!(cursor_model_shown(FLAT, true, false, false));
    assert!(!cursor_model_shown(FLAT, true, true, true));
    assert!(cursor_model_shown(PLANE, true, true, true));
    assert!(!cursor_model_shown(PLANE, true, false, false));
    assert!(!cursor_model_shown(STRIP, false, false, true));
    assert_eq!(cursor_cell(3, 9, 24, 80), (9, 3));
    assert_eq!(cursor_cell(30, 90, 24, 80), (79, 23));
    assert_eq!(cursor_cell(1, 1, 0, 0), (0, 0));
}

#[test]
fn calls_of_the_pump_exit_once() {
    let calls = [(2, false), (0, false), (3, true), (0, true), (1, true)];
    let mut state = PumpState { processed_output: false, pty_disconnected: false };
    let mut exits = Vec::new();
    for (k, (chunks, closed)) in calls.into_iter().enumerate() {
        begin_pump(&mut state);
        assert!(!state.processed_output);
        for _ in 0..chunks {
            assert_eq!(pump_step(&mut state, PumpEvent::Chunk), PumpAction::Feed);
        }
        let end = if closed { PumpEvent::Disconnected } else { PumpEvent::Empty };
        if pump_step(&mut state, end) == PumpAction::Exit {
            exits.push(k);
        }
        assert_eq!(state.processed_output, chunks > 0);
    }
    assert_eq!(exits, vec![2]);
}

#[test]
fn anchors_without_an_object_are_skipped() {
    let mut anchors: HashMap<u32, InlineAnchor<()>> = HashMap::new();
    let mut objects: HashMap<u32, InlineObject<(), (), u8>> = HashMap::new();
    let tall = InlineAnchor { row: 1, col: 0, columns: 1, rows: 0x7fff_ffff, style: () };
    anchors.insert(1, tall);
    anchors.insert(2, InlineAnchor { row: 2, col: 0, columns: 1, rows: 1, style: () });
    objects.insert(2, InlineObject::RgpObject(0));
    assert_eq!(renderable_ids(&anchors, &objects, 10), vec![2]);
}
