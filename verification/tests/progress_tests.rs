use media_relay::progress::{
    aux_part_percent, byte_upload_percent, download_scale, filled_cells, pipeline_percents,
    upload_part_percent, ProgressBar, MIN_UPDATE_INTERVAL_MS,
};

#[test]
fn download_phase_scales_into_its_slice() {
    assert_eq!(download_scale(0), 0);
    assert_eq!(download_scale(423), 33);
    assert_eq!(download_scale(1000), 80);
}

#[test]
fn upload_phase_scales_into_its_slice() {
    assert_eq!(upload_part_percent(1, 20), 80);
    assert_eq!(upload_part_percent(7, 20), 86);
    assert_eq!(upload_part_percent(20, 20), 99);
    assert_eq!(aux_part_percent(1, 2), 39);
    assert_eq!(aux_part_percent(2, 2), 79);
    assert_eq!(byte_upload_percent(0, 100), 80);
    assert_eq!(byte_upload_percent(100, 100), 100);
}

#[test]
fn bar_cells_fill_with_percent() {
    assert_eq!(filled_cells(0), 0);
    assert_eq!(filled_cells(7), 1);
    assert_eq!(filled_cells(99), 19);
    assert_eq!(filled_cells(100), 20);
}

#[test]
fn one_request_emits_a_non_decreasing_sequence() {
    let raw = vec![100, 50, 300, 250, 1000];
    let emitted = pipeline_percents(&raw, 4);
    assert_eq!(emitted, vec![8, 24, 80, 80, 84, 89, 94, 99, 100]);
    for w in emitted.windows(2) {
        assert!(w[0] <= w[1]);
    }
}

#[test]
fn regressing_raw_readings_are_dropped() {
    let raw = vec![500, 400, 300];
    let emitted = pipeline_percents(&raw, 1);
    assert_eq!(emitted, vec![40, 80, 99, 100]);
}

#[test]
fn throttle_suppresses_only_rapid_intermediate_edits() {
    let mut bar = ProgressBar::new(7);
    assert!(bar.should_emit(10, 0));
    bar.on_started(900, 1000);
    assert!(!bar.should_emit(50, 1000 + MIN_UPDATE_INTERVAL_MS - 1));
    assert!(bar.should_emit(50, 1000 + MIN_UPDATE_INTERVAL_MS));
    assert!(bar.should_emit(100, 1001));
}

#[test]
fn deleting_the_message_is_idempotent() {
    let mut bar = ProgressBar::new(7);
    bar.on_started(900, 1000);
    assert_eq!(bar.message_id, Some(900));
    bar.on_deleted();
    assert_eq!(bar.message_id, None);
    bar.on_deleted();
    assert_eq!(bar.message_id, None);
}

#[test]
fn the_silent_variant_starts_without_a_message() {
    let bar = ProgressBar::new_silent();
    assert!(bar.silent);
    assert_eq!(bar.message_id, None);
    let loud = ProgressBar::new(3);
    assert!(!loud.silent);
    assert_eq!(loud.chat_id, 3);
}
