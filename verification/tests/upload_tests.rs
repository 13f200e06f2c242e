use media_relay::errors::TransferError;
use media_relay::pool::QualityPreference;
use media_relay::upload::{SessionHandle, UploadEvent, UploadPhase, UploadState};
use media_relay::upload::{
    fresh_session, part_size_for, plan_transfer, replay_upload, single_part_fast_path,
    total_parts, use_persistent_session, FileKind, TransferRoute, PART_SIZE_AUX,
    PART_SIZE_PRIMARY, SIMPLE_UPLOAD_LIMIT,
};

#[test]
fn part_sizes_match_the_protocol() {
    assert_eq!(part_size_for(FileKind::Primary), 512 * 1024);
    assert_eq!(part_size_for(FileKind::Auxiliary), 128 * 1024);
    assert_eq!(PART_SIZE_PRIMARY, 512 * 1024);
    assert_eq!(PART_SIZE_AUX, 128 * 1024);
}

#[test]
fn part_counts_cover_the_file() {
    assert_eq!(total_parts(0, PART_SIZE_PRIMARY), 0);
    assert_eq!(total_parts(1, PART_SIZE_PRIMARY), 1);
    assert_eq!(total_parts(PART_SIZE_PRIMARY, PART_SIZE_PRIMARY), 1);
    assert_eq!(total_parts(PART_SIZE_PRIMARY + 1, PART_SIZE_PRIMARY), 2);
    assert_eq!(total_parts(10 * 1024 * 1024, PART_SIZE_PRIMARY), 20);
}

#[test]
fn small_files_take_the_single_part_fast_path() {
    assert!(single_part_fast_path(512 * 1024));
    assert!(!single_part_fast_path(512 * 1024 + 1));
}

#[test]
fn the_size_threshold_picks_the_route() {
    assert!(!use_persistent_session(SIMPLE_UPLOAD_LIMIT));
    assert!(use_persistent_session(SIMPLE_UPLOAD_LIMIT + 1));
    assert_eq!(
        plan_transfer(SIMPLE_UPLOAD_LIMIT + 1, QualityPreference::Compatible),
        (TransferRoute::PersistentSession, false)
    );
    assert_eq!(
        plan_transfer(1024, QualityPreference::AudioOnly),
        (TransferRoute::SimpleUpload, true)
    );
}

#[test]
fn sessions_cover_their_file() {
    let s = fresh_session(10 * 1024 * 1024, FileKind::Primary);
    assert_eq!(s.total_parts, 20);
    assert_eq!(s.part_size, 512 * 1024);
    let aux = fresh_session(200 * 1024, FileKind::Auxiliary);
    assert_eq!(aux.total_parts, 2);
    assert_eq!(aux.part_size, 128 * 1024);
}

#[test]
fn a_clean_upload_sends_each_part_once() {
    let t = replay_upload(10 * 1024 * 1024, FileKind::Primary, 111, 222, None);
    assert_eq!(t.total_parts, 20);
    assert_eq!(t.reconnects, 0);
    assert_eq!(t.file_id, 111);
    assert_eq!(t.sent.len(), 20);
    for (i, p) in t.sent.iter().enumerate() {
        assert_eq!(p.file_id, 111);
        assert_eq!(p.part, i as u64);
    }
}

#[test]
fn one_loss_at_part_seven_restarts_from_zero_under_a_fresh_token() {
    let t = replay_upload(10 * 1024 * 1024, FileKind::Primary, 111, 222, Some(7));
    assert_eq!(t.total_parts, 20);
    assert_eq!(t.reconnects, 1);
    assert_eq!(t.file_id, 222);
    assert_eq!(t.sent.len(), 7 + 20);
    for i in 0..7 {
        assert_eq!(t.sent[i].file_id, 111);
        assert_eq!(t.sent[i].part, i as u64);
    }
    for i in 0..20 {
        assert_eq!(t.sent[7 + i].file_id, 222);
        assert_eq!(t.sent[7 + i].part, i as u64);
    }
}

#[test]
fn a_loss_on_the_last_part_still_completes() {
    let t = replay_upload(10 * 1024 * 1024, FileKind::Primary, 5, 6, Some(19));
    assert_eq!(t.reconnects, 1);
    assert_eq!(t.file_id, 6);
    assert_eq!(t.sent.len(), 19 + 20);
}

#[test]
fn keepalive_reconnects_only_on_a_failed_ping() {
    assert!(media_relay::upload::keepalive_wants_reconnect(false));
    assert!(!media_relay::upload::keepalive_wants_reconnect(true));
}

#[test]
fn exhausting_the_reconnect_budget_fails_with_connection_loss() {
    let mut st = UploadState::start(1024 * 1024, FileKind::Primary, 9);
    for _ in 0..3 {
        st.step(UploadEvent::ConnectionLost, 10);
        assert_eq!(st.phase, UploadPhase::Reconnecting);
        st.step(UploadEvent::ReconnectDone, 10);
        assert_eq!(st.phase, UploadPhase::Uploading { next_part: 0 });
    }
    st.step(UploadEvent::ConnectionLost, 10);
    assert_eq!(st.phase, UploadPhase::Failed(TransferError::ConnectionLoss));
}

#[test]
fn a_rejected_part_is_a_permanent_rejection() {
    let mut st = UploadState::start(1024 * 1024, FileKind::Primary, 9);
    st.step(UploadEvent::PartRejected, 10);
    assert_eq!(
        st.phase,
        UploadPhase::Failed(TransferError::PermanentRejection)
    );
}

#[test]
fn a_rate_limit_propagates_at_once_without_a_reconnect() {
    let mut st = UploadState::start(1024 * 1024, FileKind::Primary, 9);
    st.step(UploadEvent::OtherError(TransferError::RateLimited(42)), 10);
    assert_eq!(st.phase, UploadPhase::Failed(TransferError::RateLimited(42)));
    assert_eq!(st.reconnects, 0);
}

#[test]
fn a_swap_stales_every_older_handle() {
    let mut handle = SessionHandle::new();
    let before = handle.current();
    handle.swap();
    assert_ne!(handle.current(), before);
    assert_eq!(handle.current(), 1);
}
