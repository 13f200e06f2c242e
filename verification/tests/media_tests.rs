use media_relay::media::{
    all_subscribed, audio_mime_for_ext, classify_binary_name, mode_is_executable,
    select_video_stream, subscription_required, thumbnail_decision, use_remuxed_file, BinaryKind,
    MemberStatus, Stream, ThumbnailDecision, THUMBNAIL_INITIAL_QUALITY,
};
use media_relay::text::{contains_str, lower_eq, str_eq};
use media_relay::types::{
    get_latest_ffmpeg_url, get_latest_yt_dlp_url, parse_command, Command, VersionManager,
    YoutubeFetcher,
};

#[test]
fn audio_extensions_pick_their_mime() {
    assert_eq!(audio_mime_for_ext("mp3"), "audio/mpeg");
    assert_eq!(audio_mime_for_ext("m4a"), "audio/mp4");
    assert_eq!(audio_mime_for_ext("M4A"), "audio/mp4");
    assert_eq!(audio_mime_for_ext("aac"), "audio/aac");
    assert_eq!(audio_mime_for_ext("ogg"), "audio/ogg");
    assert_eq!(audio_mime_for_ext("weird"), "audio/mpeg");
}

#[test]
fn the_first_stream_wins_and_the_container_patches_its_duration() {
    assert_eq!(select_video_stream(&vec![], None), None);
    let streams = vec![
        Stream { width: 1280, height: 720, duration_ms: 0 },
        Stream { width: 640, height: 360, duration_ms: 9000 },
    ];
    let s = select_video_stream(&streams, Some(31500)).unwrap();
    assert_eq!((s.width, s.height, s.duration_ms), (1280, 720, 31500));
    let with_own = vec![Stream { width: 100, height: 50, duration_ms: 1234 }];
    let s2 = select_video_stream(&with_own, Some(9)).unwrap();
    assert_eq!(s2.duration_ms, 1234);
}

#[test]
fn thumbnails_recompress_until_small_or_out_of_steps() {
    assert_eq!(
        thumbnail_decision(100 * 1024, THUMBNAIL_INITIAL_QUALITY),
        ThumbnailDecision::Accept
    );
    assert_eq!(
        thumbnail_decision(300 * 1024, THUMBNAIL_INITIAL_QUALITY),
        ThumbnailDecision::Recompress(5)
    );
    assert_eq!(
        thumbnail_decision(300 * 1024, 31),
        ThumbnailDecision::AcceptOversized
    );
}

#[test]
fn only_a_successful_container_remux_is_used() {
    assert!(use_remuxed_file(true, true));
    assert!(!use_remuxed_file(true, false));
    assert!(!use_remuxed_file(false, true));
}

#[test]
fn extracted_binaries_classify_by_name() {
    assert_eq!(classify_binary_name("FFMPEG.exe"), Some(BinaryKind::Encoder));
    assert_eq!(classify_binary_name("ffprobe"), Some(BinaryKind::Probe));
    assert_eq!(
        classify_binary_name("ffmpeg-ffprobe-combined"),
        Some(BinaryKind::Probe)
    );
    assert_eq!(classify_binary_name("readme.txt"), None);
}

#[test]
fn executable_bits_are_read_from_the_mode() {
    assert!(mode_is_executable(0o755));
    assert!(mode_is_executable(0o100));
    assert!(!mode_is_executable(0o644));
}

#[test]
fn subscription_needs_every_channel() {
    assert!(all_subscribed(&vec![]));
    assert!(all_subscribed(&vec![
        MemberStatus::Member,
        MemberStatus::Administrator,
        MemberStatus::Owner,
    ]));
    assert!(!all_subscribed(&vec![
        MemberStatus::Member,
        MemberStatus::Left,
    ]));
    assert!(!all_subscribed(&vec![MemberStatus::Banned]));
}

#[test]
fn the_subscription_switch_defaults_on() {
    assert!(subscription_required(&Some("true".to_string())));
    assert!(!subscription_required(&Some("false".to_string())));
    assert!(!subscription_required(&Some("TRUE".to_string())));
    assert!(subscription_required(&None));
}

#[test]
fn text_helpers_compare_and_search() {
    assert!(str_eq("abc", "abc"));
    assert!(!str_eq("abc", "abd"));
    assert!(lower_eq("AbC", "abc"));
    assert!(!lower_eq("AbC", "abd"));
    assert!(contains_str("needle in haystack", "needle"));
    assert!(contains_str("xxabcxx", "abc"));
    assert!(!contains_str("xxabcxx", "abd"));
    assert!(contains_str("anything", ""));
}

#[test]
fn command_words_parse() {
    assert_eq!(parse_command("/help"), Some(Command::Help));
    assert_eq!(parse_command("/start"), Some(Command::Start));
    assert_eq!(parse_command("/other"), None);
}

#[test]
fn fetcher_and_version_manager_hold_their_paths() {
    let f = YoutubeFetcher::new(
        "lib/yt-dlp".to_string(),
        "output".to_string(),
        "lib/ffmpeg".to_string(),
    )
    .unwrap();
    assert_eq!(f.yt_dlp_path, "lib/yt-dlp");
    assert_eq!(f.output_dir, "output");
    assert_eq!(f.ffmpeg_dir, "lib/ffmpeg");
    let m = VersionManager::new("lib/.versions".to_string());
    assert_eq!(m.storage_dir, "lib/.versions");
}

#[test]
fn release_urls_name_the_platform_builds() {
    assert!(get_latest_yt_dlp_url().ends_with("yt-dlp_linux"));
    assert!(get_latest_ffmpeg_url().ends_with("ffmpeg-git-amd64-static.tar.xz"));
}
