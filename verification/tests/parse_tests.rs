use media_relay::fetchparse::{
    parse_progress_line, parse_size_string, remove_ansi_codes, str_chars, DEFAULT_PROGRESS_SIZE,
};

#[test]
fn size_words_read_in_binary_units() {
    assert_eq!(parse_size_string("10.00MiB"), 10 * 1024 * 1024);
    assert_eq!(parse_size_string("10MB"), 10 * 1024 * 1024);
    assert_eq!(parse_size_string("1.5GiB"), 1024 * 1024 * 1024);
    assert_eq!(parse_size_string("2GB"), 2 * 1024 * 1024 * 1024);
    assert_eq!(parse_size_string(" 3MiB "), 3 * 1024 * 1024);
}

#[test]
fn a_bare_number_counts_mebibytes() {
    assert_eq!(parse_size_string("42B"), 42 * 1024 * 1024);
    assert_eq!(parse_size_string("7"), 7 * 1024 * 1024);
}

#[test]
fn an_unreadable_number_counts_one_unit() {
    assert_eq!(parse_size_string("500KiB"), 1024 * 1024);
    assert_eq!(parse_size_string("junk"), 1024 * 1024);
    assert_eq!(parse_size_string(""), 1024 * 1024);
}

#[test]
fn a_tagged_line_reports_percent_and_size() {
    let r = parse_progress_line("[download]  42.3% of 10.00MiB at 2.00MiB/s ETA 00:05");
    assert_eq!(r, Some((423, 10 * 1024 * 1024)));
}

#[test]
fn an_estimated_size_reads_like_an_exact_one() {
    let r = parse_progress_line("[download]   7.0% of ~5MiB");
    assert_eq!(r, Some((70, 5 * 1024 * 1024)));
}

#[test]
fn a_bare_percent_counts_against_the_default_size() {
    let r = parse_progress_line("progress 55.5% done");
    assert_eq!(r, Some((555, DEFAULT_PROGRESS_SIZE)));
    let whole = parse_progress_line("100%");
    assert_eq!(whole, Some((1000, DEFAULT_PROGRESS_SIZE)));
}

#[test]
fn a_line_without_a_percent_reports_nothing() {
    assert_eq!(parse_progress_line("[download] Destination: out.mp4"), None);
    assert_eq!(parse_progress_line(""), None);
}

#[test]
fn color_codes_do_not_hide_the_reading() {
    let r = parse_progress_line("\u{1b}[2K[download]  12.5% of 8MiB");
    assert_eq!(r, Some((125, 8 * 1024 * 1024)));
}

#[test]
fn control_sequences_are_stripped_whole() {
    let raw = str_chars("a\u{1b}[31mred\u{1b}[0mb");
    let clean: String = remove_ansi_codes(&raw).into_iter().collect();
    assert_eq!(clean, "aredb");
}

#[test]
fn an_unfinished_escape_is_kept() {
    let raw = str_chars("tail\u{1b}[12");
    let clean: String = remove_ansi_codes(&raw).into_iter().collect();
    assert_eq!(clean, "tail\u{1b}[12");
}
