use media_queue::tool_output::{parse_progress, parse_title, signals_conversion};
use media_queue::text::u64_to_string;
use media_queue::downloader::failure_message;

#[test]
fn progress_line_is_parsed_in_hundredths() {
    assert_eq!(parse_progress("[download]  45.2%"), Some(4520));
    assert_eq!(parse_progress("[download] 100%"), Some(10000));
    assert_eq!(parse_progress("[download]\t7%"), Some(700));
    assert_eq!(parse_progress("[download]  45.%"), Some(4500));
    assert_eq!(parse_progress("[download]  45.25% of 3MiB"), Some(4525));
    assert_eq!(parse_progress("[download]  45.259%"), Some(4525));
}

#[test]
fn progress_is_capped_at_one_hundred_percent() {
    assert_eq!(parse_progress("[download] 250%"), Some(10000));
    assert_eq!(parse_progress("[download] 100.5%"), Some(10000));
    assert_eq!(parse_progress("[download] 99999999999999999999999%"), Some(10000));
}

#[test]
fn malformed_progress_lines_are_ignored() {
    assert_eq!(parse_progress("[download] abc%"), None);
    assert_eq!(parse_progress("[download]45%"), None);
    assert_eq!(parse_progress("[download]  45.2"), None);
    assert_eq!(parse_progress("no tag 45%"), None);
    assert_eq!(parse_progress(""), None);
}

#[test]
fn later_tag_occurrence_can_still_match() {
    assert_eq!(parse_progress("[download][download] 12%"), Some(1200));
}

#[test]
fn title_line_is_parsed() {
    assert_eq!(parse_title("[info] My Song: Downloading webpage"), Some("My Song".to_string()));
    assert_eq!(parse_title("[info] a: Downloading"), Some("a".to_string()));
    assert_eq!(parse_title("[info] a:b: Downloading"), Some("a:b".to_string()));
}

#[test]
fn title_line_without_marker_is_ignored() {
    assert_eq!(parse_title("[info] My Song"), None);
    assert_eq!(parse_title("[info] My Song: Uploading"), None);
    assert_eq!(parse_title("My Song: Downloading"), None);
    assert_eq!(parse_title(""), None);
}

#[test]
fn conversion_markers_are_recognized() {
    assert!(signals_conversion("[ExtractAudio] Destination: song.mp3"));
    assert!(signals_conversion("Merging formats into out.mkv"));
    assert!(!signals_conversion("[download] 10%"));
}

#[test]
fn numbers_render_in_decimal() {
    assert_eq!(u64_to_string(0), "0");
    assert_eq!(u64_to_string(7), "7");
    assert_eq!(u64_to_string(45210), "45210");
}

#[test]
fn failure_messages_name_the_exit_code() {
    assert_eq!(failure_message(Some(1)), "yt-dlp failed with exit code: 1");
    assert_eq!(failure_message(Some(-3)), "yt-dlp failed with exit code: -3");
    assert_eq!(failure_message(None), "yt-dlp failed with exit code: unknown");
}
