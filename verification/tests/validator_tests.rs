use media_queue::validator::{is_valid_youtube_url, validate_urls};

#[test]
fn test_valid_urls() {
    assert!(is_valid_youtube_url("https://www.youtube.com/watch?v=dQw4w9WgXcQ"));
    assert!(is_valid_youtube_url("https://youtube.com/watch?v=dQw4w9WgXcQ"));
    assert!(is_valid_youtube_url("http://www.youtube.com/watch?v=dQw4w9WgXcQ"));
    assert!(is_valid_youtube_url("https://youtu.be/dQw4w9WgXcQ"));
    assert!(is_valid_youtube_url("www.youtube.com/watch?v=dQw4w9WgXcQ"));
    assert!(is_valid_youtube_url("youtube.com/watch?v=dQw4w9WgXcQ"));
    assert!(is_valid_youtube_url("youtu.be/dQw4w9WgXcQ"));
}

#[test]
fn test_invalid_urls() {
    assert!(!is_valid_youtube_url("https://www.google.com"));
    assert!(!is_valid_youtube_url("https://vimeo.com/123456"));
    assert!(!is_valid_youtube_url("not a url"));
    assert!(!is_valid_youtube_url(""));
}

#[test]
fn validate_keeps_trimmed_valid_entries() {
    let urls = vec![
        "  https://youtu.be/abc123  ".to_string(),
        "".to_string(),
        "   ".to_string(),
        "youtube.com/watch?v=xyz".to_string(),
    ];
    let out = validate_urls(urls).unwrap();
    assert_eq!(out, vec!["https://youtu.be/abc123".to_string(), "youtube.com/watch?v=xyz".to_string()]);
}

#[test]
fn validate_reports_invalid_entries() {
    let urls = vec![
        "https://www.google.com".to_string(),
        "youtu.be/ok-id".to_string(),
        "not a url".to_string(),
    ];
    let err = validate_urls(urls).unwrap_err();
    assert_eq!(err, "Invalid YouTube URLs:\nhttps://www.google.com\nnot a url");
}

#[test]
fn validate_rejects_empty_input() {
    let err = validate_urls(Vec::new()).unwrap_err();
    assert_eq!(err, "No valid URLs provided");

    let err = validate_urls(vec!["   ".to_string(), "".to_string()]).unwrap_err();
    assert_eq!(err, "No valid URLs provided");
}
