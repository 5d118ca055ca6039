use audion::presence::{
    is_valid_url, presence_plan, sanitize_text, PresenceData, PresenceTimes,
};

fn data() -> PresenceData {
    PresenceData {
        song_title: "Song".to_string(),
        artist: "Artist".to_string(),
        album: Some("Album".to_string()),
        large_text: None,
        cover_url: Some("https://example.com/cover.jpg".to_string()),
        current_time: Some(30_000),
        duration: Some(180_000),
        is_playing: true,
        show_pause_icon: false,
        status_display_text: String::new(),
    }
}

#[test]
fn url_validity() {
    assert!(is_valid_url("http://example.com/a.png"));
    assert!(is_valid_url("https://example.com/a.png"));
    assert!(!is_valid_url("ftp://example.com/a.png"));
    assert!(!is_valid_url("example.com"));
    assert!(!is_valid_url(""));
}

#[test]
fn sanitize_passes_short_text() {
    assert_eq!(sanitize_text("Hello", "fallback"), "Hello");
    assert_eq!(sanitize_text("  padded  ", "fallback"), "padded");
}

#[test]
fn sanitize_uses_fallback_and_unknown() {
    assert_eq!(sanitize_text("   ", "Fallback Name"), "Fallback Name");
    assert_eq!(sanitize_text("", "  "), "Unknown");
}

#[test]
fn sanitize_truncates_long_text() {
    let long = "x".repeat(200);
    let out = sanitize_text(&long, "f");
    assert_eq!(out.len(), 128);
    assert!(out.ends_with("..."));
    assert_eq!(&out[..125], &long[..125]);
}

#[test]
fn sanitize_truncates_at_character_boundaries() {
    // 45 three-byte characters take 135 bytes; the cut keeps whole
    // characters under the 125-byte mark before adding the ellipsis
    let long = "\u{20ac}".repeat(45);
    let out = sanitize_text(&long, "f");
    assert_eq!(out.len(), 41 * 3 + 3);
    assert!(out.ends_with("..."));
    assert_eq!(out.chars().take_while(|&c| c == '\u{20ac}').count(), 41);
}

#[test]
fn sanitize_pads_single_character() {
    assert_eq!(sanitize_text("a", "f"), "a ");
}

#[test]
fn plan_texts() {
    let p = presence_plan(&data(), 1_000_000);
    assert_eq!(p.details, "Song");
    assert_eq!(p.state_text, "Artist \u{2022} Album");
    assert!(p.activity_name.is_none());
    // album doubles as the large-image hover text
    assert_eq!(p.large_text, "Album");
}

#[test]
fn plan_without_album() {
    let mut d = data();
    d.album = None;
    let p = presence_plan(&d, 1_000_000);
    assert_eq!(p.state_text, "Artist");
    assert_eq!(p.large_text, "Song");
}

#[test]
fn plan_custom_status() {
    let mut d = data();
    d.status_display_text = "  Listening party  ".to_string();
    let p = presence_plan(&d, 1_000_000);
    assert_eq!(p.activity_name.as_deref(), Some("Listening party"));
}

#[test]
fn plan_timestamps() {
    let p = presence_plan(&data(), 1_000_000);
    assert_eq!(p.times, PresenceTimes::Range(970_000, 1_150_000));

    let mut d = data();
    d.is_playing = false;
    let p = presence_plan(&d, 1_000_000);
    assert_eq!(p.times, PresenceTimes::StartOnly(1_000_000));

    d.duration = None;
    let p = presence_plan(&d, 1_000_000);
    assert_eq!(p.times, PresenceTimes::NoTimes);
}

#[test]
fn plan_artwork() {
    let p = presence_plan(&data(), 1_000_000);
    assert_eq!(p.large_image_cover.as_deref(), Some("https://example.com/cover.jpg"));
    assert!(p.show_small_logo);

    // an invalid cover URL falls back to the logo, without the small overlay
    let mut d = data();
    d.cover_url = Some("not-a-url".to_string());
    let p = presence_plan(&d, 1_000_000);
    assert!(p.large_image_cover.is_none());
    assert!(!p.show_small_logo);

    let mut d = data();
    d.cover_url = None;
    let p = presence_plan(&d, 1_000_000);
    assert!(p.large_image_cover.is_none());
    assert!(!p.show_small_logo);
}

#[test]
fn plan_pause_icon_text() {
    let mut d = data();
    d.is_playing = false;
    d.show_pause_icon = true;
    let p = presence_plan(&d, 1_000_000);
    assert_eq!(p.large_text, "\u{23f8} ");
}
