use audion::track::{
    content_hash_input, create_fallback_metadata, get_filename_without_ext, is_aac_file,
    parse_index_number, resolve_album_artist, resolve_index_number, resolve_title,
    DownloadAudioInput,
};

#[test]
fn test_get_filename_without_ext() {
    assert_eq!(
        get_filename_without_ext("/music/song.flac"),
        Some("song".to_string())
    );
    assert_eq!(
        get_filename_without_ext("artist - track.mp3"),
        Some("artist - track".to_string())
    );
}

#[test]
fn filename_edge_cases() {
    assert_eq!(get_filename_without_ext("noext"), Some("noext".to_string()));
    assert_eq!(get_filename_without_ext("/a/.hidden"), Some(".hidden".to_string()));
    assert_eq!(get_filename_without_ext("a.b.c"), Some("a.b".to_string()));
    assert_eq!(get_filename_without_ext("/dir/"), None);
    assert_eq!(get_filename_without_ext(""), None);
}

#[test]
fn index_number_parsing() {
    assert_eq!(parse_index_number("1/19"), Some(1));
    assert_eq!(parse_index_number("7"), Some(7));
    assert_eq!(parse_index_number(" 12 /20"), Some(12));
    assert_eq!(parse_index_number("-3"), Some(-3));
    assert_eq!(parse_index_number("x/2"), None);
    assert_eq!(parse_index_number(""), None);
    assert_eq!(parse_index_number("99999999999/2"), None);
}

#[test]
fn fallback_metadata() {
    let t = create_fallback_metadata("/music/song.flac");
    assert_eq!(t.path, "/music/song.flac");
    assert_eq!(t.title, Some("song".to_string()));
    assert!(t.artist.is_none());
    assert!(t.duration.is_none());
    assert!(t.content_hash.is_none());
}

#[test]
fn title_and_album_artist_fallbacks() {
    assert_eq!(
        resolve_title("/m/x.mp3", Some("Real Title".to_string())),
        Some("Real Title".to_string())
    );
    assert_eq!(resolve_title("/m/x.mp3", None), Some("x".to_string()));

    let artist = Some("Artist".to_string());
    assert_eq!(
        resolve_album_artist(Some("AA".to_string()), &artist),
        Some("AA".to_string())
    );
    assert_eq!(resolve_album_artist(None, &artist), Some("Artist".to_string()));
    assert_eq!(resolve_album_artist(None, &None), None);
}

#[test]
fn index_number_prefers_numeric_tag() {
    let text = "3/12".to_string();
    assert_eq!(resolve_index_number(Some(5), Some(&text)), Some(5));
    assert_eq!(resolve_index_number(None, Some(&text)), Some(3));
    assert_eq!(resolve_index_number(None, None), None);
}

#[test]
fn aac_detection() {
    assert!(is_aac_file("/music/song.aac"));
    assert!(is_aac_file("/music/SONG.AAC"));
    assert!(is_aac_file("relative.Aac"));
    assert!(!is_aac_file("/music/song.flac"));
    assert!(!is_aac_file("/music/aac"));
    assert!(!is_aac_file("/music/song.aac.mp3"));
    assert!(!is_aac_file("/music/song."));
}

#[test]
fn download_input_carries_tag_values() {
    let input = DownloadAudioInput {
        url: "https://example.com/a.mp3".to_string(),
        path: "/music/a.mp3".to_string(),
        title: Some("T".to_string()),
        artist: None,
        album: None,
        album_artist: None,
        track_number: Some(4),
        cover_url: None,
    };
    assert!(!is_aac_file(&input.path));
    assert_eq!(input.track_number, Some(4));
}

#[test]
fn content_hash_input_normalizes() {
    let title = "  My Song  ".to_string();
    let artist = "ARTIST".to_string();
    assert_eq!(
        content_hash_input(Some(&title), Some(&artist), None, Some(215)),
        "my song|artist||215"
    );
    assert_eq!(content_hash_input(None, None, None, None), "|||");
    assert_eq!(
        content_hash_input(None, None, None, Some(-7)),
        "|||-7"
    );
}
