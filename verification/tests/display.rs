use minau::control::Span;
use minau::display::{
    lines_for_width, lines_needed, string_info, Debounce, MetaData, TagInfo, RESTORE_DELAY_MS,
};

fn tag(title: Option<&str>, artist: Option<&str>, album: Option<&str>) -> TagInfo {
    TagInfo {
        title: title.map(|s| s.to_string()),
        artist: artist.map(|s| s.to_string()),
        album: album.map(|s| s.to_string()),
        pictures: vec![],
    }
}

#[test]
fn line_names_album_artist_and_title() {
    let m = MetaData::new(Some(tag(Some("Song"), Some("Band"), Some("Record"))), Span::from_secs(1));
    assert_eq!(string_info("file.mp3", &m), "[Record] Band - Song");
    let m = MetaData::new(Some(tag(Some("Song"), None, Some("Record"))), Span::from_secs(1));
    assert_eq!(string_info("file.mp3", &m), "[Record] Song");
    let m = MetaData::new(Some(tag(Some("Song"), Some("Band"), None)), Span::from_secs(1));
    assert_eq!(string_info("file.mp3", &m), "Band - Song");
    let m = MetaData::new(Some(tag(Some("Song"), None, None)), Span::from_secs(1));
    assert_eq!(string_info("file.mp3", &m), "Song");
}

#[test]
fn line_is_the_file_name_where_no_title_is_known() {
    let m = MetaData::new(Some(tag(None, Some("Band"), Some("Record"))), Span::from_secs(1));
    assert_eq!(string_info("file.mp3", &m), "file.mp3");
    let m = MetaData::new(None, Span::from_secs(1));
    assert_eq!(string_info("file.mp3", &m), "file.mp3");
}

#[test]
fn title_from_outside_goes_first() {
    let mut m = MetaData::new(Some(tag(Some("Song"), Some("Band"), None)), Span::from_secs(1));
    assert_eq!(m.title(), Some("Song".to_string()));
    m.set_title(Some("Listed".to_string()));
    assert_eq!(m.title(), Some("Listed".to_string()));
    assert_eq!(string_info("file.mp3", &m), "Band - Listed");
    m.set_title(None);
    assert_eq!(m.title(), Some("Song".to_string()));
    let mut bare = MetaData::new(None, Span::from_secs(1));
    assert_eq!(bare.title(), None);
    bare.set_title(Some("Listed".to_string()));
    assert_eq!(string_info("file.mp3", &bare), "Listed");
}

#[test]
fn tags_are_handed_out_as_they_are() {
    let mut t = tag(Some("Song"), Some("Band"), Some("Record"));
    t.pictures = vec![vec![1, 2, 3], vec![4]];
    let m = MetaData::new(Some(t), Span { secs: 185, nanos: 5 });
    assert_eq!(m.artist(), Some("Band".to_string()));
    assert_eq!(m.album(), Some("Record".to_string()));
    assert_eq!(m.duration(), Span { secs: 185, nanos: 5 });
    assert_eq!(m.picture(), Some(vec![1, 2, 3]));
    let none = MetaData::new(None, Span::from_secs(0));
    assert_eq!(none.artist(), None);
    assert_eq!(none.album(), None);
    assert_eq!(none.picture(), None);
    let empty = MetaData::new(Some(tag(None, None, None)), Span::from_secs(0));
    assert_eq!(empty.picture(), None);
}

#[test]
fn lines_are_the_width_over_the_columns_rounded_up() {
    assert_eq!(lines_for_width(0, 80), 1);
    assert_eq!(lines_for_width(1, 80), 1);
    assert_eq!(lines_for_width(80, 80), 1);
    assert_eq!(lines_for_width(81, 80), 2);
    assert_eq!(lines_for_width(160, 80), 2);
    assert_eq!(lines_for_width(161, 80), 3);
    assert_eq!(lines_for_width(65535, 1), 65535);
    assert_eq!(lines_for_width(65535, 65535), 1);
    // the width is counted in 16 bits
    assert_eq!(lines_for_width(65536, 80), 1);
    assert_eq!(lines_for_width(65536 + 81, 80), 2);
}

#[test]
fn wide_characters_take_two_columns() {
    assert_eq!(lines_needed("abcd", 4), 1);
    assert_eq!(lines_needed("abcde", 4), 2);
    // four letters of two columns each
    assert_eq!(lines_needed("日本語の", 4), 2);
    assert_eq!(lines_needed("日本語の", 8), 1);
    assert_eq!(lines_needed("", 80), 1);
}

#[test]
fn only_the_latest_ticket_is_current() {
    assert_eq!(RESTORE_DELAY_MS, 2400);
    let mut d = Debounce::new();
    let first = d.issue();
    assert!(d.is_current(first));
    let second = d.issue();
    assert_ne!(first, second);
    assert!(!d.is_current(first));
    assert!(d.is_current(second));
    let third = d.issue();
    assert!(!d.is_current(second));
    assert!(d.is_current(third));
}
