use minau::playlist::{parse, M3uEntry};

fn entry(path: &str, title: Option<&str>, duration: Option<i32>) -> M3uEntry {
    M3uEntry { path: path.to_string(), title: title.map(|t| t.to_string()), duration }
}

#[test]
fn plain_list_keeps_every_line_that_is_no_comment() {
    let text = "a.mp3\n  b.flac  \r\n\n# a comment\nhttp://example.com/c.ogg\n";
    assert_eq!(
        parse(text),
        vec![
            entry("a.mp3", None, None),
            entry("b.flac", None, None),
            entry("http://example.com/c.ogg", None, None),
        ]
    );
}

#[test]
fn plain_list_ignores_extinf_lines() {
    let text = "first.mp3\n#EXTINF:12,Title\nsecond.mp3";
    assert_eq!(parse(text), vec![entry("first.mp3", None, None), entry("second.mp3", None, None)]);
}

#[test]
fn empty_text_has_no_entries() {
    assert_eq!(parse(""), Vec::<M3uEntry>::new());
    assert_eq!(parse("\n\n  \n"), Vec::<M3uEntry>::new());
    assert_eq!(parse("#EXTM3U"), Vec::<M3uEntry>::new());
}

#[test]
fn extended_list_carries_title_and_length() {
    let text = "#EXTM3U\n#EXTINF:123,Artist - Song\nsong.mp3\n#EXTINF:-1,Live stream\nhttp://radio.example/live\n";
    assert_eq!(
        parse(text),
        vec![
            entry("song.mp3", Some("Artist - Song"), Some(123)),
            entry("http://radio.example/live", Some("Live stream"), Some(-1)),
        ]
    );
}

#[test]
fn title_and_length_serve_one_entry_only() {
    let text = "#EXTM3U\n#EXTINF:5,One\na.mp3\nb.mp3\n";
    assert_eq!(parse(text), vec![entry("a.mp3", Some("One"), Some(5)), entry("b.mp3", None, None)]);
}

#[test]
fn later_extinf_line_replaces_the_earlier_one() {
    let text = "#EXTM3U\n#EXTINF:5,One\n#EXTINF:x\n#EXTVLCOPT:opt\na.mp3\n";
    assert_eq!(parse(text), vec![entry("a.mp3", None, None)]);
}

#[test]
fn extinf_without_comma_has_no_title() {
    let text = "#EXTM3U\n#EXTINF:  42  \na.mp3\n";
    assert_eq!(parse(text), vec![entry("a.mp3", None, Some(42))]);
}

#[test]
fn extinf_title_keeps_later_commas_and_inner_space() {
    let text = "#EXTM3U\n#EXTINF:7, A, B and C \na.mp3\n";
    assert_eq!(parse(text), vec![entry("a.mp3", Some(" A, B and C"), Some(7))]);
}

#[test]
fn extinf_length_must_be_a_plain_integer() {
    for (line, expected) in [
        ("#EXTINF:+9,t", Some(9)),
        ("#EXTINF:-0,t", Some(0)),
        ("#EXTINF:007,t", Some(7)),
        ("#EXTINF:2147483647,t", Some(i32::MAX)),
        ("#EXTINF:-2147483648,t", Some(i32::MIN)),
        ("#EXTINF:2147483648,t", None),
        ("#EXTINF:-2147483649,t", None),
        ("#EXTINF:99999999999999999999999999,t", None),
        ("#EXTINF:1.5,t", None),
        ("#EXTINF:12 ,t", None),
        ("#EXTINF:,t", None),
        ("#EXTINF:-,t", None),
        ("#EXTINF:+,t", None),
        ("#EXTINF:1e3,t", None),
    ] {
        let text = format!("#EXTM3U\n{}\na.mp3\n", line);
        assert_eq!(parse(&text), vec![entry("a.mp3", Some("t"), expected)], "{}", line);
    }
}

#[test]
fn header_must_open_the_text() {
    let text = "\n#EXTM3U\n#EXTINF:5,One\na.mp3\n";
    assert_eq!(parse(text), vec![entry("a.mp3", None, None)]);
    let text = "#EXTM3U8 extra\n#EXTINF:5,One\na.mp3\n";
    assert_eq!(parse(text), vec![entry("a.mp3", Some("One"), Some(5))]);
}

#[test]
fn unicode_space_is_trimmed() {
    let text = "\u{3000}\u{a0}song name.mp3\u{2003}\t\n";
    assert_eq!(parse(text), vec![entry("song name.mp3", None, None)]);
}

#[test]
fn parse_agrees_with_the_standard_library_on_lines() {
    let text = "#EXTM3U\r\n#EXTINF:1,a\r\n x.mp3 \r\n\r\n#c\r\ny.mp3\r";
    let got = parse(text);
    assert_eq!(got, vec![entry("x.mp3", Some("a"), Some(1)), entry("y.mp3", None, None)]);
}
