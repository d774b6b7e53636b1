use minau::net::{
    content_length, next_hop_with, resolve_with, HeaderValue, Hop, NetworkError, Redirects,
    ResponseHead, UriParts, MAX_REDIRECTS,
};
use minau::remote::UrlPlayer;
use minau::source::Selection;

fn text(s: &str) -> HeaderValue {
    HeaderValue::Text(s.to_string())
}

fn redirect(to: &str) -> ResponseHead {
    ResponseHead { status: 302, location: text(to), content_length: HeaderValue::Missing }
}

fn ok(length: HeaderValue) -> ResponseHead {
    ResponseHead { status: 200, location: HeaderValue::Missing, content_length: length }
}

#[test]
fn two_redirects_then_a_body_of_a_thousand_bytes() {
    let mut fetch = Redirects::start("http://radio.example/live").unwrap();
    assert_eq!(
        fetch.next_hop(&redirect("http://a.example/one")),
        Ok(Hop::Follow("http://a.example/one".to_string()))
    );
    assert_eq!(
        fetch.next_hop(&redirect("https://b.example/two")),
        Ok(Hop::Follow("https://b.example/two".to_string()))
    );
    assert_eq!(fetch.hops(), 2);
    let hop = fetch.next_hop(&ok(text("1000")));
    assert_eq!(hop, Ok(Hop::Accept { total_bytes: Some(1000) }));
    assert_eq!(fetch.hops(), 2);

    let chosen = Selection { track_id: 0, sample_rate: 44100, channels: 2 };
    let mut player: UrlPlayer<f32> = UrlPlayer::new(chosen, 48000, 100, Some(1000));
    assert_eq!(player.get_total_bytes(), Some(1000));
    assert_eq!(player.get_downloaded_bytes(), 0);
    let mut expected = 0u64;
    for chunk in [300usize, 300, 300, 100] {
        player.record_chunk(chunk);
        expected += chunk as u64;
        assert_eq!(player.get_downloaded_bytes(), expected);
    }
    assert_eq!(player.get_downloaded_bytes(), 1000);
    assert_eq!(player.get_download_progress(), Some(1000));
}

#[test]
fn eleven_redirects_are_one_too_many() {
    let mut fetch = Redirects::start("http://radio.example/live").unwrap();
    for n in 0..MAX_REDIRECTS {
        let to = format!("http://radio.example/hop{}", n);
        assert_eq!(fetch.next_hop(&redirect(&to)), Ok(Hop::Follow(to.clone())));
    }
    assert_eq!(fetch.hops(), 10);
    assert_eq!(
        fetch.next_hop(&redirect("http://radio.example/hop10")),
        Err(NetworkError::TooManyRedirects)
    );
    assert_eq!(fetch.hops(), 10);
    // the limit comes before any look at the location
    let bare = ResponseHead {
        status: 301,
        location: HeaderValue::Missing,
        content_length: HeaderValue::Missing,
    };
    assert_eq!(fetch.next_hop(&bare), Err(NetworkError::TooManyRedirects));
    // a body is still taken
    assert_eq!(fetch.next_hop(&ok(HeaderValue::Missing)), Ok(Hop::Accept { total_bytes: None }));
}

#[test]
fn relative_redirect_is_resolved_against_the_first_authority() {
    let mut fetch = Redirects::start("https://radio.example:8443/live?x=1").unwrap();
    assert_eq!(
        fetch.next_hop(&redirect("/other/stream.mp3")),
        Ok(Hop::Follow("https://radio.example:8443/other/stream.mp3".to_string()))
    );
    // later relative redirects still go by the address first asked
    assert_eq!(
        fetch.next_hop(&redirect("http://elsewhere.example/a")),
        Ok(Hop::Follow("http://elsewhere.example/a".to_string()))
    );
    assert_eq!(
        fetch.next_hop(&redirect("/b")),
        Ok(Hop::Follow("https://radio.example:8443/b".to_string()))
    );
    let mut plain = Redirects::start("http://user@host.example/x").unwrap();
    assert_eq!(
        plain.next_hop(&redirect("/y")),
        Ok(Hop::Follow("http://user@host.example/y".to_string()))
    );
}

#[test]
fn address_must_be_a_uri() {
    assert!(matches!(Redirects::start("http://exa mple.com/"), Err(NetworkError::InvalidUrl)));
    assert!(matches!(Redirects::start(""), Err(NetworkError::InvalidUrl)));
    assert!(Redirects::start("/just/a/path").is_ok());
    // a path has no authority to resolve against
    let mut fetch = Redirects::start("/just/a/path").unwrap();
    assert_eq!(fetch.next_hop(&redirect("/elsewhere")), Err(NetworkError::InvalidUrl));
    assert_eq!(fetch.hops(), 0);
    // a redirect to something that is no URI
    let mut fetch = Redirects::start("http://radio.example/").unwrap();
    assert_eq!(fetch.next_hop(&redirect("http://bad host/")), Err(NetworkError::InvalidUrl));
    assert_eq!(fetch.hops(), 0);
}

#[test]
fn redirect_needs_a_readable_location() {
    let mut fetch = Redirects::start("http://radio.example/").unwrap();
    let mut head = redirect("x");
    head.location = HeaderValue::Missing;
    assert_eq!(fetch.next_hop(&head), Err(NetworkError::MissingLocation));
    head.location = HeaderValue::Opaque;
    assert_eq!(fetch.next_hop(&head), Err(NetworkError::InvalidLocation));
    assert_eq!(fetch.hops(), 0);
}

#[test]
fn statuses_that_are_neither_success_nor_redirect_fail() {
    for status in [100u16, 199, 400, 404, 410, 500, 503, 999] {
        let mut fetch = Redirects::start("http://radio.example/").unwrap();
        let head = ResponseHead { status, location: text("/x"), content_length: text("5") };
        assert_eq!(fetch.next_hop(&head), Err(NetworkError::HttpError(status)));
    }
    for status in [200u16, 204, 206, 299] {
        let mut fetch = Redirects::start("http://radio.example/").unwrap();
        let head = ResponseHead { status, location: text("/x"), content_length: text("5") };
        assert_eq!(fetch.next_hop(&head), Ok(Hop::Accept { total_bytes: Some(5) }));
    }
    for status in [300u16, 301, 302, 307, 308, 399] {
        let mut fetch = Redirects::start("http://radio.example/").unwrap();
        let head = ResponseHead { status, location: text("/x"), content_length: text("5") };
        assert_eq!(fetch.next_hop(&head), Ok(Hop::Follow("http://radio.example/x".to_string())));
    }
}

#[test]
fn announced_length_is_optional() {
    assert_eq!(content_length(&HeaderValue::Missing), None);
    assert_eq!(content_length(&HeaderValue::Opaque), None);
    assert_eq!(content_length(&text("")), None);
    assert_eq!(content_length(&text("0")), Some(0));
    assert_eq!(content_length(&text("1000")), Some(1000));
    assert_eq!(content_length(&text("+12")), Some(12));
    assert_eq!(content_length(&text("-12")), None);
    assert_eq!(content_length(&text(" 12")), None);
    assert_eq!(content_length(&text("12, 12")), None);
    assert_eq!(content_length(&text("18446744073709551615")), Some(u64::MAX));
    assert_eq!(content_length(&text("18446744073709551616")), None);
}

#[test]
fn resolve_with_goes_by_what_the_first_address_parsed_to() {
    let full = UriParts { scheme: Some("http".to_string()), authority: Some("h:1".to_string()) };
    let bare = UriParts { scheme: None, authority: Some("h".to_string()) };
    let none = UriParts { scheme: Some("http".to_string()), authority: None };
    assert_eq!(resolve_with("/p?q", Some(&full)), Ok("http://h:1/p?q".to_string()));
    assert_eq!(resolve_with("p", Some(&full)), Ok("http://h:1p".to_string()));
    assert_eq!(resolve_with("/p", Some(&bare)), Ok("https://h/p".to_string()));
    assert_eq!(resolve_with("/p", Some(&none)), Err(NetworkError::InvalidUrl));
    assert_eq!(resolve_with("/p", None), Err(NetworkError::InvalidUrl));
    // what begins with "http" stands for itself, whatever the first address was
    assert_eq!(resolve_with("http://x/y", None), Ok("http://x/y".to_string()));
    assert_eq!(resolve_with("https://x/y", Some(&full)), Ok("https://x/y".to_string()));
    assert_eq!(resolve_with("httpfoo", Some(&full)), Ok("httpfoo".to_string()));
    assert_eq!(resolve_with("HTTP://x", Some(&full)), Ok("http://h:1HTTP://x".to_string()));
}

#[test]
fn next_hop_with_decides_for_every_outcome() {
    let head = redirect("/x");
    assert_eq!(
        next_hop_with(0, &head, Ok("http://h/x".to_string()), true),
        Ok(Hop::Follow("http://h/x".to_string()))
    );
    assert_eq!(
        next_hop_with(9, &head, Ok("http://h/x".to_string()), true),
        Ok(Hop::Follow("http://h/x".to_string()))
    );
    assert_eq!(
        next_hop_with(10, &head, Ok("http://h/x".to_string()), true),
        Err(NetworkError::TooManyRedirects)
    );
    assert_eq!(
        next_hop_with(0, &head, Ok("http://h/x".to_string()), false),
        Err(NetworkError::InvalidUrl)
    );
    assert_eq!(
        next_hop_with(0, &head, Err(NetworkError::InvalidUrl), false),
        Err(NetworkError::InvalidUrl)
    );
    assert_eq!(
        next_hop_with(3, &ok(text("77")), Err(NetworkError::MissingLocation), false),
        Ok(Hop::Accept { total_bytes: Some(77) })
    );
}
