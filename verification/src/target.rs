//! What an item of the command line or of a playlist is: a playlist, a local
//! file, or a remote stream.

use vstd::prelude::*;
use crate::text::same_text;
use crate::text::str_view;

verus! {

#[verifier::external_type_specification]
#[verifier::external_body]
pub struct ExUrl(url::Url);

/// What a text is when read as a URL.
#[derive(Debug, Clone, PartialEq, Eq)]
pub enum Address {
    /// No URL at all.
    Plain,
    /// A URL that stands for this path on the local machine.
    File(String),
    /// Any other URL.
    Remote,
}

/// An [`Address`] as plain values.
pub enum AddressView {
    Plain,
    File(Seq<char>),
    Remote,
}

impl View for Address {
    type V = AddressView;

    open spec fn view(&self) -> AddressView {
        match self {
            Address::Plain => AddressView::Plain,
            Address::File(path) => AddressView::File(path@),
            Address::Remote => AddressView::Remote,
        }
    }
}

/// What is to be played, and how.
#[derive(Debug, Clone, PartialEq, Eq)]
pub enum Target {
    /// A playlist at this path: its entries are played in turn.
    Playlist(String),
    /// A local file at this path.
    File(String),
    /// A remote stream at this address.
    Url(String),
}

/// A [`Target`] as plain values.
pub enum TargetView {
    Playlist(Seq<char>),
    File(Seq<char>),
    Url(Seq<char>),
}

impl View for Target {
    type V = TargetView;

    open spec fn view(&self) -> TargetView {
        match self {
            Target::Playlist(path) => TargetView::Playlist(path@),
            Target::File(path) => TargetView::File(path@),
            Target::Url(url) => TargetView::Url(url@),
        }
    }
}

/// Whether `url::Url::parse` takes `text` for a URL.
pub uninterp spec fn parses_as_url(text: Seq<char>) -> bool;

/// Parses `text` with `url::Url::parse`; nothing where that fails. Whether it
/// succeeds depends on the text alone; nothing is claimed of the URL.
#[verifier::external_body]
fn parse_url(text: &str) -> (url: Option<url::Url>)
    ensures
        url is Some <==> parses_as_url(text@),
{
    match url::Url::parse(text) {
        Ok(url) => Some(url),
        Err(_) => None,
    }
}

/// Asks `Url::to_file_path` for the local path that `url` stands for, as
/// text; nothing where it stands for none. The answer depends on the
/// platform, so nothing is claimed of it.
#[verifier::external_body]
fn file_path_of(url: &url::Url) -> (path: Option<String>) {
    match url.to_file_path() {
        Ok(path) => Some(path.to_string_lossy().to_string()),
        Err(_) => None,
    }
}

/// Whether a file extension marks a playlist.
pub open spec fn is_playlist(extension: Option<Seq<char>>) -> bool {
    extension == Some("m3u"@) || extension == Some("m3u8"@)
}

/// What `item` is, given its file extension and what it is as a URL. A
/// playlist by its extension, whatever else it may be; else the local file
/// that a file URL stands for; else a remote stream, if it is a URL; else a
/// local file of that name.
pub open spec fn routed(
    item: Seq<char>,
    extension: Option<Seq<char>>,
    address: AddressView,
) -> TargetView {
    if is_playlist(extension) {
        TargetView::Playlist(item)
    } else {
        match address {
            AddressView::File(path) => TargetView::File(path),
            AddressView::Remote => TargetView::Url(item),
            AddressView::Plain => TargetView::File(item),
        }
    }
}

/// Whether a file extension marks a playlist.
pub fn playlist_extension(extension: Option<&str>) -> (b: bool)
    ensures
        b == is_playlist(
            str_view(extension),
        ),
{
    match extension {
        Some(extension) => same_text(extension, "m3u") || same_text(extension, "m3u8"),
        None => false,
    }
}

/// What `item` is, given its file extension and what it is as a URL.
pub fn route_with(item: &str, extension: Option<&str>, address: Address) -> (target: Target)
    ensures
        target@ == routed(
            item@,
            str_view(extension),
            address@,
        ),
{
    if playlist_extension(extension) {
        Target::Playlist(item.to_owned())
    } else {
        match address {
            Address::File(path) => Target::File(path),
            Address::Remote => Target::Url(item.to_owned()),
            Address::Plain => Target::File(item.to_owned()),
        }
    }
}

/// What `item` is, given its file extension. A playlist by its extension;
/// else, where the URL parser does not take it for a URL, a local file of
/// that name; else a remote stream at that address, unless the URL stands for
/// a local path, which is for the platform to say.
pub fn route(item: &str, extension: Option<&str>) -> (target: Target)
    ensures
        exists|address: AddressView|
            target@ == #[trigger] routed(item@, str_view(extension), address) && (address
                is Plain <==> !parses_as_url(item@)),
        is_playlist(str_view(extension)) ==> target@ == TargetView::Playlist(item@),
        !is_playlist(str_view(extension)) && !parses_as_url(item@) ==> target@
            == TargetView::File(item@),
        !is_playlist(str_view(extension)) && parses_as_url(item@) ==> target@
            == TargetView::Url(item@) || target@ is File,
{
    let address = match parse_url(item) {
        Some(url) => match file_path_of(&url) {
            Some(path) => Address::File(path),
            None => Address::Remote,
        },
        None => Address::Plain,
    };
    route_with(item, extension, address)
}

} // verus!
