//! What is shown of a track: its tags, the line that names it, and the room
//! that line takes on the terminal.

use vstd::prelude::*;
use vstd::string::StringExecFns;
use vstd::arithmetic::div_mod::lemma_fundamental_div_mod;
use vstd::arithmetic::div_mod::lemma_mod_pos_bound;
use unicode_width::UnicodeWidthStr;
use crate::control::Span;
use crate::text::text_view;

verus! {

/// Time after which a message gives way to the track's line again, in
/// thousandths of a second.
pub const RESTORE_DELAY_MS: u64 = 2400;

/// The tags of a file, as far as they are shown.
#[derive(Debug, Clone, PartialEq, Eq)]
pub struct TagInfo {
    pub title: Option<String>,
    pub artist: Option<String>,
    pub album: Option<String>,
    /// The bytes of each embedded picture, in the order of the file.
    pub pictures: Vec<Vec<u8>>,
}

/// What is known of a track besides its audio.
#[derive(Debug, Clone, PartialEq, Eq)]
pub struct MetaData {
    /// The file's primary tag, if it has one.
    pub tag: Option<TagInfo>,
    /// Length of the track.
    pub length: Span,
    /// A title given from outside, which goes before the tag's.
    pub title: Option<String>,
}

/// A copy of an optional string.
fn copy_text(text: &Option<String>) -> (copy: Option<String>)
    ensures
        text_view(copy) == text_view(*text),
{
    match text {
        Some(text) => Some(text.clone()),
        None => None,
    }
}

impl MetaData {
    /// The title that is shown: the one given from outside, else the tag's.
    pub open spec fn spec_title(&self) -> Option<Seq<char>> {
        if self.title is Some {
            text_view(self.title)
        } else {
            match self.tag {
                Some(tag) => text_view(tag.title),
                None => None,
            }
        }
    }

    /// The tag's artist.
    pub open spec fn spec_artist(&self) -> Option<Seq<char>> {
        match self.tag {
            Some(tag) => text_view(tag.artist),
            None => None,
        }
    }

    /// The tag's album.
    pub open spec fn spec_album(&self) -> Option<Seq<char>> {
        match self.tag {
            Some(tag) => text_view(tag.album),
            None => None,
        }
    }

    /// The first embedded picture.
    pub open spec fn spec_picture(&self) -> Option<Seq<u8>> {
        match self.tag {
            Some(tag) => if tag.pictures@.len() > 0 {
                Some(tag.pictures@[0]@)
            } else {
                None
            },
            None => None,
        }
    }

    /// What was read of a file: its primary tag, if any, and its length.
    pub fn new(tag: Option<TagInfo>, length: Span) -> (metadata: Self)
        ensures
            metadata.tag == tag,
            metadata.length == length,
            metadata.title is None,
    {
        MetaData { tag, length, title: None }
    }

    /// Gives the track a title from outside, or takes it away again.
    pub fn set_title(&mut self, title: Option<String>)
        ensures
            final(self).title == title,
            final(self).tag == old(self).tag,
            final(self).length == old(self).length,
    {
        self.title = title;
    }

    /// The title that is shown: the one given from outside, else the tag's.
    pub fn title(&self) -> (title: Option<String>)
        ensures
            text_view(title) == self.spec_title(),
    {
        if self.title.is_some() {
            copy_text(&self.title)
        } else {
            match &self.tag {
                Some(tag) => copy_text(&tag.title),
                None => None,
            }
        }
    }

    /// The tag's artist.
    pub fn artist(&self) -> (artist: Option<String>)
        ensures
            text_view(artist) == self.spec_artist(),
    {
        match &self.tag {
            Some(tag) => copy_text(&tag.artist),
            None => None,
        }
    }

    /// The tag's album.
    pub fn album(&self) -> (album: Option<String>)
        ensures
            text_view(album) == self.spec_album(),
    {
        match &self.tag {
            Some(tag) => copy_text(&tag.album),
            None => None,
        }
    }

    /// Length of the track.
    pub fn duration(&self) -> (length: Span)
        ensures
            length == self.length,
    {
        self.length
    }

    /// The bytes of the first embedded picture.
    pub fn picture(&self) -> (picture: Option<Vec<u8>>)
        ensures
            match picture {
                Some(bytes) => self.spec_picture() == Some(bytes@),
                None => self.spec_picture() is None,
            },
    {
        match &self.tag {
            Some(tag) => {
                if tag.pictures.len() == 0 {
                    return None;
                }
                let first = &tag.pictures[0];
                let mut bytes: Vec<u8> = Vec::new();
                let mut i: usize = 0;
                while i < first.len()
                    invariant
                        i <= first@.len(),
                        bytes@ == first@.take(i as int),
                    decreases first@.len() - i,
                {
                    bytes.push(first[i]);
                    i = i + 1;
                }
                Some(bytes)
            },
            None => None,
        }
    }
}

/// The line that names a track: the file's name where no title is known;
/// else the album in brackets, the artist and a dash, each where known, and
/// the title.
pub open spec fn info_text(filename: Seq<char>, metadata: MetaData) -> Seq<char> {
    match metadata.spec_title() {
        None => filename,
        Some(title) => (match metadata.spec_album() {
            Some(album) => "["@ + album + "] "@,
            None => Seq::empty(),
        }) + (match metadata.spec_artist() {
            Some(artist) => artist + " - "@,
            None => Seq::empty(),
        }) + title,
    }
}

/// The line that names a track.
pub fn string_info(filename: &str, metadata: &MetaData) -> (line: String)
    ensures
        line@ == info_text(filename@, *metadata),
{
    let title = match metadata.title() {
        Some(title) => title,
        None => return String::from_str(filename),
    };
    let mut line = String::new();
    match metadata.album() {
        Some(album) => {
            line.append("[");
            line.append(album.as_str());
            line.append("] ");
        },
        None => {},
    }
    match metadata.artist() {
        Some(artist) => {
            line.append(artist.as_str());
            line.append(" - ");
        },
        None => {},
    }
    line.append(title.as_str());
    line
}

/// Columns that `unicode_width` counts for `text` on a terminal.
pub uninterp spec fn display_width(text: Seq<char>) -> nat;

/// Asks `unicode_width` how many columns `text` takes. Nothing is claimed of
/// the number but that it is what the crate counts for this text.
#[verifier::external_body]
fn text_width(text: &str) -> (width: usize)
    ensures
        width == display_width(text@),
{
    UnicodeWidthStr::width(text)
}

/// Terminal lines that a text of `width` columns takes at `cols` columns a
/// line: the width, counted in 16 bits, over the columns, rounded up, and
/// one line at least.
pub open spec fn lines_for(width: nat, cols: u16) -> u16 {
    let counted = width % 0x10000;
    let lines = (counted + cols - 1) / (cols as int);
    if lines < 1 {
        1
    } else {
        lines as u16
    }
}

/// Terminal lines that a text of `width` columns takes at `cols` columns a
/// line.
pub fn lines_for_width(width: usize, cols: u16) -> (lines: u16)
    requires
        cols > 0,
    ensures
        lines == lines_for(width as nat, cols),
        lines >= 1,
{
    let counted = (width % 0x10000) as u32;
    let lines = (counted + cols as u32 - 1) / (cols as u32);
    proof {
        let sum = counted + cols - 1;
        lemma_fundamental_div_mod(sum, cols as int);
        lemma_mod_pos_bound(sum, cols as int);
        assert(lines <= 0xffff) by (nonlinear_arith)
            requires
                sum == cols * lines + sum % (cols as int),
                0 <= sum % (cols as int),
                sum <= 0xffff + cols - 1,
                cols >= 1,
                lines >= 0,
        ;
    }
    if lines < 1 {
        1
    } else {
        lines as u16
    }
}

/// Terminal lines that `text` takes at `cols` columns a line.
pub fn lines_needed(text: &str, cols: u16) -> (lines: u16)
    requires
        cols > 0,
    ensures
        lines == lines_for(display_width(text@), cols),
        lines >= 1,
{
    lines_for_width(text_width(text), cols)
}

/// Tells the latest of a run of requests from the ones it overtook.
///
/// Each request takes a ticket; when its time has come it acts only if no
/// later request has taken one since.
pub struct Debounce {
    last: u64,
}

impl Debounce {
    /// The ticket taken last.
    pub closed spec fn spec_last(&self) -> u64 {
        self.last
    }

    /// A fresh counter.
    pub fn new() -> (d: Self)
        ensures
            d.spec_last() == 0,
    {
        Debounce { last: 0 }
    }

    /// Takes a ticket: the number after the last one, starting over at zero
    /// when the numbers run out.
    pub fn issue(&mut self) -> (ticket: u64)
        ensures
            ticket == final(self).spec_last(),
            ticket == if old(self).spec_last() == u64::MAX {
                0
            } else {
                old(self).spec_last() + 1
            },
            ticket != old(self).spec_last(),
    {
        self.last = if self.last == u64::MAX {
            0
        } else {
            self.last + 1
        };
        self.last
    }

    /// Whether `ticket` is the one taken last.
    pub fn is_current(&self, ticket: u64) -> (b: bool)
        ensures
            b == (ticket == self.spec_last()),
    {
        ticket == self.last
    }
}

} // verus!
