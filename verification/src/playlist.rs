//! Playlists in M3U form, plain or extended.

use vstd::prelude::*;
use crate::text::chars_of;
use crate::text::find;
use crate::text::find_first;
use crate::text::has_prefix;
use crate::text::parse_i32;
use crate::text::pieces;
use crate::text::spec_parse_i32;
use crate::text::split;
use crate::text::split_bounds;
use crate::text::starts_with;
use crate::text::string_of;
use crate::text::trim;
use crate::text::trim_bounds;

verus! {

/// One item of a playlist.
#[derive(Debug, Clone, PartialEq, Eq)]
pub struct M3uEntry {
    /// Path or URL of the item, as written.
    pub path: String,
    /// Title from the `#EXTINF` line in front of the item, if it had one.
    pub title: Option<String>,
    /// Length in seconds from that line, if it had one.
    pub duration: Option<i32>,
}

/// An [`M3uEntry`] as plain values.
pub struct EntryView {
    pub path: Seq<char>,
    pub title: Option<Seq<char>>,
    pub duration: Option<i32>,
}

impl View for M3uEntry {
    type V = EntryView;

    open spec fn view(&self) -> EntryView {
        EntryView {
            path: self.path@,
            title: match self.title {
                Some(title) => Some(title@),
                None => None,
            },
            duration: self.duration,
        }
    }
}

/// The entries of a list, each as plain values.
pub open spec fn entry_views(entries: Seq<M3uEntry>) -> Seq<EntryView> {
    Seq::new(entries.len(), |k: int| entries[k]@)
}

/// Whether a line is a comment or a directive.
pub open spec fn is_comment(line: Seq<char>) -> bool {
    line.len() > 0 && line[0] == '#'
}

/// What follows the tag of an `#EXTINF` line, without the white space around
/// it.
pub open spec fn extinf_info(line: Seq<char>) -> Seq<char> {
    trim(line.skip("#EXTINF:"@.len() as int))
}

/// The length that an `#EXTINF` line gives: what stands before the first
/// comma, where that is a number.
pub open spec fn extinf_duration(line: Seq<char>) -> Option<i32> {
    let info = extinf_info(line);
    spec_parse_i32(info.take(find(info, ',')))
}

/// The title that an `#EXTINF` line gives: all that follows the first comma,
/// where there is a comma.
pub open spec fn extinf_title(line: Seq<char>) -> Option<Seq<char>> {
    let info = extinf_info(line);
    if find(info, ',') < info.len() {
        Some(info.skip(find(info, ',') + 1))
    } else {
        None
    }
}

/// The entries of a plain list: every line that is neither blank nor a
/// comment, without the white space around it.
pub open spec fn simple_entries(lines: Seq<Seq<char>>) -> Seq<EntryView>
    decreases lines.len(),
{
    if lines.len() == 0 {
        Seq::empty()
    } else {
        let line = trim(lines[0]);
        let rest = simple_entries(lines.skip(1));
        if line.len() == 0 || is_comment(line) {
            rest
        } else {
            seq![EntryView { path: line, title: None, duration: None }] + rest
        }
    }
}

/// The entries of an extended list, given the title and length that the last
/// `#EXTINF` line left for the next item.
///
/// An `#EXTINF` line sets both anew; the next line that is neither blank nor a
/// comment becomes an entry and takes them along.
pub open spec fn extended_entries(
    lines: Seq<Seq<char>>,
    title: Option<Seq<char>>,
    duration: Option<i32>,
) -> Seq<EntryView>
    decreases lines.len(),
{
    if lines.len() == 0 {
        Seq::empty()
    } else {
        let line = trim(lines[0]);
        let rest = lines.skip(1);
        if line.len() == 0 {
            extended_entries(rest, title, duration)
        } else if has_prefix(line, "#EXTINF:"@) {
            extended_entries(rest, extinf_title(line), extinf_duration(line))
        } else if is_comment(line) {
            extended_entries(rest, title, duration)
        } else {
            seq![EntryView { path: line, title, duration }] + extended_entries(rest, None, None)
        }
    }
}

/// The entries of a playlist. A text that begins with `#EXTM3U` is an
/// extended list, any other a plain one.
pub open spec fn spec_parse(text: Seq<char>) -> Seq<EntryView> {
    let lines = split(text, '\n');
    if has_prefix(text, "#EXTM3U"@) {
        extended_entries(lines, None, None)
    } else {
        simple_entries(lines)
    }
}

spec fn title_view(title: Option<String>) -> Option<Seq<char>> {
    match title {
        Some(title) => Some(title@),
        None => None,
    }
}

/// Reads a playlist.
pub fn parse(m3u: &str) -> (entries: Vec<M3uEntry>)
    ensures
        entry_views(entries@) == spec_parse(m3u@),
{
    let text = chars_of(m3u);
    let chars = text.as_slice();
    let header = chars_of("#EXTM3U");
    let tag = chars_of("#EXTINF:");
    let ranges = split_bounds(chars, '\n');
    let extended = starts_with(chars, 0, chars.len(), header.as_slice());
    assert(chars@.subrange(0, chars@.len() as int) =~= chars@);
    let ghost lines = split(chars@, '\n');
    let mut entries: Vec<M3uEntry> = Vec::new();
    let mut title: Option<String> = None;
    let mut duration: Option<i32> = None;
    let mut k: usize = 0;
    assert(lines.skip(0) =~= lines);
    while k < ranges.len()
        invariant
            k <= ranges@.len(),
            chars@ == m3u@,
            tag@ == "#EXTINF:"@,
            lines == split(chars@, '\n'),
            pieces(chars@, ranges@) == lines,
            forall|j: int|
                0 <= j < ranges@.len() ==> (#[trigger] ranges@[j]).0 <= ranges@[j].1
                    <= chars@.len(),
            !extended ==> title is None && duration is None,
            extended ==> entry_views(entries@) + extended_entries(
                lines.skip(k as int),
                title_view(title),
                duration,
            ) == extended_entries(lines, None, None),
            !extended ==> entry_views(entries@) + simple_entries(lines.skip(k as int))
                == simple_entries(lines),
        decreases ranges@.len() - k,
    {
        let range = ranges[k];
        assert(lines.skip(k as int).skip(1) =~= lines.skip(k + 1));
        let (a, b) = trim_bounds(chars, range.0, range.1);
        let ghost line = chars@.subrange(a as int, b as int);
        if a < b {
            if extended && starts_with(chars, a, b, tag.as_slice()) {
                let (from, to) = trim_bounds(chars, a + tag.len(), b);
                assert(line.skip(tag@.len() as int) =~= chars@.subrange(a + tag@.len(), b as int));
                let ghost info = chars@.subrange(from as int, to as int);
                let comma = find_first(chars, from, to, ',');
                assert(info.take(comma as int) =~= chars@.subrange(from as int, from + comma));
                duration = parse_i32(chars, from, from + comma);
                if comma < to - from {
                    assert(info.skip(comma + 1) =~= chars@.subrange(
                        from + comma + 1,
                        to as int,
                    ));
                    title = Some(string_of(chars, from + comma + 1, to));
                } else {
                    title = None;
                }
            } else if chars[a] != '#' {
                let entry = M3uEntry {
                    path: string_of(chars, a, b),
                    title: title.take(),
                    duration,
                };
                duration = None;
                entries.push(entry);
            }
        }
        k = k + 1;
    }
    entries
}

} // verus!
