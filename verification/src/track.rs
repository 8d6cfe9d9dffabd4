//! What a scan of the filesystem reports, and the track record made of it.
use vstd::prelude::*;
use crate::text::same_text;
use crate::uri::{FileUri, Uri, UriView};

verus! {

/// One entry that the enumeration of a root has come across.
#[derive(Debug, Clone, PartialEq, Eq)]
pub struct Entry {
    /// The path of the entry.
    pub path: String,
    /// Whether the entry is a regular file.
    pub is_file: bool,
    /// The extension of the entry's name, without the dot, if it has one.
    pub extension: Option<String>,
}

/// What an [`Entry`] says, as plain text.
pub struct EntryView {
    pub path: Seq<char>,
    pub is_file: bool,
    pub extension: Option<Seq<char>>,
}

impl View for Entry {
    type V = EntryView;

    open spec fn view(&self) -> EntryView {
        EntryView {
            path: self.path@,
            is_file: self.is_file,
            extension: match self.extension {
                Some(extension) => Some(extension@),
                None => None,
            },
        }
    }
}

impl EntryView {
    /// Whether the entry is a regular file whose extension is exactly
    /// `extension`.
    pub open spec fn has_type(self, extension: Seq<char>) -> bool {
        self.is_file && self.extension == Some(extension)
    }

    /// Whether the entry is an audio file: a regular file with the
    /// extension `mp3` or `ogg`, in lower case.
    pub open spec fn is_music(self) -> bool {
        self.has_type("mp3"@) || self.has_type("ogg"@)
    }
}

/// What entries hold.
pub open spec fn entry_views(entries: Seq<Entry>) -> Seq<EntryView> {
    entries.map_values(|e: Entry| e@)
}

/// The audio files among `entries`, in their order.
pub open spec fn music_of(entries: Seq<EntryView>) -> Seq<EntryView> {
    entries.filter(|e: EntryView| e.is_music())
}

/// Whether `entry` is a regular file with the extension `extension`.
pub fn is_file_type(entry: &Entry, extension: &str) -> (yes: bool)
    ensures
        yes == entry@.has_type(extension@),
{
    entry.is_file && match &entry.extension {
        Some(found) => same_text(found.as_str(), extension),
        None => false,
    }
}

/// Whether `entry` is an audio file.
pub fn is_music(entry: &Entry) -> (yes: bool)
    ensures
        yes == entry@.is_music(),
{
    is_file_type(entry, "mp3") || is_file_type(entry, "ogg")
}

/// The audio files among `entries`, in their order.
pub fn music_entries(entries: Vec<Entry>) -> (kept: Vec<Entry>)
    ensures
        entry_views(kept@) == music_of(entry_views(entries@)),
{
    let ghost all = entry_views(entries@);
    let n = entries.len();
    let mut kept: Vec<Entry> = Vec::new();
    let mut i: usize = 0;
    proof {
        reveal(Seq::filter);
    }
    for entry in it: entries
        invariant
            i == it.index(),
            n == all.len(),
            entry_views(it.seq()) == all,
            entry_views(kept@) == music_of(all.take(i as int)),
    {
        proof {
            reveal(Seq::filter);
            assert(all.take(i + 1).drop_last() =~= all.take(i as int));
            assert(all.take(i + 1).last() == entry@);
        }
        if is_music(&entry) {
            let ghost before = kept@;
            kept.push(entry);
            assert(entry_views(kept@) =~= entry_views(before).push(entry@));
        }
        i = i + 1;
    }
    assert(all.take(i as int) =~= all);
    kept
}

/// What an enumeration reports of one of its steps: the entry it came
/// across, or the depth below the root at which it could not read on.
/// Depth 0 is the root itself.
pub open spec fn step_view(step: Result<Entry, usize>) -> Result<EntryView, nat> {
    match step {
        Ok(entry) => Ok(entry@),
        Err(depth) => Err(depth as nat),
    }
}

/// What the steps of an enumeration report.
pub open spec fn step_views(steps: Seq<Result<Entry, usize>>) -> Seq<Result<EntryView, nat>> {
    steps.map_values(|s: Result<Entry, usize>| step_view(s))
}

/// Whether the root itself could not be read.
pub open spec fn root_failed(steps: Seq<Result<EntryView, nat>>) -> bool {
    exists|i: int| 0 <= i < steps.len() && steps[i] == Err::<EntryView, nat>(0)
}

/// The entries that an enumeration came across, in order; what it could
/// not read is passed over.
pub open spec fn entries_of(steps: Seq<Result<EntryView, nat>>) -> Seq<EntryView>
    decreases steps.len(),
{
    if steps.len() == 0 {
        Seq::empty()
    } else {
        match steps.last() {
            Ok(entry) => entries_of(steps.drop_last()).push(entry),
            Err(_) => entries_of(steps.drop_last()),
        }
    }
}

/// What an enumeration has found below a root: the entries it came across,
/// without those further down that it could not read; or `None` where the
/// root itself could not be read.
pub fn gather(steps: Vec<Result<Entry, usize>>) -> (entries: Option<Vec<Entry>>)
    ensures
        entries is None <==> root_failed(step_views(steps@)),
        entries matches Some(found) ==> entry_views(found@) == entries_of(step_views(steps@)),
{
    let ghost all = step_views(steps@);
    let n = steps.len();
    let mut found: Vec<Entry> = Vec::new();
    let mut i: usize = 0;
    for step in it: steps
        invariant
            i == it.index(),
            n == all.len(),
            step_views(it.seq()) == all,
            entry_views(found@) == entries_of(all.take(i as int)),
            forall|j: int| 0 <= j < i ==> all[j] != Err::<EntryView, nat>(0),
    {
        proof {
            assert(all.take(i + 1).drop_last() =~= all.take(i as int));
            assert(all.take(i + 1).last() == step_view(step));
        }
        match step {
            Ok(entry) => {
                let ghost before = found@;
                found.push(entry);
                assert(entry_views(found@) =~= entry_views(before).push(entry@));
            },
            Err(depth) => {
                if depth == 0 {
                    assert(all[i as int] == Err::<EntryView, nat>(0));
                    return None;
                }
            },
        }
        i = i + 1;
    }
    assert(all.take(i as int) =~= all);
    Some(found)
}

/// What the tag of an audio file says. Any of it may be absent.
#[derive(Debug, Clone, PartialEq, Eq)]
pub struct Tag {
    pub artist: Option<String>,
    pub album: Option<String>,
    pub title: Option<String>,
    pub track: Option<u32>,
}

/// What a [`Tag`] says, as plain text.
pub struct TagView {
    pub artist: Option<Seq<char>>,
    pub album: Option<Seq<char>>,
    pub title: Option<Seq<char>>,
    pub track: Option<nat>,
}

/// The text in `text`, if there is one.
pub open spec fn text_view(text: Option<String>) -> Option<Seq<char>> {
    match text {
        Some(t) => Some(t@),
        None => None,
    }
}

impl View for Tag {
    type V = TagView;

    open spec fn view(&self) -> TagView {
        TagView {
            artist: text_view(self.artist),
            album: text_view(self.album),
            title: text_view(self.title),
            track: match self.track {
                Some(n) => Some(n as nat),
                None => None,
            },
        }
    }
}

/// A track of the catalog, whatever backend it came from. A track is known
/// by its address alone.
#[derive(Debug, Clone, PartialEq, Eq)]
pub struct Track {
    pub artist: String,
    pub album: String,
    pub name: String,
    pub number: u32,
    pub uri: Uri,
}

/// What a [`Track`] says, as plain text.
pub struct TrackView {
    pub artist: Seq<char>,
    pub album: Seq<char>,
    pub name: Seq<char>,
    pub number: nat,
    pub uri: UriView,
}

impl View for Track {
    type V = TrackView;

    open spec fn view(&self) -> TrackView {
        TrackView {
            artist: self.artist@,
            album: self.album@,
            name: self.name@,
            number: self.number as nat,
            uri: self.uri@,
        }
    }
}

/// What tracks hold.
pub open spec fn track_views(tracks: Seq<Track>) -> Seq<TrackView> {
    tracks.map_values(|t: Track| t@)
}

/// `text`, or the empty text in its absence.
pub open spec fn or_empty(text: Option<Seq<char>>) -> Seq<char> {
    match text {
        Some(t) => t,
        None => Seq::empty(),
    }
}

/// The track that a tag describes, at the address `uri`: what the tag
/// lacks is the empty text, or zero for the number.
pub open spec fn track_of(tag: TagView, uri: UriView) -> TrackView {
    TrackView {
        artist: or_empty(tag.artist),
        album: or_empty(tag.album),
        name: or_empty(tag.title),
        number: match tag.track {
            Some(n) => n,
            None => 0,
        },
        uri,
    }
}

/// `text`, or the empty text in its absence.
fn text_or_empty(text: Option<String>) -> (out: String)
    ensures
        out@ == or_empty(text_view(text)),
{
    match text {
        Some(t) => t,
        None => String::new(),
    }
}

impl Track {
    /// The track that `tag` describes, at the address `uri`.
    pub fn from_tag(tag: Tag, uri: Uri) -> (track: Track)
        ensures
            track@ == track_of(tag@, uri@),
    {
        Track {
            artist: text_or_empty(tag.artist),
            album: text_or_empty(tag.album),
            name: text_or_empty(tag.title),
            number: match tag.track {
                Some(n) => n,
                None => 0,
            },
            uri,
        }
    }
}

} // verus!
