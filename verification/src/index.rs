//! Indexing the directories of a file backend.
//!
//! A run enumerates each root in turn, reads the tag of every audio file
//! below it, and at the end replaces the user's catalog with the tracks it
//! has found, in one commit. Enumerating, reading and committing are the
//! caller's to do: the [`Indexer`] says which of them is due, takes the
//! outcome, and keeps the tracks.
use vstd::prelude::*;
use crate::backend::FileBackend;
use crate::error::{IndexError, IndexErrorView};
use crate::text::{clone_texts, texts};
use crate::track::{
    entry_views, music_entries, music_of, text_view, track_of, track_views, Entry, EntryView, Tag,
    TagView, Track, TrackView,
};
use crate::uri::{FileUri, Uri, UriView};
use crate::user::{location, User};

verus! {

/// What the caller of an [`Indexer`] has to do next.
#[derive(Debug, PartialEq, Eq)]
pub enum Action<'a> {
    /// Enumerate the entries below this root, and report them with
    /// [`Event::Walked`].
    Walk(&'a str),
    /// Read the tag of the file at this path, and report it with
    /// [`Event::TagRead`].
    ReadTag(&'a str),
    /// Replace the catalog kept at `location` with `tracks`, and report
    /// with [`Event::Committed`] whether the store took them.
    Commit { location: &'a str, tracks: &'a Vec<Track> },
    /// Nothing: the run is over, with this result.
    Done(&'a Result<(), IndexError>),
}

/// What an [`Action`] asks for, as plain text.
pub enum ActionView {
    Walk(Seq<char>),
    ReadTag(Seq<char>),
    Commit { location: Seq<char>, tracks: Seq<TrackView> },
    Done(Result<(), IndexErrorView>),
}

/// The view of the result of a run.
pub open spec fn result_view(result: Result<(), IndexError>) -> Result<(), IndexErrorView> {
    match result {
        Ok(()) => Ok(()),
        Err(error) => Err(error@),
    }
}

impl<'a> View for Action<'a> {
    type V = ActionView;

    open spec fn view(&self) -> ActionView {
        match self {
            Action::Walk(root) => ActionView::Walk(root@),
            Action::ReadTag(path) => ActionView::ReadTag(path@),
            Action::Commit { location, tracks } => ActionView::Commit {
                location: location@,
                tracks: track_views(tracks@),
            },
            Action::Done(result) => ActionView::Done(result_view(**result)),
        }
    }
}

/// The outcome of what an [`Action`] asked for.
#[derive(Debug, Clone, PartialEq, Eq)]
pub enum Event {
    /// The entries found below the root, or `None` where the root itself
    /// could not be enumerated.
    Walked(Option<Vec<Entry>>),
    /// The tag of the file, or `None` where none could be read.
    TagRead(Option<Tag>),
    /// Whether the store took the commit.
    Committed(bool),
}

/// What an [`Event`] reports, as plain text.
pub enum EventView {
    Walked(Option<Seq<EntryView>>),
    TagRead(Option<TagView>),
    Committed(bool),
}

impl View for Event {
    type V = EventView;

    open spec fn view(&self) -> EventView {
        match self {
            Event::Walked(Some(entries)) => EventView::Walked(Some(entry_views(entries@))),
            Event::Walked(None) => EventView::Walked(None),
            Event::TagRead(Some(tag)) => EventView::TagRead(Some(tag@)),
            Event::TagRead(None) => EventView::TagRead(None),
            Event::Committed(taken) => EventView::Committed(*taken),
        }
    }
}

/// Which outcome a run waits for.
pub enum Phase {
    /// The entries below `root`.
    Walking { root: Seq<char> },
    /// The tag of the file at `path`, which was found below `root`.
    Reading { root: Seq<char>, path: Seq<char> },
    /// The store's answer to the commit.
    Committing,
    /// None: the run is over.
    Finished { result: Result<(), IndexErrorView> },
}

/// The state of a run.
pub struct Run {
    /// Where the user's catalog is kept.
    pub location: Seq<char>,
    /// The machine on which the run takes place.
    pub machine_id: Seq<char>,
    /// The roots that are still to be enumerated, in order.
    pub later_roots: Seq<Seq<char>>,
    /// The audio files below the current root whose tags are still to be
    /// read, in order.
    pub later_files: Seq<EntryView>,
    /// The tracks found so far, in the order in which they were found.
    pub tracks: Seq<TrackView>,
    pub phase: Phase,
}

impl Run {
    /// The run that has turned to the next piece of work: the next file of
    /// the current root, else the next root, else the commit.
    pub open spec fn proceed(self, root: Seq<char>) -> Run {
        if self.later_files.len() > 0 {
            Run {
                later_files: self.later_files.drop_first(),
                phase: Phase::Reading { root, path: self.later_files[0].path },
                ..self
            }
        } else if self.later_roots.len() > 0 {
            Run {
                later_roots: self.later_roots.drop_first(),
                phase: Phase::Walking { root: self.later_roots[0] },
                ..self
            }
        } else {
            Run { phase: Phase::Committing, ..self }
        }
    }

    /// The run of `roots` for the catalog at `location`, at its start. A
    /// run without a machine identifier is over at once.
    pub open spec fn start(
        location: Seq<char>,
        machine_id: Option<Seq<char>>,
        roots: Seq<Seq<char>>,
    ) -> Run {
        match machine_id {
            Some(machine_id) => Run {
                location,
                machine_id,
                later_roots: roots,
                later_files: Seq::empty(),
                tracks: Seq::empty(),
                phase: Phase::Committing,
            }.proceed(Seq::empty()),
            None => Run {
                location,
                machine_id: Seq::empty(),
                later_roots: roots,
                later_files: Seq::empty(),
                tracks: Seq::empty(),
                phase: Phase::Finished { result: Err(IndexErrorView::IdentityUnavailable) },
            },
        }
    }

    /// What is due in this state.
    pub open spec fn pending(self) -> ActionView {
        match self.phase {
            Phase::Walking { root } => ActionView::Walk(root),
            Phase::Reading { root, path } => ActionView::ReadTag(path),
            Phase::Committing => ActionView::Commit {
                location: self.location,
                tracks: self.tracks,
            },
            Phase::Finished { result } => ActionView::Done(result),
        }
    }

    /// The address that a track found below `root` gets: the machine of
    /// the run and the root.
    pub open spec fn address(self, root: Seq<char>) -> UriView {
        UriView::File { machine_id: self.machine_id, file_path: root }
    }

    /// The state after `event`. An event that is not the outcome of what is
    /// due changes nothing.
    pub open spec fn advance(self, event: EventView) -> Run {
        match (self.phase, event) {
            (Phase::Walking { root }, EventView::Walked(Some(entries))) => Run {
                later_files: music_of(entries),
                ..self
            }.proceed(root),
            (Phase::Walking { root }, EventView::Walked(None)) => Run {
                phase: Phase::Finished { result: Err(IndexErrorView::UnreachableRoot(root)) },
                ..self
            },
            (Phase::Reading { root, path }, EventView::TagRead(Some(tag))) => Run {
                tracks: self.tracks.push(track_of(tag, self.address(root))),
                ..self
            }.proceed(root),
            (Phase::Reading { root, path }, EventView::TagRead(None)) => self.proceed(root),
            (Phase::Committing, EventView::Committed(true)) => Run {
                phase: Phase::Finished { result: Ok(()) },
                ..self
            },
            (Phase::Committing, EventView::Committed(false)) => Run {
                phase: Phase::Finished { result: Err(IndexErrorView::StorageUnavailable) },
                ..self
            },
            _ => self,
        }
    }
}

/// What there is to find, and whether the store takes a commit: that by
/// which the outcome of every action is settled.
pub struct World {
    /// The entries below each root that can be enumerated.
    pub entries: Map<Seq<char>, Seq<EntryView>>,
    /// The tag of each file that has a readable one.
    pub tags: Map<Seq<char>, TagView>,
    /// Whether the store takes a commit.
    pub store_ok: bool,
}

/// One replacement of a catalog.
pub struct Commit {
    pub location: Seq<char>,
    pub tracks: Seq<TrackView>,
}

/// How a run ended, and what it handed to the store on its way.
pub struct Outcome {
    pub result: Result<(), IndexErrorView>,
    pub commits: Seq<Commit>,
}

/// `tracks` before what was found after them, where that search succeeded.
pub open spec fn after(tracks: Seq<TrackView>, rest: Result<Seq<TrackView>, Seq<char>>) -> Result<
    Seq<TrackView>,
    Seq<char>,
> {
    match rest {
        Ok(more) => Ok(tracks + more),
        Err(root) => Err(root),
    }
}

impl World {
    /// The outcome of `action` in this world.
    pub open spec fn answer(self, action: ActionView) -> EventView {
        match action {
            ActionView::Walk(root) => EventView::Walked(
                if self.entries.contains_key(root) {
                    Some(self.entries[root])
                } else {
                    None
                },
            ),
            ActionView::ReadTag(path) => EventView::TagRead(
                if self.tags.contains_key(path) {
                    Some(self.tags[path])
                } else {
                    None
                },
            ),
            _ => EventView::Committed(self.store_ok),
        }
    }

    /// The track of the file at `path`, at the address `uri`: one where the
    /// file has a readable tag, none where it has not.
    pub open spec fn track_at(self, path: Seq<char>, uri: UriView) -> Seq<TrackView> {
        if self.tags.contains_key(path) {
            seq![track_of(self.tags[path], uri)]
        } else {
            Seq::empty()
        }
    }

    /// The tracks of `files`, file after file, at the address `uri`.
    pub open spec fn tracks_of(self, files: Seq<EntryView>, uri: UriView) -> Seq<TrackView>
        decreases files.len(),
    {
        if files.len() == 0 {
            Seq::empty()
        } else {
            self.track_at(files[0].path, uri) + self.tracks_of(files.drop_first(), uri)
        }
    }

    /// The tracks that there are to find below `roots` on the machine
    /// `machine_id`: those of the audio files below each root, root after
    /// root; or the first root that cannot be enumerated.
    pub open spec fn discovered(self, machine_id: Seq<char>, roots: Seq<Seq<char>>) -> Result<
        Seq<TrackView>,
        Seq<char>,
    >
        decreases roots.len(),
    {
        if roots.len() == 0 {
            Ok(Seq::empty())
        } else if !self.entries.contains_key(roots[0]) {
            Err(roots[0])
        } else {
            after(
                self.tracks_of(
                    music_of(self.entries[roots[0]]),
                    UriView::File { machine_id, file_path: roots[0] },
                ),
                self.discovered(machine_id, roots.drop_first()),
            )
        }
    }

    /// How a run ends that has `tracks` in hand and `found` before it: with
    /// one commit of all the tracks, or with no commit and the root that
    /// could not be enumerated.
    pub open spec fn outcome(
        self,
        location: Seq<char>,
        tracks: Seq<TrackView>,
        found: Result<Seq<TrackView>, Seq<char>>,
    ) -> Outcome {
        match found {
            Ok(more) => Outcome {
                result: if self.store_ok {
                    Ok(())
                } else {
                    Err(IndexErrorView::StorageUnavailable)
                },
                commits: seq![Commit { location, tracks: tracks + more }],
            },
            Err(root) => Outcome {
                result: Err(IndexErrorView::UnreachableRoot(root)),
                commits: Seq::empty(),
            },
        }
    }
}

impl Run {
    /// The roots that have not been enumerated.
    pub open spec fn roots_left(self) -> nat {
        if self.phase is Walking {
            self.later_roots.len() + 1
        } else {
            self.later_roots.len()
        }
    }

    /// The files whose tags have not been read.
    pub open spec fn files_left(self) -> nat {
        if self.phase is Reading {
            self.later_files.len() + 1
        } else {
            self.later_files.len()
        }
    }

    /// The steps that a run at the commit or past it has left.
    pub open spec fn steps_left(self) -> nat {
        match self.phase {
            Phase::Finished { .. } => 0,
            Phase::Committing => 1,
            _ => 2,
        }
    }

    /// How the run ends when each action is answered as `world` has it,
    /// and what it commits until then.
    pub open spec fn play(self, world: World) -> Outcome
        decreases self.roots_left(), self.files_left(), self.steps_left(),
    {
        match self.pending() {
            ActionView::Done(result) => Outcome { result, commits: Seq::empty() },
            action => {
                let rest = self.advance(world.answer(action)).play(world);
                match action {
                    ActionView::Commit { location, tracks } => Outcome {
                        commits: seq![Commit { location, tracks }] + rest.commits,
                        ..rest
                    },
                    _ => rest,
                }
            },
        }
    }

    /// What a run that is under way has before it in `world`.
    spec fn ahead(self, world: World) -> Result<Seq<TrackView>, Seq<char>> {
        match self.phase {
            Phase::Walking { root } => world.discovered(
                self.machine_id,
                seq![root] + self.later_roots,
            ),
            Phase::Reading { root, path } => after(
                world.track_at(path, self.address(root)) + world.tracks_of(
                    self.later_files,
                    self.address(root),
                ),
                world.discovered(self.machine_id, self.later_roots),
            ),
            _ => Ok(Seq::empty()),
        }
    }
}

/// Once a run turns to its next piece of work below `root`, it has before
/// it the files that were left below `root` and then the roots that were
/// left.
proof fn lemma_proceed(run: Run, root: Seq<char>, world: World)
    ensures
        run.proceed(root).ahead(world) == after(
            world.tracks_of(run.later_files, run.address(root)),
            world.discovered(run.machine_id, run.later_roots),
        ),
        run.proceed(root).tracks == run.tracks,
        run.proceed(root).location == run.location,
        !(run.proceed(root).phase is Finished),
{
    let next = run.proceed(root);
    let files = run.later_files;
    let roots = run.later_roots;
    let uri = run.address(root);
    if files.len() == 0 && roots.len() > 0 {
        assert(seq![roots[0]] + next.later_roots =~= roots);
        match world.discovered(run.machine_id, roots) {
            Ok(more) => {
                assert(Seq::<TrackView>::empty() + more =~= more);
            },
            Err(_) => {},
        }
    } else if files.len() == 0 {
        assert(Seq::<TrackView>::empty() + Seq::<TrackView>::empty() =~= Seq::<TrackView>::empty());
    }
}

/// A run that is under way ends as what it has before it says.
proof fn lemma_play(run: Run, world: World)
    requires
        !(run.phase is Finished),
    ensures
        run.play(world) == world.outcome(run.location, run.tracks, run.ahead(world)),
    decreases run.roots_left(), run.files_left(), run.steps_left(),
{
    let next = run.advance(world.answer(run.pending()));
    match run.phase {
        Phase::Walking { root } => {
            let roots = seq![root] + run.later_roots;
            assert(roots[0] == root);
            assert(roots.drop_first() =~= run.later_roots);
            if world.entries.contains_key(root) {
                let loaded = Run { later_files: music_of(world.entries[root]), ..run };
                lemma_proceed(loaded, root, world);
                lemma_play(next, world);
            }
        },
        Phase::Reading { root, path } => {
            let uri = run.address(root);
            let rest = after(
                world.tracks_of(run.later_files, uri),
                world.discovered(run.machine_id, run.later_roots),
            );
            if world.tags.contains_key(path) {
                let track = track_of(world.tags[path], uri);
                let grown = Run { tracks: run.tracks.push(track), ..run };
                lemma_proceed(grown, root, world);
                lemma_play(next, world);
                match world.discovered(run.machine_id, run.later_roots) {
                    Ok(more) => {
                        let found = world.tracks_of(run.later_files, uri);
                        assert(run.tracks.push(track) + (found + more) =~= run.tracks + ((seq![
                            track,
                        ] + found) + more));
                    },
                    Err(_) => {},
                }
            } else {
                lemma_proceed(run, root, world);
                lemma_play(next, world);
            }
        },
        Phase::Committing => {
            assert(run.tracks + Seq::<TrackView>::empty() =~= run.tracks);
            assert(next.play(world).commits =~= Seq::<Commit>::empty());
            assert(seq![Commit { location: run.location, tracks: run.tracks }]
                + Seq::<Commit>::empty() =~= seq![
                Commit { location: run.location, tracks: run.tracks },
            ]);
        },
        Phase::Finished { .. } => {},
    }
}

/// A run commits all or nothing. Where every root can be enumerated, it
/// hands the store one commit: the catalog of the user, replaced by exactly
/// the tracks that there are to find, be they none; and it succeeds if the
/// store takes them. Where a root cannot be enumerated, it fails with that
/// root and hands the store nothing.
pub proof fn lemma_run_commits_what_is_discovered(
    location: Seq<char>,
    machine_id: Seq<char>,
    roots: Seq<Seq<char>>,
    world: World,
)
    ensures
        Run::start(location, Some(machine_id), roots).play(world) == world.outcome(
            location,
            Seq::empty(),
            world.discovered(machine_id, roots),
        ),
{
    let blank = Run {
        location,
        machine_id,
        later_roots: roots,
        later_files: Seq::empty(),
        tracks: Seq::empty(),
        phase: Phase::Committing,
    };
    let first = Run::start(location, Some(machine_id), roots);
    lemma_proceed(blank, Seq::empty(), world);
    lemma_play(first, world);
    match world.discovered(machine_id, roots) {
        Ok(more) => {
            assert(Seq::<TrackView>::empty() + more =~= more);
        },
        Err(_) => {},
    }
}

/// What a store holds, location by location, after it was handed `commits`
/// in turn: each commit that it takes replaces what its location held, and
/// one that it does not take changes nothing.
pub open spec fn stored(
    held: Map<Seq<char>, Seq<TrackView>>,
    commits: Seq<Commit>,
    taken: bool,
) -> Map<Seq<char>, Seq<TrackView>>
    decreases commits.len(),
{
    if commits.len() == 0 || !taken {
        held
    } else {
        stored(held.insert(commits[0].location, commits[0].tracks), commits.drop_first(), taken)
    }
}

/// A run replaces the catalog or leaves it alone. Where it succeeds, the
/// store holds for the user exactly the tracks that there are to find,
/// whatever it held before: none, if there are none to find. Where it
/// fails, the store holds what it held.
pub proof fn lemma_run_replaces_the_catalog(
    location: Seq<char>,
    machine_id: Seq<char>,
    roots: Seq<Seq<char>>,
    world: World,
    held: Map<Seq<char>, Seq<TrackView>>,
)
    ensures
        ({
            let end = Run::start(location, Some(machine_id), roots).play(world);
            let now = stored(held, end.commits, world.store_ok);
            match world.discovered(machine_id, roots) {
                Ok(tracks) => if world.store_ok {
                    end.result is Ok && now == held.insert(location, tracks)
                } else {
                    end.result is Err && now == held
                },
                Err(_) => end.result is Err && now == held,
            }
        }),
{
    lemma_run_commits_what_is_discovered(location, machine_id, roots, world);
    let end = Run::start(location, Some(machine_id), roots).play(world);
    match world.discovered(machine_id, roots) {
        Ok(tracks) => {
            assert(Seq::<TrackView>::empty() + tracks =~= tracks);
            assert(end.commits.drop_first() =~= Seq::<Commit>::empty());
            reveal_with_fuel(stored, 2);
        },
        Err(_) => {},
    }
}

/// A run on a machine that could not be identified fails at once, and
/// hands the store nothing.
pub proof fn lemma_run_without_identity(location: Seq<char>, roots: Seq<Seq<char>>, world: World)
    ensures
        Run::start(location, None, roots).play(world) == (Outcome {
            result: Err(IndexErrorView::IdentityUnavailable),
            commits: Seq::empty(),
        }),
{
}

/// The stage of a run, without what belongs to it.
#[derive(Debug, Clone, Copy, PartialEq, Eq)]
enum Stage {
    Walking,
    Reading,
    Committing,
    Finished,
}

/// One indexing run of a file backend, for one user.
#[derive(Debug)]
pub struct Indexer {
    location: String,
    machine_id: String,
    roots: Vec<String>,
    next_root: usize,
    files: Vec<Entry>,
    next_file: usize,
    tracks: Vec<Track>,
    stage: Stage,
    root: String,
    path: String,
    result: Result<(), IndexError>,
}

impl View for Indexer {
    type V = Run;

    closed spec fn view(&self) -> Run {
        Run {
            location: self.location@,
            machine_id: self.machine_id@,
            later_roots: if self.next_root <= self.roots.len() {
                texts(self.roots@).skip(self.next_root as int)
            } else {
                Seq::empty()
            },
            later_files: if self.next_file <= self.files.len() {
                entry_views(self.files@).skip(self.next_file as int)
            } else {
                Seq::empty()
            },
            tracks: track_views(self.tracks@),
            phase: match self.stage {
                Stage::Walking => Phase::Walking { root: self.root@ },
                Stage::Reading => Phase::Reading { root: self.root@, path: self.path@ },
                Stage::Committing => Phase::Committing,
                Stage::Finished => Phase::Finished { result: result_view(self.result) },
            },
        }
    }
}

impl Indexer {
    /// A run that indexes the paths of `backend` into the catalog of
    /// `user`, on the machine `machine_id`; `None` says that the machine
    /// could not be identified.
    pub fn new(user: &User, backend: &FileBackend, machine_id: Option<String>) -> (indexer: Self)
        ensures
            indexer@ == Run::start(
                location(user.name@),
                text_view(machine_id),
                texts(backend.paths@),
            ),
    {
        let roots = clone_texts(&backend.paths);
        let mut indexer = Indexer {
            location: user.db_name(),
            machine_id: String::new(),
            roots,
            next_root: 0,
            files: Vec::new(),
            next_file: 0,
            tracks: Vec::new(),
            stage: Stage::Finished,
            root: String::new(),
            path: String::new(),
            result: Err(IndexError::IdentityUnavailable),
        };
        assert(indexer@.later_roots =~= texts(backend.paths@));
        assert(indexer@.later_files =~= Seq::empty());
        assert(indexer@.tracks =~= Seq::empty());
        match machine_id {
            Some(machine_id) => {
                indexer.machine_id = machine_id;
                indexer.stage = Stage::Committing;
                indexer.proceed();
            },
            None => {},
        }
        indexer
    }

    /// Turns to the next piece of work.
    fn proceed(&mut self)
        ensures
            final(self)@ == old(self)@.proceed(old(self).root@),
    {
        if self.next_file < self.files.len() {
            self.path = self.files[self.next_file].path.clone();
            self.next_file = self.next_file + 1;
            self.stage = Stage::Reading;
            assert(self@.later_files =~= old(self)@.later_files.drop_first());
        } else if self.next_root < self.roots.len() {
            self.root = self.roots[self.next_root].clone();
            self.next_root = self.next_root + 1;
            self.stage = Stage::Walking;
            assert(self@.later_roots =~= old(self)@.later_roots.drop_first());
        } else {
            self.stage = Stage::Committing;
        }
    }

    /// What the caller has to do now.
    pub fn pending(&self) -> (action: Action<'_>)
        ensures
            action@ == self@.pending(),
    {
        match self.stage {
            Stage::Walking => Action::Walk(self.root.as_str()),
            Stage::Reading => Action::ReadTag(self.path.as_str()),
            Stage::Committing => Action::Commit {
                location: self.location.as_str(),
                tracks: &self.tracks,
            },
            Stage::Finished => Action::Done(&self.result),
        }
    }

    /// Takes the outcome of what was due.
    pub fn step(&mut self, event: Event)
        ensures
            final(self)@ == old(self)@.advance(event@),
    {
        match (self.stage, event) {
            (Stage::Walking, Event::Walked(Some(entries))) => {
                self.files = music_entries(entries);
                self.next_file = 0;
                assert(self@.later_files =~= music_of(entry_views(entries@)));
                self.proceed();
            },
            (Stage::Walking, Event::Walked(None)) => {
                self.result = Err(IndexError::UnreachableRoot(self.root.clone()));
                self.stage = Stage::Finished;
            },
            (Stage::Reading, Event::TagRead(Some(tag))) => {
                let uri = Uri::File(FileUri::new(self.machine_id.as_str(), self.root.as_str()));
                let ghost before = self.tracks@;
                let track = Track::from_tag(tag, uri);
                self.tracks.push(track);
                assert(track_views(self.tracks@) =~= track_views(before).push(track@));
                self.proceed();
            },
            (Stage::Reading, Event::TagRead(None)) => {
                self.proceed();
            },
            (Stage::Committing, Event::Committed(taken)) => {
                self.result = if taken {
                    Ok(())
                } else {
                    Err(IndexError::StorageUnavailable)
                };
                self.stage = Stage::Finished;
            },
            _ => {},
        }
    }
}

} // verus!
