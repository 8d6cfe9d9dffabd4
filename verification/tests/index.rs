use music_catalog::backend::FileBackend;
use music_catalog::error::IndexError;
use music_catalog::index::{Action, Event, Indexer};
use music_catalog::track::{
    gather, is_file_type, is_music, music_entries, Entry, Tag, Track,
};
use music_catalog::uri::{FileUri, Uri};
use music_catalog::user::User;

fn entry(path: &str, is_file: bool, extension: Option<&str>) -> Entry {
    Entry { path: path.into(), is_file, extension: extension.map(|e| e.into()) }
}

fn alice() -> User {
    User { name: "alice".into(), email: None, backends: None }
}

fn backend(paths: &[&str]) -> FileBackend {
    FileBackend {
        id: "123".into(),
        machine_id: "foo-bar".into(),
        paths: paths.iter().map(|p| p.to_string()).collect(),
    }
}

#[test]
fn audio_files_are_told_by_extension() {
    assert!(is_music(&entry("/m/a.mp3", true, Some("mp3"))));
    assert!(is_music(&entry("/m/c.ogg", true, Some("ogg"))));
    assert!(!is_music(&entry("/m/b.txt", true, Some("txt"))));
    assert!(!is_music(&entry("/m/A.MP3", true, Some("MP3"))));
    assert!(!is_music(&entry("/m/noext", true, None)));
    assert!(!is_music(&entry("/m/dir.mp3", false, Some("mp3"))));
    assert!(is_file_type(&entry("/m/b.txt", true, Some("txt")), "txt"));
    assert!(!is_file_type(&entry("/m/b.txt", true, Some("txt")), "tx"));
}

#[test]
fn music_entries_keeps_order() {
    let kept = music_entries(vec![
        entry("/m", false, None),
        entry("/m/a.mp3", true, Some("mp3")),
        entry("/m/b.txt", true, Some("txt")),
        entry("/m/c.ogg", true, Some("ogg")),
    ]);
    assert_eq!(
        kept,
        vec![entry("/m/a.mp3", true, Some("mp3")), entry("/m/c.ogg", true, Some("ogg"))]
    );
}

#[test]
fn gather_passes_over_what_cannot_be_read_further_down() {
    assert_eq!(gather(vec![]), Some(vec![]));
    assert_eq!(
        gather(vec![
            Ok(entry("/m", false, None)),
            Err(2),
            Ok(entry("/m/a.mp3", true, Some("mp3"))),
            Err(1),
        ]),
        Some(vec![entry("/m", false, None), entry("/m/a.mp3", true, Some("mp3"))])
    );
}

#[test]
fn gather_fails_where_the_root_cannot_be_read() {
    assert_eq!(gather(vec![Err(0)]), None);
    assert_eq!(gather(vec![Ok(entry("/m", false, None)), Err(1), Err(0)]), None);
}

#[test]
fn track_takes_defaults_for_what_the_tag_lacks() {
    let uri = Uri::File(FileUri::new("foo-bar", "/m"));
    let tag = Tag { artist: Some("X".into()), album: None, title: Some("Y".into()), track: None };
    assert_eq!(
        Track::from_tag(tag, uri.clone()),
        Track { artist: "X".into(), album: "".into(), name: "Y".into(), number: 0, uri: uri.clone() }
    );
    let tag = Tag { artist: None, album: Some("Z".into()), title: None, track: Some(7) };
    assert_eq!(
        Track::from_tag(tag, uri.clone()),
        Track { artist: "".into(), album: "Z".into(), name: "".into(), number: 7, uri }
    );
}

#[test]
fn run_indexes_the_readable_audio_files() {
    let mut indexer = Indexer::new(&alice(), &backend(&["/m"]), Some("foo-bar".into()));
    assert_eq!(indexer.pending(), Action::Walk("/m"));
    indexer.step(Event::Walked(Some(vec![
        entry("/m", false, None),
        entry("/m/a.mp3", true, Some("mp3")),
        entry("/m/b.txt", true, Some("txt")),
        entry("/m/c.ogg", true, Some("ogg")),
    ])));
    assert_eq!(indexer.pending(), Action::ReadTag("/m/a.mp3"));
    indexer.step(Event::TagRead(Some(Tag {
        artist: Some("X".into()),
        album: None,
        title: Some("Y".into()),
        track: None,
    })));
    assert_eq!(indexer.pending(), Action::ReadTag("/m/c.ogg"));
    indexer.step(Event::TagRead(None));
    let expected = vec![Track {
        artist: "X".into(),
        album: "".into(),
        name: "Y".into(),
        number: 0,
        uri: Uri::File(FileUri::new("foo-bar", "/m")),
    }];
    assert_eq!(
        indexer.pending(),
        Action::Commit { location: "userdb-616c696365", tracks: &expected }
    );
    indexer.step(Event::Committed(true));
    assert_eq!(indexer.pending(), Action::Done(&Ok(())));
}

#[test]
fn run_without_tracks_commits_an_empty_catalog() {
    let mut indexer = Indexer::new(&alice(), &backend(&["/empty"]), Some("foo-bar".into()));
    assert_eq!(indexer.pending(), Action::Walk("/empty"));
    indexer.step(Event::Walked(Some(vec![entry("/empty", false, None)])));
    assert_eq!(
        indexer.pending(),
        Action::Commit { location: "userdb-616c696365", tracks: &Vec::new() }
    );
    indexer.step(Event::Committed(true));
    assert_eq!(indexer.pending(), Action::Done(&Ok(())));
}

#[test]
fn run_without_roots_commits_an_empty_catalog() {
    let indexer = Indexer::new(&alice(), &backend(&[]), Some("foo-bar".into()));
    assert_eq!(
        indexer.pending(),
        Action::Commit { location: "userdb-616c696365", tracks: &Vec::new() }
    );
}

#[test]
fn run_walks_every_root_in_turn() {
    let mut indexer = Indexer::new(&alice(), &backend(&["/a", "/b"]), Some("m".into()));
    assert_eq!(indexer.pending(), Action::Walk("/a"));
    indexer.step(Event::Walked(Some(vec![entry("/a/1.ogg", true, Some("ogg"))])));
    assert_eq!(indexer.pending(), Action::ReadTag("/a/1.ogg"));
    indexer.step(Event::TagRead(Some(Tag { artist: None, album: None, title: None, track: Some(3) })));
    assert_eq!(indexer.pending(), Action::Walk("/b"));
    indexer.step(Event::Walked(Some(vec![entry("/b/2.mp3", true, Some("mp3"))])));
    assert_eq!(indexer.pending(), Action::ReadTag("/b/2.mp3"));
    indexer.step(Event::TagRead(Some(Tag {
        artist: None,
        album: None,
        title: Some("two".into()),
        track: None,
    })));
    let expected = vec![
        Track {
            artist: "".into(),
            album: "".into(),
            name: "".into(),
            number: 3,
            uri: Uri::File(FileUri::new("m", "/a")),
        },
        Track {
            artist: "".into(),
            album: "".into(),
            name: "two".into(),
            number: 0,
            uri: Uri::File(FileUri::new("m", "/b")),
        },
    ];
    assert_eq!(
        indexer.pending(),
        Action::Commit { location: "userdb-616c696365", tracks: &expected }
    );
}

#[test]
fn run_fails_on_a_root_that_cannot_be_enumerated() {
    let mut indexer = Indexer::new(&alice(), &backend(&["/a", "/gone"]), Some("m".into()));
    indexer.step(Event::Walked(Some(vec![entry("/a/1.ogg", true, Some("ogg"))])));
    indexer.step(Event::TagRead(Some(Tag { artist: None, album: None, title: None, track: None })));
    assert_eq!(indexer.pending(), Action::Walk("/gone"));
    indexer.step(Event::Walked(None));
    assert_eq!(
        indexer.pending(),
        Action::Done(&Err(IndexError::UnreachableRoot("/gone".into())))
    );
    indexer.step(Event::Committed(true));
    assert_eq!(
        indexer.pending(),
        Action::Done(&Err(IndexError::UnreachableRoot("/gone".into())))
    );
}

#[test]
fn run_fails_when_the_store_refuses() {
    let mut indexer = Indexer::new(&alice(), &backend(&[]), Some("m".into()));
    indexer.step(Event::Committed(false));
    assert_eq!(indexer.pending(), Action::Done(&Err(IndexError::StorageUnavailable)));
}

#[test]
fn run_fails_without_a_machine_identifier() {
    let indexer = Indexer::new(&alice(), &backend(&["/a"]), None);
    assert_eq!(indexer.pending(), Action::Done(&Err(IndexError::IdentityUnavailable)));
}

#[test]
fn run_ignores_an_event_that_is_not_due() {
    let mut indexer = Indexer::new(&alice(), &backend(&["/a"]), Some("m".into()));
    indexer.step(Event::TagRead(None));
    indexer.step(Event::Committed(true));
    assert_eq!(indexer.pending(), Action::Walk("/a"));
}
