use cdn::error::Error;
use cdn::rsync::lock::{Download, LockMeta, LockStore, Outcome};
use cdn::rsync::parser::SkinMeta;

fn skin(name: &str, marker: &str) -> SkinMeta {
    SkinMeta {
        origin: format!("https://ddnet.org/skins/skin/{name}.png"),
        name: name.to_string(),
        ita: marker.to_string(),
    }
}

fn saved(name: &str, marker: &str) -> Download {
    Download {
        skin: skin(name, marker),
        outcome: Outcome::Saved { path: format!("/srv/.store/{name}.png") },
    }
}

#[test]
fn new_skin_is_downloaded_once() {
    let mut store = LockStore::new("./.store".to_string());
    let catalog = vec![skin("ez", "01-Jan-2024 00:00")];
    let wanted = store.prepare_to_download(&catalog);
    assert_eq!(wanted, vec![skin("ez", "01-Jan-2024 00:00")]);
    let errors = store.apply_updates(&[saved("ez", "01-Jan-2024 00:00")]);
    assert!(errors.is_empty());
    let meta = store.lookup("ez").unwrap();
    assert_eq!(meta.path, "/srv/.store/ez.png");
    assert_eq!(meta.origin, "https://ddnet.org/skins/skin/ez.png");
    assert_eq!(meta.ita, "01-Jan-2024 00:00");
    assert!(store.prepare_to_download(&catalog).is_empty());
    assert!(store.prepare_to_download(&catalog).is_empty());
}

#[test]
fn empty_store_knows_nothing() {
    let store = LockStore::new("./.store".to_string());
    assert_eq!(store.path(), "./.store");
    assert!(store.lookup("ez").is_none());
    assert!(store.names().is_empty());
    assert!(store.entries().is_empty());
    assert!(store.prepare_to_download(&[]).is_empty());
}

#[test]
fn changed_marker_or_origin_is_outdated() {
    let mut store = LockStore::new("s".to_string());
    store.apply_updates(&[saved("a", "01-Jan-2024 00:00"), saved("b", "01-Jan-2024 00:00")]);
    let mut moved = skin("b", "01-Jan-2024 00:00");
    moved.origin = "https://ddnet.org/skins/skin/community/b.png".to_string();
    let catalog = vec![skin("a", "02-Jan-2024 00:00"), moved.clone(), skin("c", "01-Jan-2024 00:00")];
    let wanted = store.prepare_to_download(&catalog);
    assert_eq!(wanted, vec![skin("a", "02-Jan-2024 00:00"), moved, skin("c", "01-Jan-2024 00:00")]);
    let same = vec![skin("a", "01-Jan-2024 00:00"), skin("b", "01-Jan-2024 00:00")];
    assert!(store.prepare_to_download(&same).is_empty());
}

#[test]
fn entry_is_outdated_when_new_or_changed() {
    let mut store = LockStore::new("s".to_string());
    assert!(store.is_outdated(&skin("a", "1")));
    store.apply_updates(&[saved("a", "1")]);
    assert!(!store.is_outdated(&skin("a", "1")));
    assert!(store.is_outdated(&skin("a", "2")));
    assert!(store.is_outdated(&skin("b", "1")));
}

#[test]
fn eq_lock_meta_compares_marker_and_origin() {
    let s = skin("a", "01-Jan-2024 00:00");
    let mut meta = LockMeta {
        path: "/x/a.png".to_string(),
        origin: s.origin.clone(),
        ita: s.ita.clone(),
    };
    assert!(s.eq_lock_meta(&meta));
    meta.path = "/elsewhere".to_string();
    assert!(s.eq_lock_meta(&meta));
    meta.ita = "02-Jan-2024 00:00".to_string();
    assert!(!s.eq_lock_meta(&meta));
    meta.ita = s.ita.clone();
    meta.origin = "other".to_string();
    assert!(!s.eq_lock_meta(&meta));
}

#[test]
fn one_failure_leaves_the_others_their_records() {
    let mut store = LockStore::new("s".to_string());
    let done = vec![
        saved("a", "m"),
        Download { skin: skin("b", "m"), outcome: Outcome::DownloadFailed { error: "timed out".to_string() } },
        saved("c", "m"),
    ];
    let errors = store.apply_updates(&done);
    assert_eq!(
        errors,
        vec![Error::DownloadFailed { name: "b".to_string(), error: "timed out".to_string() }]
    );
    assert!(store.lookup("a").is_some());
    assert!(store.lookup("b").is_none());
    assert!(store.lookup("c").is_some());
    let mut names = store.names();
    names.sort();
    assert_eq!(names, vec!["a".to_string(), "c".to_string()]);
}

#[test]
fn each_outcome_gives_its_error() {
    let mut store = LockStore::new("s".to_string());
    let s = skin("a", "m");
    let none = store.record(&Download { skin: s.clone(), outcome: Outcome::Lost });
    assert_eq!(none, None);
    let io = store.record(&Download { skin: s.clone(), outcome: Outcome::Io { error: "disk full".to_string() } });
    assert_eq!(io, Some(Error::Io("disk full".to_string())));
    let save = store.record(&Download {
        skin: s.clone(),
        outcome: Outcome::SaveFailed { path: "/x/a.png".to_string(), error: "denied".to_string() },
    });
    assert_eq!(
        save,
        Some(Error::SaveFailed {
            path: "/x/a.png".to_string(),
            name: "a".to_string(),
            error: "denied".to_string()
        })
    );
    let dl = store.record(&Download { skin: s.clone(), outcome: Outcome::DownloadFailed { error: "404".to_string() } });
    assert_eq!(dl, Some(Error::DownloadFailed { name: "a".to_string(), error: "404".to_string() }));
    assert!(store.lookup("a").is_none());
    let ok = store.record(&saved("a", "m"));
    assert_eq!(ok, None);
    assert!(store.lookup("a").is_some());
}

#[test]
fn a_later_download_replaces_the_record() {
    let mut store = LockStore::new("s".to_string());
    store.apply_updates(&[saved("a", "old")]);
    let newer = Download {
        skin: skin("a", "new"),
        outcome: Outcome::Saved { path: "/other/a.png".to_string() },
    };
    store.apply_updates(&[newer]);
    let meta = store.lookup("a").unwrap();
    assert_eq!(meta.ita, "new");
    assert_eq!(meta.path, "/other/a.png");
    assert_eq!(store.names().len(), 1);
}

#[test]
fn snapshot_round_trip_restores_the_records() {
    let mut store = LockStore::new("s".to_string());
    store.apply_updates(&[saved("a", "1"), saved("b", "2"), saved("c", "3")]);
    let entries = store.entries();
    assert_eq!(entries.len(), 3);
    let restored = LockStore::from_entries("s".to_string(), &entries);
    assert_eq!(restored.path(), "s");
    for name in ["a", "b", "c"] {
        assert_eq!(restored.lookup(name), store.lookup(name));
        assert!(restored.lookup(name).is_some());
    }
    assert_eq!(restored.names().len(), 3);
}

#[test]
fn of_two_entries_of_one_name_the_later_stays() {
    let first = LockMeta { path: "/old/a.png".to_string(), origin: "o".to_string(), ita: "1".to_string() };
    let second = LockMeta { path: "/new/a.png".to_string(), origin: "o".to_string(), ita: "2".to_string() };
    let store = LockStore::from_entries(
        "s".to_string(),
        &[("a".to_string(), first), ("a".to_string(), second.clone())],
    );
    assert_eq!(store.lookup("a"), Some(second));
}
