use cdn::error::Error;
use cdn::rsync::lock::{Download, LockStore, Outcome};
use cdn::rsync::parser::SkinMeta;
use cdn::rsync::pass::{Action, Event, Phase, SyncPass, POOL_WIDTH};
use cdn::rsync::{sources, SYNC_INTERVAL_SECS};

fn skin(name: &str) -> SkinMeta {
    SkinMeta {
        origin: format!("https://ddnet.org/skins/skin/{name}.png"),
        name: name.to_string(),
        ita: "01-Jan-2024 00:00".to_string(),
    }
}

fn saved(name: &str) -> Download {
    Download { skin: skin(name), outcome: Outcome::Saved { path: format!("/srv/{name}.png") } }
}

fn failed(name: &str) -> Download {
    Download { skin: skin(name), outcome: Outcome::DownloadFailed { error: "network".to_string() } }
}

#[test]
fn pool_width_is_ten() {
    assert_eq!(POOL_WIDTH, 10);
}

#[test]
fn official_source_goes_first() {
    assert_eq!(
        sources(),
        vec!["https://ddnet.org/skins/skin/", "https://ddnet.org/skins/skin/community/"]
    );
    assert_eq!(SYNC_INTERVAL_SECS, 60 * 60);
}

#[test]
fn pass_with_nothing_to_update_ends_at_once() {
    let mut store = LockStore::new("s".to_string());
    store.apply_updates(&[saved("ez")]);
    let mut pass = SyncPass::new();
    assert_eq!(pass.phase(), Phase::Scanning);
    let action = pass.step(&mut store, Event::Catalogs(vec![vec![skin("ez")], vec![]]));
    assert_eq!(action, Action::Finish(None));
    assert_eq!(pass.phase(), Phase::Finished);
    assert_eq!(pass.step(&mut store, Event::Persisted), Action::Wait);
}

#[test]
fn failed_catalog_ends_the_pass_with_its_error() {
    let mut store = LockStore::new("s".to_string());
    let mut pass = SyncPass::new();
    let action = pass.step(&mut store, Event::CatalogFailed(Error::Reqwest("unreachable".to_string())));
    assert_eq!(action, Action::Finish(Some(Error::Reqwest("unreachable".to_string()))));
    assert_eq!(pass.phase(), Phase::Finished);
    assert!(store.names().is_empty());
}

#[test]
fn one_failed_download_does_not_stop_the_pass() {
    let mut store = LockStore::new("s".to_string());
    let mut pass = SyncPass::new();
    let catalog = vec![skin("a"), skin("b"), skin("c")];
    let action = pass.step(&mut store, Event::Catalogs(vec![catalog.clone()]));
    assert_eq!(action, Action::Download(catalog.clone()));
    assert_eq!(pass.phase(), Phase::Downloading);
    assert_eq!(pass.in_flight(), 3);
    assert_eq!(pass.waiting(), 0);
    assert_eq!(pass.step(&mut store, Event::Completed(saved("c"))), Action::Wait);
    assert_eq!(pass.step(&mut store, Event::Completed(failed("b"))), Action::Wait);
    assert_eq!(pass.in_flight(), 1);
    assert_eq!(pass.step(&mut store, Event::Completed(saved("a"))), Action::Persist);
    assert_eq!(pass.phase(), Phase::Persisting);
    assert_eq!(
        pass.errors(),
        &vec![Error::DownloadFailed { name: "b".to_string(), error: "network".to_string() }]
    );
    assert!(store.lookup("a").is_some());
    assert!(store.lookup("b").is_none());
    assert!(store.lookup("c").is_some());
    assert_eq!(pass.step(&mut store, Event::Persisted), Action::Finish(None));
    assert_eq!(pass.phase(), Phase::Finished);
    assert_eq!(store.prepare_to_download(&catalog), vec![skin("b")]);
}

#[test]
fn last_download_failing_still_persists() {
    let mut store = LockStore::new("s".to_string());
    let mut pass = SyncPass::new();
    pass.step(&mut store, Event::Catalogs(vec![vec![skin("a")]]));
    assert_eq!(pass.step(&mut store, Event::Completed(failed("a"))), Action::Persist);
    let action = pass.step(&mut store, Event::PersistFailed(Error::Io("disk full".to_string())));
    assert_eq!(action, Action::Finish(Some(Error::Io("disk full".to_string()))));
}

#[test]
fn at_most_ten_downloads_are_in_flight() {
    let mut store = LockStore::new("s".to_string());
    let mut pass = SyncPass::new();
    let names: Vec<String> = (0..13).map(|i| format!("skin{i}")).collect();
    let catalog: Vec<SkinMeta> = names.iter().map(|n| skin(n)).collect();
    let action = pass.step(&mut store, Event::Catalogs(vec![catalog.clone()]));
    assert_eq!(action, Action::Download(catalog[..10].to_vec()));
    assert_eq!(pass.in_flight(), 10);
    assert_eq!(pass.waiting(), 3);
    for i in 0..3 {
        let action = pass.step(&mut store, Event::Completed(saved(&names[i])));
        assert_eq!(action, Action::Download(vec![catalog[10 + i].clone()]));
        assert_eq!(pass.in_flight(), 10);
    }
    assert_eq!(pass.waiting(), 0);
    for i in 3..12 {
        assert_eq!(pass.step(&mut store, Event::Completed(saved(&names[i]))), Action::Wait);
    }
    assert_eq!(pass.in_flight(), 1);
    assert_eq!(pass.step(&mut store, Event::Completed(saved(&names[12]))), Action::Persist);
    assert_eq!(pass.in_flight(), 0);
    assert_eq!(store.names().len(), 13);
    assert!(pass.errors().is_empty());
}

#[test]
fn events_out_of_turn_change_nothing() {
    let mut store = LockStore::new("s".to_string());
    let mut pass = SyncPass::new();
    assert_eq!(pass.step(&mut store, Event::Completed(saved("a"))), Action::Wait);
    assert_eq!(pass.step(&mut store, Event::Persisted), Action::Wait);
    assert_eq!(pass.phase(), Phase::Scanning);
    assert!(store.names().is_empty());
    pass.step(&mut store, Event::Catalogs(vec![vec![skin("a")]]));
    assert_eq!(pass.step(&mut store, Event::Persisted), Action::Wait);
    assert_eq!(pass.step(&mut store, Event::Catalogs(vec![])), Action::Wait);
    assert_eq!(pass.phase(), Phase::Downloading);
    assert_eq!(pass.in_flight(), 1);
}

#[test]
fn merged_catalog_prefers_the_first_source() {
    let mut store = LockStore::new("s".to_string());
    let mut pass = SyncPass::new();
    let mut community = skin("ez");
    community.origin = "https://ddnet.org/skins/skin/community/ez.png".to_string();
    community.ita = "02-Feb-2025 11:11".to_string();
    let action = pass.step(&mut store, Event::Catalogs(vec![vec![skin("ez")], vec![community]]));
    assert_eq!(action, Action::Download(vec![skin("ez")]));
}
