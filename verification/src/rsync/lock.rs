//! The metadata store: one record per mirrored skin.

use dashmap::DashMap;
use vstd::prelude::*;
use crate::error::{Error, ErrorView};
use crate::rsync::parser::{skin_views, SkinMeta, SkinMetaView};

verus! {

/// `dashmap::DashMap`, the concurrent hash map. Nothing of its inside is
/// known here: what a map holds goes by the names `lock_records` and
/// `cache_entries`, and only the functions next to them say anything of it.
/// The crate's methods change a map through a shared reference; here a map
/// is changed only through an exclusive one, so that what a map holds stays
/// the same for as long as it is shared.
#[verifier::external_type_specification]
#[verifier::external_body]
#[verifier::reject_recursive_types(K)]
#[verifier::reject_recursive_types(V)]
#[verifier::reject_recursive_types(S)]
pub struct ExDashMap<K, V, S>(DashMap<K, V, S>);

/// What is kept for a mirrored skin.
#[derive(Debug, PartialEq, Eq)]
pub struct LockMeta {
    /// Absolute path of the local copy.
    pub path: String,
    /// Download link.
    pub origin: String,
    /// Last-modified marker, as the catalog printed it.
    pub ita: String,
}

/// The mathematical value of a `LockMeta`.
pub struct LockMetaView {
    pub path: Seq<char>,
    pub origin: Seq<char>,
    pub ita: Seq<char>,
}

impl View for LockMeta {
    type V = LockMetaView;

    open spec fn view(&self) -> LockMetaView {
        LockMetaView { path: self.path@, origin: self.origin@, ita: self.ita@ }
    }
}

impl Clone for LockMeta {
    fn clone(&self) -> (r: Self)
        ensures
            r@ == self@,
    {
        LockMeta { path: self.path.clone(), origin: self.origin.clone(), ita: self.ita.clone() }
    }
}

/// The records that a map of the store holds, by skin name. Two names are
/// the same key when they are the same text.
pub uninterp spec fn lock_records(m: DashMap<String, LockMeta>) -> Map<Seq<char>, LockMetaView>;

/// The store that holds no record.
pub open spec fn no_records() -> Map<Seq<char>, LockMetaView> {
    Map::empty()
}

/// `DashMap::new`: a map that holds nothing.
#[verifier::external_body]
fn records_new() -> (r: DashMap<String, LockMeta>)
    ensures
        lock_records(r) == no_records(),
{
    DashMap::new()
}

/// `DashMap::get`: a copy of the record under `name`, if the map holds one;
/// keys are compared as strings.
#[verifier::external_body]
fn records_get(m: &DashMap<String, LockMeta>, name: &str) -> (r: Option<LockMeta>)
    ensures
        r is Some == lock_records(*m).contains_key(name@),
        r matches Some(meta) ==> meta@ == lock_records(*m)[name@],
{
    m.get(name).map(|e| e.value().clone())
}

/// `DashMap::insert`: the record stands under `name` afterwards, in place of
/// what was there; every other key keeps what it had.
#[verifier::external_body]
fn records_insert(m: &mut DashMap<String, LockMeta>, name: String, meta: LockMeta)
    ensures
        lock_records(*final(m)) == lock_records(*old(m)).insert(name@, meta@),
{
    m.insert(name, meta);
}

/// The values of a list of entries, in order.
pub open spec fn entry_views(entries: Seq<(String, LockMeta)>) -> Seq<(Seq<char>, LockMetaView)> {
    entries.map_values(|e: (String, LockMeta)| (e.0@, e.1@))
}

/// `list` holds every entry of `records` exactly once.
pub open spec fn is_listing(
    list: Seq<(Seq<char>, LockMetaView)>,
    records: Map<Seq<char>, LockMetaView>,
) -> bool {
    &&& forall|i: int|
        0 <= i < list.len() ==> records.contains_key(#[trigger] list[i].0) && records[list[i].0]
            == list[i].1
    &&& forall|k: Seq<char>|
        records.contains_key(k) ==> exists|i: int| 0 <= i < list.len() && #[trigger] list[i].0 == k
    &&& forall|i: int, j: int| 0 <= i < j < list.len() ==> list[i].0 != list[j].0
}

/// `DashMap::iter`: every entry of the map exactly once, in no stated order.
#[verifier::external_body]
fn records_entries(m: &DashMap<String, LockMeta>) -> (r: Vec<(String, LockMeta)>)
    ensures
        is_listing(entry_views(r@), lock_records(*m)),
{
    m.iter().map(|e| (e.key().clone(), e.value().clone())).collect()
}

/// The metadata store: a directory and the records of what is mirrored in it.
pub struct LockStore {
    /// Directory of the mirror.
    path: String,
    /// Records by skin name.
    store: DashMap<String, LockMeta>,
}

impl View for LockStore {
    type V = Map<Seq<char>, LockMetaView>;

    closed spec fn view(&self) -> Map<Seq<char>, LockMetaView> {
        lock_records(self.store)
    }
}

/// Whether a catalog entry has to be fetched: the store has no record of
/// its name, or the record differs from it in marker or origin.
pub open spec fn needs_download(records: Map<Seq<char>, LockMetaView>, skin: SkinMetaView) -> bool {
    !records.contains_key(skin.name) || !skin.matches(records[skin.name])
}

/// `needs_download` as a predicate on entries.
pub open spec fn outdated_in(records: Map<Seq<char>, LockMetaView>) -> spec_fn(SkinMetaView) -> bool {
    |skin: SkinMetaView| needs_download(records, skin)
}

/// The entries of a catalog that have to be fetched, in the catalog's order.
pub open spec fn download_set(
    records: Map<Seq<char>, LockMetaView>,
    catalog: Seq<SkinMetaView>,
) -> Seq<SkinMetaView> {
    catalog.filter(outdated_in(records))
}

impl LockStore {
    /// Whether a catalog entry has to be fetched: it is new, or the record
    /// of its name differs from it in marker or origin.
    pub fn is_outdated(&self, skin: &SkinMeta) -> (r: bool)
        ensures
            r == needs_download(self@, skin@),
    {
        match self.lookup(skin.name.as_str()) {
            Some(meta) => !skin.eq_lock_meta(&meta),
            None => true,
        }
    }

    /// Compares a catalog with the store and returns the entries that are
    /// new or outdated, in the catalog's order. The store is not changed.
    pub fn prepare_to_download(&self, skins: &[SkinMeta]) -> (r: Vec<SkinMeta>)
        ensures
            skin_views(r@) == download_set(self@, skin_views(skins@)),
    {
        let mut out: Vec<SkinMeta> = Vec::new();
        let mut i: usize = 0;
        proof {
            reveal(Seq::filter);
            assert(skin_views(skins@.take(0)) =~= Seq::<SkinMetaView>::empty());
            assert(skin_views(out@) =~= Seq::<SkinMetaView>::empty());
        }
        while i < skins.len()
            invariant
                i <= skins.len(),
                skin_views(out@) == download_set(self@, skin_views(skins@.take(i as int))),
            decreases skins.len() - i,
        {
            let skin = &skins[i];
            let wanted = self.is_outdated(skin);
            let ghost before = skin_views(out@);
            if wanted {
                out.push(skin.clone());
            }
            proof {
                let prefix = skin_views(skins@.take(i as int));
                let next = skin_views(skins@.take(i + 1));
                assert(next.drop_last() =~= prefix);
                assert(next.last() == skin@);
                reveal(Seq::filter);
                assert(wanted == outdated_in(self@)(skin@));
                if wanted {
                    assert(skin_views(out@) =~= before.push(skin@));
                }
            }
            i += 1;
        }
        proof {
            assert(skins@.take(i as int) =~= skins@);
        }
        out
    }

    /// An empty store for the directory `path`.
    pub fn new(path: String) -> (r: LockStore)
        ensures
            r.dir() == path@,
            r@ == no_records(),
    {
        LockStore { path, store: records_new() }
    }

    /// The directory of the mirror.
    pub closed spec fn dir(&self) -> Seq<char> {
        self.path@
    }

    /// The directory of the mirror.
    pub fn path(&self) -> (r: &String)
        ensures
            r@ == self.dir(),
    {
        &self.path
    }

    /// The record of `name`, if the store has one.
    pub fn lookup(&self, name: &str) -> (r: Option<LockMeta>)
        ensures
            r is Some == self@.contains_key(name@),
            r matches Some(meta) ==> meta@ == self@[name@],
    {
        records_get(&self.store, name)
    }
}


/// How the download of one skin ended.
#[derive(Debug, PartialEq, Eq)]
pub enum Outcome {
    /// The body was fetched and written; `path` is where it lies.
    Saved { path: String },
    /// The body was fetched, but the file at `path` could not be created.
    SaveFailed { path: String, error: String },
    /// The request failed, or the body could not be read.
    DownloadFailed { error: String },
    /// The file was created, but writing or resolving it failed.
    Io { error: String },
    /// The worker ended abnormally before it could report.
    Lost,
}

/// The mathematical value of an `Outcome`.
pub enum OutcomeView {
    Saved { path: Seq<char> },
    SaveFailed { path: Seq<char>, error: Seq<char> },
    DownloadFailed { error: Seq<char> },
    Io { error: Seq<char> },
    Lost,
}

impl View for Outcome {
    type V = OutcomeView;

    open spec fn view(&self) -> OutcomeView {
        match self {
            Outcome::Saved { path } => OutcomeView::Saved { path: path@ },
            Outcome::SaveFailed { path, error } => OutcomeView::SaveFailed {
                path: path@,
                error: error@,
            },
            Outcome::DownloadFailed { error } => OutcomeView::DownloadFailed { error: error@ },
            Outcome::Io { error } => OutcomeView::Io { error: error@ },
            Outcome::Lost => OutcomeView::Lost,
        }
    }
}

/// A download that has ended: the catalog entry and what became of it.
#[derive(Debug, PartialEq, Eq)]
pub struct Download {
    pub skin: SkinMeta,
    pub outcome: Outcome,
}

/// The mathematical value of a `Download`.
pub struct DownloadView {
    pub skin: SkinMetaView,
    pub outcome: OutcomeView,
}

impl View for Download {
    type V = DownloadView;

    open spec fn view(&self) -> DownloadView {
        DownloadView { skin: self.skin@, outcome: self.outcome@ }
    }
}

/// The values of a list of downloads, in order.
pub open spec fn download_views(done: Seq<Download>) -> Seq<DownloadView> {
    done.map_values(|d: Download| d@)
}

/// The record that a skin gets once its file lies at `path`.
pub open spec fn record_of(skin: SkinMetaView, path: Seq<char>) -> LockMetaView {
    LockMetaView { path, origin: skin.origin, ita: skin.ita }
}

/// The records after one download: a saved skin replaces the record of its
/// name as a whole, anything else leaves the records as they were.
pub open spec fn after_download(
    records: Map<Seq<char>, LockMetaView>,
    done: DownloadView,
) -> Map<Seq<char>, LockMetaView> {
    match done.outcome {
        OutcomeView::Saved { path } => records.insert(done.skin.name, record_of(done.skin, path)),
        _ => records,
    }
}

/// The failure that one download adds to the report of the pass. A worker
/// that was lost names no skin and is only logged.
pub open spec fn failure_of(done: DownloadView) -> Option<ErrorView> {
    match done.outcome {
        OutcomeView::Saved { .. } => None,
        OutcomeView::SaveFailed { path, error } => Some(
            ErrorView::SaveFailed { path, name: done.skin.name, error },
        ),
        OutcomeView::DownloadFailed { error } => Some(
            ErrorView::DownloadFailed { name: done.skin.name, error },
        ),
        OutcomeView::Io { error } => Some(ErrorView::Io(error)),
        OutcomeView::Lost => None,
    }
}

/// The records after a list of downloads, taken in order.
pub open spec fn after_downloads(
    records: Map<Seq<char>, LockMetaView>,
    done: Seq<DownloadView>,
) -> Map<Seq<char>, LockMetaView>
    decreases done.len(),
{
    if done.len() == 0 {
        records
    } else {
        after_download(after_downloads(records, done.drop_last()), done.last())
    }
}

/// The failures of a list of downloads, in order.
pub open spec fn failures_of(done: Seq<DownloadView>) -> Seq<ErrorView>
    decreases done.len(),
{
    if done.len() == 0 {
        Seq::empty()
    } else {
        match failure_of(done.last()) {
            Some(e) => failures_of(done.drop_last()).push(e),
            None => failures_of(done.drop_last()),
        }
    }
}

/// The values of a list of errors, in order.
pub open spec fn error_views(errors: Seq<Error>) -> Seq<ErrorView> {
    errors.map_values(|e: Error| e@)
}

impl LockStore {
    /// Takes note of one download. A saved skin gets its record, in place of
    /// the one it had; a failure leaves the store alone and is handed back,
    /// tagged with the name of the skin.
    pub fn record(&mut self, done: &Download) -> (r: Option<Error>)
        ensures
            final(self)@ == after_download(old(self)@, done@),
            final(self).dir() == old(self).dir(),
            r is Some == failure_of(done@) is Some,
            r matches Some(e) ==> Some(e@) == failure_of(done@),
    {
        let skin = &done.skin;
        match &done.outcome {
            Outcome::Saved { path } => {
                let meta = LockMeta {
                    path: path.clone(),
                    origin: skin.origin.clone(),
                    ita: skin.ita.clone(),
                };
                records_insert(&mut self.store, skin.name.clone(), meta);
                None
            },
            Outcome::SaveFailed { path, error } => Some(
                Error::SaveFailed {
                    path: path.clone(),
                    name: skin.name.clone(),
                    error: error.clone(),
                },
            ),
            Outcome::DownloadFailed { error } => Some(
                Error::DownloadFailed { name: skin.name.clone(), error: error.clone() },
            ),
            Outcome::Io { error } => Some(Error::Io(error.clone())),
            Outcome::Lost => None,
        }
    }

    /// Takes note of the downloads of a pass, in the order given, and returns
    /// the failures among them. No failure keeps another skin from its record.
    pub fn apply_updates(&mut self, done: &[Download]) -> (errors: Vec<Error>)
        ensures
            final(self)@ == after_downloads(old(self)@, download_views(done@)),
            final(self).dir() == old(self).dir(),
            error_views(errors@) == failures_of(download_views(done@)),
    {
        let mut errors: Vec<Error> = Vec::new();
        let ghost all = download_views(done@);
        proof {
            assert(all.take(0) =~= Seq::<DownloadView>::empty());
            assert(error_views(errors@) =~= Seq::<ErrorView>::empty());
        }
        let mut n: usize = 0;
        while n < done.len()
            invariant
                n <= done.len(),
                all == download_views(done@),
                self@ == after_downloads(old(self)@, all.take(n as int)),
                self.dir() == old(self).dir(),
                error_views(errors@) == failures_of(all.take(n as int)),
            decreases done.len() - n,
        {
            let ghost before = error_views(errors@);
            let failed = self.record(&done[n]);
            if let Some(e) = failed {
                errors.push(e);
                proof {
                    assert(error_views(errors@) =~= before.push(e@));
                }
            }
            proof {
                assert(all.take(n + 1).drop_last() =~= all.take(n as int));
                assert(all.take(n + 1).last() == done[n as int]@);
            }
            n += 1;
        }
        proof {
            assert(all.take(n as int) =~= all);
        }
        errors
    }
}

/// Whether no two entries of a catalog share a name.
pub open spec fn distinct_names(catalog: Seq<SkinMetaView>) -> bool {
    forall|i: int, j: int| 0 <= i < j < catalog.len() ==> catalog[i].name != catalog[j].name
}

/// A name that no saved download bears keeps what the store had for it,
/// whatever else was downloaded and however it ended.
pub proof fn lemma_unsaved_name_keeps_record(
    records: Map<Seq<char>, LockMetaView>,
    done: Seq<DownloadView>,
    name: Seq<char>,
)
    requires
        forall|j: int|
            0 <= j < done.len() && (#[trigger] done[j]).skin.name == name
                ==> !(done[j].outcome is Saved),
    ensures
        after_downloads(records, done).contains_key(name) == records.contains_key(name),
        records.contains_key(name) ==> after_downloads(records, done)[name] == records[name],
    decreases done.len(),
{
    if done.len() > 0 {
        let init = done.drop_last();
        assert forall|j: int| 0 <= j < init.len() && (#[trigger] init[j]).skin.name == name implies !(
        init[j].outcome is Saved) by {
            assert(init[j] == done[j]);
        }
        lemma_unsaved_name_keeps_record(records, init, name);
        assert(done.last() == done[done.len() - 1]);
    }
}

/// Partial failure isolation: a skin that was saved has its record after the
/// pass, whatever became of the other downloads, provided that no other
/// download of the pass bears its name.
pub proof fn lemma_saved_skin_is_recorded(
    records: Map<Seq<char>, LockMetaView>,
    done: Seq<DownloadView>,
    i: int,
)
    requires
        0 <= i < done.len(),
        done[i].outcome is Saved,
        forall|j: int|
            0 <= j < done.len() && j != i ==> (#[trigger] done[j]).skin.name != done[i].skin.name,
    ensures
        after_downloads(records, done).contains_key(done[i].skin.name),
        after_downloads(records, done)[done[i].skin.name] == record_of(
            done[i].skin,
            done[i].outcome->Saved_path,
        ),
    decreases done.len(),
{
    let init = done.drop_last();
    if i < done.len() - 1 {
        assert(init[i] == done[i]);
        assert forall|j: int| 0 <= j < init.len() && j != i implies (#[trigger] init[j]).skin.name
            != init[i].skin.name by {
            assert(init[j] == done[j]);
        }
        lemma_saved_skin_is_recorded(records, init, i);
        assert(done.last() == done[done.len() - 1]);
    }
}

/// Idempotence of the comparison: once every entry that a catalog of
/// distinct names asked for has been saved, the same catalog asks for
/// nothing.
pub proof fn lemma_synced_catalog_needs_nothing(
    records: Map<Seq<char>, LockMetaView>,
    catalog: Seq<SkinMetaView>,
    done: Seq<DownloadView>,
)
    requires
        distinct_names(catalog),
        done.len() == download_set(records, catalog).len(),
        forall|i: int|
            0 <= i < done.len() ==> (#[trigger] done[i]).skin == download_set(records, catalog)[i]
                && done[i].outcome is Saved,
    ensures
        download_set(after_downloads(records, done), catalog) == Seq::<SkinMetaView>::empty(),
{
    let wanted = download_set(records, catalog);
    let synced = after_downloads(records, done);
    let again = download_set(synced, catalog);
    if again.len() > 0 {
        let e = again[0];
        assert(again.contains(e));
        catalog.lemma_filter_contains_rev(outdated_in(synced), e);
        catalog.lemma_filter_pred(outdated_in(synced), 0);
        let k = choose|k: int| 0 <= k < catalog.len() && catalog[k] == e;
        if needs_download(records, e) {
            catalog.lemma_filter_contains(outdated_in(records), k);
            let i = choose|i: int| 0 <= i < wanted.len() && wanted[i] == e;
            assert forall|j: int| 0 <= j < done.len() && j != i implies (#[trigger] done[j]).skin.name
                != done[i].skin.name by {
                lemma_filter_keeps_distinct(catalog, outdated_in(records));
                assert(wanted[j].name != wanted[i].name);
            }
            lemma_saved_skin_is_recorded(records, done, i);
            assert(false);
        } else {
            assert forall|j: int| 0 <= j < done.len() && (#[trigger] done[j]).skin.name
                == e.name implies !(done[j].outcome is Saved) by {
                assert(wanted.contains(wanted[j]));
                catalog.lemma_filter_contains_rev(outdated_in(records), wanted[j]);
                let m = choose|m: int| 0 <= m < catalog.len() && catalog[m] == wanted[j];
                catalog.lemma_filter_pred(outdated_in(records), j);
                if m != k {
                    if m < k {
                        assert(catalog[m].name != catalog[k].name);
                    } else {
                        assert(catalog[k].name != catalog[m].name);
                    }
                }
                assert(false);
            }
            lemma_unsaved_name_keeps_record(records, done, e.name);
            assert(false);
        }
    }
    assert(again =~= Seq::<SkinMetaView>::empty());
}

/// What is kept of a catalog of distinct names has distinct names.
pub proof fn lemma_filter_keeps_distinct(catalog: Seq<SkinMetaView>, keep: spec_fn(SkinMetaView) -> bool)
    requires
        distinct_names(catalog),
    ensures
        distinct_names(catalog.filter(keep)),
    decreases catalog.len(),
{
    reveal(Seq::filter);
    if catalog.len() > 0 {
        let init = catalog.drop_last();
        assert forall|i: int, j: int| 0 <= i < j < init.len() implies init[i].name
            != init[j].name by {
            assert(init[i] == catalog[i] && init[j] == catalog[j]);
        }
        lemma_filter_keeps_distinct(init, keep);
        let kept = init.filter(keep);
        if keep(catalog.last()) {
            let all = kept.push(catalog.last());
            assert forall|i: int, j: int| 0 <= i < j < all.len() implies all[i].name
                != all[j].name by {
                if j == all.len() - 1 {
                    assert(kept.contains(kept[i]));
                    init.lemma_filter_contains_rev(keep, kept[i]);
                    let m = choose|m: int| 0 <= m < init.len() && init[m] == kept[i];
                    assert(catalog[m] == init[m]);
                    assert(catalog[m].name != catalog[catalog.len() - 1].name);
                } else {
                    assert(kept[i].name != kept[j].name);
                }
            }
        }
    }
}

/// The records that a list of entries gives: of two entries under one name
/// the later one stays.
pub open spec fn records_from(list: Seq<(Seq<char>, LockMetaView)>) -> Map<Seq<char>, LockMetaView>
    decreases list.len(),
{
    if list.len() == 0 {
        no_records()
    } else {
        records_from(list.drop_last()).insert(list.last().0, list.last().1)
    }
}

/// The values of a list of names, in order.
pub open spec fn name_views(names: Seq<String>) -> Seq<Seq<char>> {
    names.map_values(|n: String| n@)
}

impl LockStore {
    /// Every record with its name, each once, in no particular order: what a
    /// snapshot of the store has to hold.
    pub fn entries(&self) -> (r: Vec<(String, LockMeta)>)
        ensures
            is_listing(entry_views(r@), self@),
    {
        records_entries(&self.store)
    }

    /// The store for the directory `path` that holds the entries of a
    /// snapshot.
    pub fn from_entries(path: String, entries: &[(String, LockMeta)]) -> (r: LockStore)
        ensures
            r.dir() == path@,
            r@ == records_from(entry_views(entries@)),
    {
        let mut store = LockStore::new(path);
        let ghost all = entry_views(entries@);
        let mut i: usize = 0;
        proof {
            assert(all.take(0) =~= Seq::<(Seq<char>, LockMetaView)>::empty());
        }
        while i < entries.len()
            invariant
                i <= entries.len(),
                all == entry_views(entries@),
                store.dir() == path@,
                store@ == records_from(all.take(i as int)),
            decreases entries.len() - i,
        {
            let entry = &entries[i];
            records_insert(&mut store.store, entry.0.clone(), entry.1.clone());
            proof {
                assert(all.take(i + 1).drop_last() =~= all.take(i as int));
                assert(all.take(i + 1).last() == (entry.0@, entry.1@));
            }
            i += 1;
        }
        proof {
            assert(all.take(i as int) =~= all);
        }
        store
    }

    /// The names of all mirrored skins, each once, in no particular order.
    pub fn names(&self) -> (r: Vec<String>)
        ensures
            forall|k: Seq<char>| self@.contains_key(k) <==> name_views(r@).contains(k),
            name_views(r@).no_duplicates(),
    {
        let entries = self.entries();
        let ghost list = entry_views(entries@);
        let mut names: Vec<String> = Vec::new();
        let mut i: usize = 0;
        while i < entries.len()
            invariant
                i <= entries.len(),
                list == entry_views(entries@),
                names@.len() == i,
                forall|j: int| 0 <= j < i ==> (#[trigger] name_views(names@)[j]) == list[j].0,
            decreases entries.len() - i,
        {
            let ghost before = name_views(names@);
            names.push(entries[i].0.clone());
            proof {
                assert(name_views(names@) =~= before.push(entries[i as int].0@));
                assert(list[i as int].0 == entries[i as int].0@);
            }
            i += 1;
        }
        proof {
            let out = name_views(names@);
            assert forall|k: Seq<char>| self@.contains_key(k) <==> out.contains(k) by {
                if self@.contains_key(k) {
                    let j = choose|j: int| 0 <= j < list.len() && #[trigger] list[j].0 == k;
                    assert(out[j] == k);
                }
                if out.contains(k) {
                    let j = choose|j: int| 0 <= j < out.len() && out[j] == k;
                    assert(list[j].0 == k);
                }
            }
            assert forall|a: int, b: int| 0 <= a < out.len() && 0 <= b < out.len() && a != b implies out[a]
                != out[b] by {
                assert(out[a] == list[a].0 && out[b] == list[b].0);
                if a < b {
                    assert(list[a].0 != list[b].0);
                } else {
                    assert(list[b].0 != list[a].0);
                }
            }
        }
        names
    }
}

/// The names under which a list of entries gives a record are the names in it.
pub proof fn lemma_records_from_names(list: Seq<(Seq<char>, LockMetaView)>, name: Seq<char>)
    ensures
        records_from(list).contains_key(name) <==> exists|i: int|
            0 <= i < list.len() && #[trigger] list[i].0 == name,
    decreases list.len(),
{
    if list.len() > 0 {
        let init = list.drop_last();
        lemma_records_from_names(init, name);
        if records_from(list).contains_key(name) {
            if list.last().0 == name {
                assert(list[list.len() - 1].0 == name);
            } else {
                let i = choose|i: int| 0 <= i < init.len() && #[trigger] init[i].0 == name;
                assert(list[i].0 == name);
            }
        }
        if exists|i: int| 0 <= i < list.len() && #[trigger] list[i].0 == name {
            let i = choose|i: int| 0 <= i < list.len() && #[trigger] list[i].0 == name;
            if i < init.len() {
                assert(init[i].0 == name);
            }
        }
    }
}

/// An entry whose name no later entry bears gives the record of its name.
pub proof fn lemma_records_from_last_wins(list: Seq<(Seq<char>, LockMetaView)>, i: int)
    requires
        0 <= i < list.len(),
        forall|j: int| i < j < list.len() ==> (#[trigger] list[j]).0 != list[i].0,
    ensures
        records_from(list).contains_key(list[i].0),
        records_from(list)[list[i].0] == list[i].1,
    decreases list.len(),
{
    let init = list.drop_last();
    if i < list.len() - 1 {
        assert(init[i] == list[i]);
        assert forall|j: int| i < j < init.len() implies (#[trigger] init[j]).0 != init[i].0 by {
            assert(init[j] == list[j]);
        }
        lemma_records_from_last_wins(init, i);
        assert(list.last() == list[list.len() - 1]);
    }
}

/// Round trip of a snapshot: the entries that a store lists give back the
/// same records.
pub proof fn lemma_listing_restores_records(
    list: Seq<(Seq<char>, LockMetaView)>,
    records: Map<Seq<char>, LockMetaView>,
)
    requires
        is_listing(list, records),
    ensures
        records_from(list) == records,
{
    let restored = records_from(list);
    assert forall|k: Seq<char>| restored.contains_key(k) == records.contains_key(k) by {
        lemma_records_from_names(list, k);
        if restored.contains_key(k) {
            let i = choose|i: int| 0 <= i < list.len() && #[trigger] list[i].0 == k;
            assert(records.contains_key(list[i].0));
        }
    }
    assert forall|k: Seq<char>| restored.contains_key(k) implies restored[k] == records[k] by {
        lemma_records_from_names(list, k);
        let i = choose|i: int| 0 <= i < list.len() && #[trigger] list[i].0 == k;
        assert(records[list[i].0] == list[i].1);
        lemma_records_from_last_wins(list, i);
    }
    assert(restored =~= records);
}

} // verus!
