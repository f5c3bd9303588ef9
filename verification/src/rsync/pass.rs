//! One pass of the synchronisation as a state machine: the decisions
//! between the fetching of the catalogs and the writing of the store. The
//! network and the file system are the caller's: it hands in what happened
//! and is told what to do next.

use vstd::prelude::*;
use crate::error::{Error, ErrorView};
use crate::rsync::lock::{
    after_download, after_downloads, download_set, error_views, failure_of, failures_of, Download,
    DownloadView, LockMetaView, LockStore,
};
use crate::rsync::parser::{skin_views, SkinMeta, SkinMetaView};
use crate::rsync::{catalog_views, merge_catalogs, merged};

verus! {

/// How many downloads may be in flight at once.
pub const POOL_WIDTH: usize = 10;

/// Where a pass stands.
#[derive(Debug, PartialEq, Eq, Clone, Copy)]
pub enum Phase {
    /// The catalogs are being fetched.
    Scanning,
    /// Downloads are in flight.
    Downloading,
    /// Every download has ended; the store is being written out.
    Persisting,
    /// The pass is over.
    Finished,
}

/// What happened outside since the last step.
#[derive(Debug, PartialEq, Eq)]
pub enum Event {
    /// Every source was fetched and scanned: one catalog per source, in the
    /// order of the sources.
    Catalogs(Vec<Vec<SkinMeta>>),
    /// A source could not be fetched.
    CatalogFailed(Error),
    /// A download has ended, well or not.
    Completed(Download),
    /// The store was written out.
    Persisted,
    /// The store could not be written out.
    PersistFailed(Error),
}

/// The mathematical value of an `Event`.
pub enum EventView {
    Catalogs(Seq<Seq<SkinMetaView>>),
    CatalogFailed(ErrorView),
    Completed(DownloadView),
    Persisted,
    PersistFailed(ErrorView),
}

impl View for Event {
    type V = EventView;

    open spec fn view(&self) -> EventView {
        match self {
            Event::Catalogs(sources) => EventView::Catalogs(catalog_views(sources@)),
            Event::CatalogFailed(e) => EventView::CatalogFailed(e@),
            Event::Completed(d) => EventView::Completed(d@),
            Event::Persisted => EventView::Persisted,
            Event::PersistFailed(e) => EventView::PersistFailed(e@),
        }
    }
}

/// What is to be done outside next.
#[derive(Debug, PartialEq, Eq)]
pub enum Action {
    /// Nothing new: wait for the next event.
    Wait,
    /// Start the download of each of these skins.
    Download(Vec<SkinMeta>),
    /// Write the store out.
    Persist,
    /// The pass is over; with an error if it failed as a whole.
    Finish(Option<Error>),
}

/// The mathematical value of an `Action`.
pub enum ActionView {
    Wait,
    Download(Seq<SkinMetaView>),
    Persist,
    Finish(Option<ErrorView>),
}

impl View for Action {
    type V = ActionView;

    open spec fn view(&self) -> ActionView {
        match self {
            Action::Wait => ActionView::Wait,
            Action::Download(skins) => ActionView::Download(skin_views(skins@)),
            Action::Persist => ActionView::Persist,
            Action::Finish(None) => ActionView::Finish(None),
            Action::Finish(Some(e)) => ActionView::Finish(Some(e@)),
        }
    }
}

/// One pass of the synchronisation: the decisions between the fetching of
/// the catalogs and the writing of the store.
pub struct SyncPass {
    phase: Phase,
    queue: Vec<SkinMeta>,
    next: usize,
    in_flight: usize,
    errors: Vec<Error>,
}

/// The mathematical value of a `SyncPass`.
pub struct SyncPassView {
    /// Where the pass stands.
    pub phase: Phase,
    /// The downloads that wait for a free slot, in order.
    pub pending: Seq<SkinMetaView>,
    /// How many downloads are in flight.
    pub in_flight: nat,
    /// The failures of the downloads that have ended, in order.
    pub errors: Seq<ErrorView>,
}

/// What a step leaves behind: the pass, the records of the store, and what
/// is to be done next.
pub struct StepView {
    pub pass: SyncPassView,
    pub records: Map<Seq<char>, LockMetaView>,
    pub action: ActionView,
}

/// How many downloads a pass starts at once when `wanted` are asked for.
pub open spec fn first_batch(wanted: nat) -> nat {
    if wanted <= POOL_WIDTH {
        wanted
    } else {
        POOL_WIDTH as nat
    }
}

/// The step of a pass that waits for its catalogs. The catalogs are merged
/// and compared with the store. If nothing is asked for the pass is over;
/// else as many downloads start as the pool has slots, and the rest waits.
/// A source that failed ends the pass with its error.
pub open spec fn scanning_step(
    pass: SyncPassView,
    records: Map<Seq<char>, LockMetaView>,
    event: EventView,
) -> StepView {
    match event {
        EventView::Catalogs(sources) => {
            let wanted = download_set(records, merged(sources.flatten()));
            let batch = first_batch(wanted.len());
            if wanted.len() == 0 {
                StepView {
                    pass: SyncPassView { phase: Phase::Finished, ..pass },
                    records,
                    action: ActionView::Finish(None),
                }
            } else {
                StepView {
                    pass: SyncPassView {
                        phase: Phase::Downloading,
                        pending: wanted.skip(batch as int),
                        in_flight: batch,
                        errors: pass.errors,
                    },
                    records,
                    action: ActionView::Download(wanted.take(batch as int)),
                }
            }
        },
        EventView::CatalogFailed(e) => StepView {
            pass: SyncPassView { phase: Phase::Finished, ..pass },
            records,
            action: ActionView::Finish(Some(e)),
        },
        _ => StepView { pass, records, action: ActionView::Wait },
    }
}

/// The failures of a pass after one more download has ended.
pub open spec fn with_failure(errors: Seq<ErrorView>, done: DownloadView) -> Seq<ErrorView> {
    match failure_of(done) {
        Some(e) => errors.push(e),
        None => errors,
    }
}

/// The step of a pass whose downloads are in flight. A download that ends
/// is noted in the store, and its failure, if any, in the report; neither
/// stops the pass. Its slot goes to the next download that waits. When none
/// waits and none is in flight the store is written out, failures or not.
pub open spec fn downloading_step(
    pass: SyncPassView,
    records: Map<Seq<char>, LockMetaView>,
    event: EventView,
) -> StepView {
    match event {
        EventView::Completed(done) if pass.in_flight > 0 => {
            let records = after_download(records, done);
            let errors = with_failure(pass.errors, done);
            if pass.pending.len() > 0 {
                StepView {
                    pass: SyncPassView { pending: pass.pending.skip(1), errors, ..pass },
                    records,
                    action: ActionView::Download(pass.pending.take(1)),
                }
            } else if pass.in_flight > 1 {
                StepView {
                    pass: SyncPassView { in_flight: (pass.in_flight - 1) as nat, errors, ..pass },
                    records,
                    action: ActionView::Wait,
                }
            } else {
                StepView {
                    pass: SyncPassView { phase: Phase::Persisting, in_flight: 0, errors, ..pass },
                    records,
                    action: ActionView::Persist,
                }
            }
        },
        _ => StepView { pass, records, action: ActionView::Wait },
    }
}

/// The step of a pass whose store is being written out: the pass succeeds
/// if the store was written, whatever downloads failed, and fails with the
/// error if it was not.
pub open spec fn persisting_step(
    pass: SyncPassView,
    records: Map<Seq<char>, LockMetaView>,
    event: EventView,
) -> StepView {
    match event {
        EventView::Persisted => StepView {
            pass: SyncPassView { phase: Phase::Finished, ..pass },
            records,
            action: ActionView::Finish(None),
        },
        EventView::PersistFailed(e) => StepView {
            pass: SyncPassView { phase: Phase::Finished, ..pass },
            records,
            action: ActionView::Finish(Some(e)),
        },
        _ => StepView { pass, records, action: ActionView::Wait },
    }
}

/// One step of a pass. An event that the phase does not wait for changes
/// nothing, and a pass that is over stays so.
pub open spec fn pass_step(
    pass: SyncPassView,
    records: Map<Seq<char>, LockMetaView>,
    event: EventView,
) -> StepView {
    match pass.phase {
        Phase::Scanning => scanning_step(pass, records, event),
        Phase::Downloading => downloading_step(pass, records, event),
        Phase::Persisting => persisting_step(pass, records, event),
        Phase::Finished => StepView { pass, records, action: ActionView::Wait },
    }
}

impl View for SyncPass {
    type V = SyncPassView;

    closed spec fn view(&self) -> SyncPassView {
        SyncPassView {
            phase: self.phase,
            pending: if self.next <= self.queue@.len() {
                skin_views(self.queue@).skip(self.next as int)
            } else {
                Seq::empty()
            },
            in_flight: self.in_flight as nat,
            errors: error_views(self.errors@),
        }
    }
}

/// Copies of the first `count` entries of a list.
fn first_entries(skins: &Vec<SkinMeta>, count: usize) -> (r: Vec<SkinMeta>)
    requires
        count <= skins.len(),
    ensures
        skin_views(r@) == skin_views(skins@).take(count as int),
{
    let mut out: Vec<SkinMeta> = Vec::new();
    let mut i: usize = 0;
    proof {
        assert(skin_views(out@) =~= skin_views(skins@).take(0));
    }
    while i < count
        invariant
            i <= count <= skins.len(),
            skin_views(out@) == skin_views(skins@).take(i as int),
        decreases count - i,
    {
        let ghost before = skin_views(out@);
        out.push(skins[i].clone());
        proof {
            assert(skin_views(out@) =~= before.push(skins@[i as int]@));
            assert(skin_views(skins@).take(i + 1) =~= before.push(skins@[i as int]@));
        }
        i += 1;
    }
    out
}

impl SyncPass {
    /// A pass that waits for its catalogs.
    pub fn new() -> (r: SyncPass)
        ensures
            r@ == (SyncPassView {
                phase: Phase::Scanning,
                pending: Seq::empty(),
                in_flight: 0,
                errors: Seq::empty(),
            }),
    {
        let pass = SyncPass {
            phase: Phase::Scanning,
            queue: Vec::new(),
            next: 0,
            in_flight: 0,
            errors: Vec::new(),
        };
        proof {
            assert(pass@.pending =~= Seq::<SkinMetaView>::empty());
            assert(pass@.errors =~= Seq::<ErrorView>::empty());
        }
        pass
    }

    /// Where the pass stands.
    pub fn phase(&self) -> (r: Phase)
        ensures
            r == self@.phase,
    {
        self.phase
    }

    /// How many downloads are in flight.
    pub fn in_flight(&self) -> (r: usize)
        ensures
            r == self@.in_flight,
    {
        self.in_flight
    }

    /// How many downloads wait for a free slot.
    pub fn waiting(&self) -> (r: usize)
        ensures
            r == self@.pending.len(),
    {
        if self.next <= self.queue.len() {
            self.queue.len() - self.next
        } else {
            0
        }
    }

    /// The failures of the downloads that have ended so far, in order.
    pub fn errors(&self) -> (r: &Vec<Error>)
        ensures
            error_views(r@) == self@.errors,
    {
        &self.errors
    }

    /// Takes one event and decides what is to be done next. Only a download
    /// that has ended changes the store.
    pub fn step(&mut self, store: &mut LockStore, event: Event) -> (action: Action)
        ensures
            final(self)@ == pass_step(old(self)@, old(store)@, event@).pass,
            final(store)@ == pass_step(old(self)@, old(store)@, event@).records,
            action@ == pass_step(old(self)@, old(store)@, event@).action,
            final(store).dir() == old(store).dir(),
    {
        match self.phase {
            Phase::Scanning => match event {
                Event::Catalogs(sources) => {
                    let catalog = merge_catalogs(sources.as_slice());
                    let wanted = store.prepare_to_download(catalog.as_slice());
                    if wanted.len() == 0 {
                        self.phase = Phase::Finished;
                        Action::Finish(None)
                    } else {
                        let batch = if wanted.len() <= POOL_WIDTH {
                            wanted.len()
                        } else {
                            POOL_WIDTH
                        };
                        let launch = first_entries(&wanted, batch);
                        self.queue = wanted;
                        self.next = batch;
                        self.in_flight = batch;
                        self.phase = Phase::Downloading;
                        Action::Download(launch)
                    }
                },
                Event::CatalogFailed(e) => {
                    self.phase = Phase::Finished;
                    Action::Finish(Some(e))
                },
                _ => Action::Wait,
            },
            Phase::Downloading => match event {
                Event::Completed(done) => {
                    if self.in_flight == 0 {
                        return Action::Wait;
                    }
                    let ghost before = error_views(self.errors@);
                    let failed = store.record(&done);
                    if let Some(e) = failed {
                        self.errors.push(e);
                        proof {
                            assert(error_views(self.errors@) =~= before.push(e@));
                        }
                    }
                    if self.next < self.queue.len() {
                        let mut launch: Vec<SkinMeta> = Vec::new();
                        launch.push(self.queue[self.next].clone());
                        proof {
                            assert(skin_views(launch@) =~= old(self)@.pending.take(1));
                            assert(skin_views(self.queue@).skip(self.next + 1) =~= old(
                                self,
                            )@.pending.skip(1));
                        }
                        self.next += 1;
                        Action::Download(launch)
                    } else if self.in_flight > 1 {
                        self.in_flight -= 1;
                        Action::Wait
                    } else {
                        self.in_flight = 0;
                        self.phase = Phase::Persisting;
                        Action::Persist
                    }
                },
                _ => Action::Wait,
            },
            Phase::Persisting => match event {
                Event::Persisted => {
                    self.phase = Phase::Finished;
                    Action::Finish(None)
                },
                Event::PersistFailed(e) => {
                    self.phase = Phase::Finished;
                    Action::Finish(Some(e))
                },
                _ => Action::Wait,
            },
            Phase::Finished => Action::Wait,
        }
    }
}

/// The pool is bounded: a step never brings more downloads in flight than
/// the pool has slots.
pub proof fn lemma_pool_is_bounded(
    pass: SyncPassView,
    records: Map<Seq<char>, LockMetaView>,
    event: EventView,
)
    requires
        pass.in_flight <= POOL_WIDTH,
    ensures
        pass_step(pass, records, event).pass.in_flight <= POOL_WIDTH,
        pass_step(pass, records, event).action matches ActionView::Download(skins)
            ==> skins.len() <= POOL_WIDTH,
{
}

/// A download that ends is noted whatever became of it and of the others:
/// the store takes its record if it was saved, the report its failure if
/// not, and the pass goes on.
pub proof fn lemma_download_is_noted(
    pass: SyncPassView,
    records: Map<Seq<char>, LockMetaView>,
    done: DownloadView,
)
    requires
        pass.phase == Phase::Downloading,
        pass.in_flight > 0,
    ensures
        pass_step(pass, records, EventView::Completed(done)).records == after_download(
            records,
            done,
        ),
        pass_step(pass, records, EventView::Completed(done)).pass.errors == with_failure(
            pass.errors,
            done,
        ),
        !(pass_step(pass, records, EventView::Completed(done)).action is Finish),
{
}

/// When the last download ends the store is written out, whether that
/// download or any before it failed.
pub proof fn lemma_last_download_persists(
    pass: SyncPassView,
    records: Map<Seq<char>, LockMetaView>,
    done: DownloadView,
)
    requires
        pass.phase == Phase::Downloading,
        pass.in_flight == 1,
        pass.pending.len() == 0,
    ensures
        pass_step(pass, records, EventView::Completed(done)).action == ActionView::Persist,
        pass_step(pass, records, EventView::Completed(done)).pass.phase == Phase::Persisting,
{
}

/// A pass whose store was written out succeeds, whatever downloads failed;
/// it fails only on its catalogs or on the writing of the store.
pub proof fn lemma_pass_fails_only_as_a_whole(
    pass: SyncPassView,
    records: Map<Seq<char>, LockMetaView>,
    event: EventView,
)
    ensures
        pass_step(pass, records, event).action matches ActionView::Finish(Some(e)) ==> (
        pass.phase == Phase::Scanning && event == EventView::CatalogFailed(e)) || (pass.phase
            == Phase::Persisting && event == EventView::PersistFailed(e)),
        pass.phase == Phase::Persisting && event == EventView::Persisted ==> pass_step(
            pass,
            records,
            event,
        ).action == ActionView::Finish(None),
{
}

/// Where a pass stands after a list of downloads has ended, one after the
/// other, and what it asked for last.
pub open spec fn after_completions(
    pass: SyncPassView,
    records: Map<Seq<char>, LockMetaView>,
    done: Seq<DownloadView>,
) -> StepView
    decreases done.len(),
{
    if done.len() == 0 {
        StepView { pass, records, action: ActionView::Wait }
    } else {
        let before = after_completions(pass, records, done.drop_last());
        pass_step(before.pass, before.records, EventView::Completed(done.last()))
    }
}

/// How many downloads a pass has started once `ended` of `wanted` have ended.
pub open spec fn started_after(wanted: nat, ended: nat) -> nat {
    if wanted <= POOL_WIDTH + ended {
        wanted
    } else {
        (POOL_WIDTH + ended) as nat
    }
}

/// The course of the downloads of a pass: while downloads are missing the
/// pool is as full as the queue allows, the store holds what was saved so
/// far and the report what failed so far.
proof fn lemma_downloads_in_progress(
    pass: SyncPassView,
    records: Map<Seq<char>, LockMetaView>,
    sources: Seq<Seq<SkinMetaView>>,
    done: Seq<DownloadView>,
)
    requires
        pass.phase == Phase::Scanning,
        done.len() < download_set(records, merged(sources.flatten())).len(),
    ensures
        ({
            let wanted = download_set(records, merged(sources.flatten()));
            let first = pass_step(pass, records, EventView::Catalogs(sources));
            let now = after_completions(first.pass, first.records, done);
            let started = started_after(wanted.len(), done.len());
            &&& now.pass.phase == Phase::Downloading
            &&& now.pass.pending == wanted.skip(started as int)
            &&& now.pass.in_flight == started - done.len()
            &&& now.records == after_downloads(records, done)
            &&& now.pass.errors == pass.errors + failures_of(done)
        }),
    decreases done.len(),
{
    let wanted = download_set(records, merged(sources.flatten()));
    let first = pass_step(pass, records, EventView::Catalogs(sources));
    if done.len() == 0 {
        assert(pass.errors + failures_of(done) =~= pass.errors);
    } else {
        let init = done.drop_last();
        lemma_downloads_in_progress(pass, records, sources, init);
        let before = after_completions(first.pass, first.records, init);
        let started = started_after(wanted.len(), init.len());
        if before.pass.pending.len() > 0 {
            assert(wanted.skip(started as int).skip(1) =~= wanted.skip(started as int + 1));
        }
        assert(pass.errors + failures_of(done) =~= with_failure(
            pass.errors + failures_of(init),
            done.last(),
        ));
    }
}

/// The course of a pass, whatever becomes of its downloads: when as many
/// downloads have ended as the catalogs asked for, in whatever order and
/// however each ended, the store holds every record that was saved, the
/// report every failure, nothing is in flight, and the pass asks for the
/// store to be written out.
pub proof fn lemma_pass_notes_every_download(
    pass: SyncPassView,
    records: Map<Seq<char>, LockMetaView>,
    sources: Seq<Seq<SkinMetaView>>,
    done: Seq<DownloadView>,
)
    requires
        pass.phase == Phase::Scanning,
        done.len() > 0,
        done.len() == download_set(records, merged(sources.flatten())).len(),
    ensures
        ({
            let first = pass_step(pass, records, EventView::Catalogs(sources));
            let end = after_completions(first.pass, first.records, done);
            &&& end.action == ActionView::Persist
            &&& end.pass.phase == Phase::Persisting
            &&& end.pass.in_flight == 0
            &&& end.pass.pending.len() == 0
            &&& end.records == after_downloads(records, done)
            &&& end.pass.errors == pass.errors + failures_of(done)
        }),
{
    let init = done.drop_last();
    lemma_downloads_in_progress(pass, records, sources, init);
    assert(pass.errors + failures_of(done) =~= with_failure(
        pass.errors + failures_of(init),
        done.last(),
    ));
}

/// The skins whose download an action asks to start.
pub open spec fn launched_by(action: ActionView) -> Seq<SkinMetaView> {
    match action {
        ActionView::Download(skins) => skins,
        _ => Seq::empty(),
    }
}

/// The skins whose download a pass has asked to start, in order, once its
/// catalogs have come and the downloads `done` have ended.
pub open spec fn launched(
    pass: SyncPassView,
    records: Map<Seq<char>, LockMetaView>,
    sources: Seq<Seq<SkinMetaView>>,
    done: Seq<DownloadView>,
) -> Seq<SkinMetaView>
    decreases done.len(),
{
    let first = pass_step(pass, records, EventView::Catalogs(sources));
    if done.len() == 0 {
        launched_by(first.action)
    } else {
        launched(pass, records, sources, done.drop_last()) + launched_by(
            after_completions(first.pass, first.records, done).action,
        )
    }
}

/// Every skin that the catalogs ask for is started exactly once and in the
/// order of the merged catalog: after `done` downloads have ended the pass
/// has started the first ones of the download set, as many as the pool
/// allowed, and once all have ended it has started them all.
pub proof fn lemma_pass_starts_every_download(
    pass: SyncPassView,
    records: Map<Seq<char>, LockMetaView>,
    sources: Seq<Seq<SkinMetaView>>,
    done: Seq<DownloadView>,
)
    requires
        pass.phase == Phase::Scanning,
        done.len() <= download_set(records, merged(sources.flatten())).len(),
    ensures
        ({
            let wanted = download_set(records, merged(sources.flatten()));
            launched(pass, records, sources, done) == wanted.take(
                started_after(wanted.len(), done.len()) as int,
            )
        }),
        done.len() == download_set(records, merged(sources.flatten())).len() ==> launched(
            pass,
            records,
            sources,
            done,
        ) == download_set(records, merged(sources.flatten())),
    decreases done.len(),
{
    let wanted = download_set(records, merged(sources.flatten()));
    let first = pass_step(pass, records, EventView::Catalogs(sources));
    if done.len() == 0 {
        assert(launched_by(first.action) =~= wanted.take(started_after(wanted.len(), 0) as int));
    } else {
        let init = done.drop_last();
        lemma_pass_starts_every_download(pass, records, sources, init);
        lemma_downloads_in_progress(pass, records, sources, init);
        let before = after_completions(first.pass, first.records, init);
        let started = started_after(wanted.len(), init.len()) as int;
        let action = after_completions(first.pass, first.records, done).action;
        if before.pass.pending.len() > 0 {
            assert(wanted.skip(started).take(1) =~= seq![wanted[started]]);
            assert(wanted.take(started) + seq![wanted[started]] =~= wanted.take(started + 1));
        } else {
            assert(wanted.take(started) + Seq::<SkinMetaView>::empty() =~= wanted.take(started));
        }
    }
    assert(wanted.take(wanted.len() as int) =~= wanted);
}

} // verus!
