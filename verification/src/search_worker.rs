//! The search worker: it holds a copy of the corpus, scans it in batches for
//! one query at a time, and gives way to every message that reaches it
//! between two batches.

use vstd::prelude::*;
use crate::corpus::{capped, VISIBLE_RESULTS_LIMIT};
use crate::item::{item_views, ItemView, SearchItem};
use crate::matching::{query_matches, query_matches_chars};
use crate::ranking::{
    insert_capped, insert_desc, insert_sorted, is_desc, items_of, lemma_capped_insert,
    lemma_sort_desc_is_desc, ranked_views, sort_desc, unrank, RankedItem, RankedView,
};
use crate::recent::{
    cutoff_for, is_recent, latest_cutoff, recency, recency_key, recency_of, RecentEventMap,
};
use crate::text::to_chars;

verus! {

/// The number of items that the worker scans between two looks at its
/// messages.
pub const SEARCH_BATCH_SIZE: usize = 12_000;

/// What the worker reports.
pub enum SearchEvent {
    Progress { generation: u64, scanned: usize, total: usize },
    Done { generation: u64, items: Vec<SearchItem> },
}

/// What a [`SearchEvent`] stands for.
pub ghost enum SearchEventView {
    Progress { generation: u64, scanned: usize, total: usize },
    Done { generation: u64, items: Seq<ItemView> },
}

impl View for SearchEvent {
    type V = SearchEventView;

    open spec fn view(&self) -> SearchEventView {
        match self {
            SearchEvent::Progress { generation, scanned, total } => SearchEventView::Progress {
                generation: *generation,
                scanned: *scanned,
                total: *total,
            },
            SearchEvent::Done { generation, items } => SearchEventView::Done {
                generation: *generation,
                items: item_views(items@),
            },
        }
    }
}

pub open spec fn event_views(events: Seq<SearchEvent>) -> Seq<SearchEventView> {
    Seq::new(events.len(), |i: int| events[i]@)
}

/// A request to search.
pub struct RunRequest {
    pub generation: u64,
    pub query: String,
    pub latest_only_mode: bool,
    pub latest_window_secs: i64,
}

/// What the worker is told.
pub enum SearchWorkerMessage {
    SetCorpus { items: Vec<SearchItem>, recent_event_by_path: RecentEventMap },
    Run { generation: u64, query: String, latest_only_mode: bool, latest_window_secs: i64 },
    Cancel,
    Clear,
}

/// What a search looks for.
pub ghost struct RunView {
    pub generation: u64,
    pub query: Seq<char>,
    pub latest_only: bool,
    pub cutoff: i64,
}

/// Whether a search selects an item: it is recent, where only recent items
/// are wanted, and the query matches it, where there is a query.
pub open spec fn selects(run: RunView, item: ItemView, recent: Map<Seq<char>, i64>) -> bool {
    &&& !run.latest_only || is_recent(item, recent, run.cutoff)
    &&& run.query.len() == 0 || query_matches(run.query, item.path)
}

/// Whether a search ranks all that it selects: it wants recent items and
/// has no query.
pub open spec fn ranks_all(run: RunView) -> bool {
    run.latest_only && run.query.len() == 0
}

/// The selected items among the first `n` of the corpus, in their order,
/// until there are `VISIBLE_RESULTS_LIMIT` of them.
pub open spec fn scan_hits(
    corpus: Seq<ItemView>,
    recent: Map<Seq<char>, i64>,
    run: RunView,
    n: nat,
) -> Seq<ItemView>
    decreases n,
{
    if n == 0 || n > corpus.len() {
        Seq::empty()
    } else {
        let before = scan_hits(corpus, recent, run, (n - 1) as nat);
        if before.len() < VISIBLE_RESULTS_LIMIT && selects(run, corpus[n - 1], recent) {
            before.push(corpus[n - 1])
        } else {
            before
        }
    }
}

/// An item with its recency as key.
pub open spec fn ranked_item(item: ItemView, recent: Map<Seq<char>, i64>) -> RankedView {
    RankedView { key: recency_key(item, recent), item }
}

/// All selected items among the first `n` of the corpus, each with its
/// recency as key.
pub open spec fn selected_ranked(
    corpus: Seq<ItemView>,
    recent: Map<Seq<char>, i64>,
    run: RunView,
    n: nat,
) -> Seq<RankedView>
    decreases n,
{
    if n == 0 || n > corpus.len() {
        Seq::empty()
    } else {
        let before = selected_ranked(corpus, recent, run, (n - 1) as nat);
        if selects(run, corpus[n - 1], recent) {
            before.push(ranked_item(corpus[n - 1], recent))
        } else {
            before
        }
    }
}

/// The items of a list, each with its recency as key.
pub open spec fn ranked(items: Seq<ItemView>, recent: Map<Seq<char>, i64>) -> Seq<RankedView> {
    Seq::new(items.len(), |i: int| ranked_item(items[i], recent))
}

/// The first `VISIBLE_RESULTS_LIMIT` of the selected items among the first
/// `n` of the corpus, newest first.
pub open spec fn top_ranked(
    corpus: Seq<ItemView>,
    recent: Map<Seq<char>, i64>,
    run: RunView,
    n: nat,
) -> Seq<RankedView> {
    let selected = selected_ranked(corpus, recent, run, n);
    capped(sort_desc(selected, selected.len()), VISIBLE_RESULTS_LIMIT as int)
}

/// The result of a search. A search for recent items without a query ranks
/// all the items it selects and keeps the newest. Any other search keeps
/// the first items it selects, newest first where recent items are wanted.
pub open spec fn run_result(
    corpus: Seq<ItemView>,
    recent: Map<Seq<char>, i64>,
    run: RunView,
) -> Seq<ItemView> {
    if ranks_all(run) {
        items_of(top_ranked(corpus, recent, run, corpus.len()))
    } else {
        let hits = scan_hits(corpus, recent, run, corpus.len());
        if run.latest_only {
            items_of(sort_desc(ranked(hits, recent), hits.len()))
        } else {
            hits
        }
    }
}

/// A search under way.
pub struct ActiveRun {
    pub generation: u64,
    pub query: Vec<char>,
    pub latest_only: bool,
    pub cutoff: i64,
    pub cursor: usize,
    pub out: Vec<SearchItem>,
    pub ranked: Vec<RankedItem>,
}

impl ActiveRun {
    pub open spec fn params(&self) -> RunView {
        RunView {
            generation: self.generation,
            query: self.query@,
            latest_only: self.latest_only,
            cutoff: self.cutoff,
        }
    }

    /// What has been found is what the items before the cursor give.
    pub open spec fn wf(&self, corpus: Seq<ItemView>, recent: Map<Seq<char>, i64>) -> bool {
        &&& self.cursor <= corpus.len()
        &&& if ranks_all(self.params()) {
            &&& self.out@.len() == 0
            &&& ranked_views(self.ranked@) == top_ranked(
                corpus,
                recent,
                self.params(),
                self.cursor as nat,
            )
        } else {
            &&& self.ranked@.len() == 0
            &&& item_views(self.out@) == scan_hits(corpus, recent, self.params(), self.cursor as nat)
        }
    }

    /// Whether nothing is left to scan: the cursor is at the end, or the
    /// results are full.
    pub open spec fn is_finished(&self, corpus: Seq<ItemView>) -> bool {
        self.cursor >= corpus.len() || (!ranks_all(self.params()) && self.out@.len()
            >= VISIBLE_RESULTS_LIMIT)
    }
}

/// Once the results are full, scanning on adds nothing.
pub proof fn lemma_scan_hits_full(
    corpus: Seq<ItemView>,
    recent: Map<Seq<char>, i64>,
    run: RunView,
    n: nat,
    m: nat,
)
    requires
        n <= m <= corpus.len(),
        scan_hits(corpus, recent, run, n).len() >= VISIBLE_RESULTS_LIMIT,
    ensures
        scan_hits(corpus, recent, run, m) == scan_hits(corpus, recent, run, n),
    decreases m - n,
{
    if n < m {
        lemma_scan_hits_full(corpus, recent, run, n, (m - 1) as nat);
    }
}

/// The order of a list does not depend on what follows it.
pub proof fn lemma_sort_desc_push(entries: Seq<RankedView>, entry: RankedView, n: nat)
    requires
        n <= entries.len(),
    ensures
        sort_desc(entries.push(entry), n) == sort_desc(entries, n),
    decreases n,
{
    if n > 0 {
        lemma_sort_desc_push(entries, entry, (n - 1) as nat);
    }
}

/// Scans the items from the cursor up to `end`.
pub fn scan_batch(
    corpus: &Vec<SearchItem>,
    recent: &RecentEventMap,
    run: &mut ActiveRun,
    end: usize,
)
    requires
        old(run).wf(item_views(corpus@), recent@),
        old(run).cursor <= end <= corpus.len(),
    ensures
        final(run).wf(item_views(corpus@), recent@),
        final(run).params() == old(run).params(),
        final(run).cursor == end,
{
    let ghost views = item_views(corpus@);
    let ghost params = run.params();
    let ranking = run.latest_only && run.query.len() == 0;
    while run.cursor < end
        invariant
            run.cursor <= end <= corpus.len(),
            views == item_views(corpus@),
            run.params() == params,
            ranking == ranks_all(params),
            run.wf(views, recent@),
        decreases end - run.cursor,
    {
        let i = run.cursor;
        let item = &corpus[i];
        assert(item@ == views[i as int]);
        let rec = recency_of(item, recent);
        let matches_latest = !run.latest_only || match rec {
            Some(t) => t >= run.cutoff,
            None => false,
        };
        let matches_query = if run.query.len() == 0 {
            true
        } else {
            let path = to_chars(item.path.as_str());
            query_matches_chars(&run.query, &path)
        };
        let selected = matches_latest && matches_query;
        assert(selected == selects(params, views[i as int], recent@));
        if ranking {
            if selected {
                let key = match rec {
                    Some(t) => t,
                    None => i64::MIN,
                };
                let entry = RankedItem { key, item: item.clone() };
                proof {
                    let before = selected_ranked(views, recent@, params, i as nat);
                    let now = selected_ranked(views, recent@, params, (i + 1) as nat);
                    assert(entry@ == ranked_item(views[i as int], recent@));
                    assert(now == before.push(entry@));
                    lemma_sort_desc_push(before, entry@, before.len());
                    lemma_sort_desc_is_desc(before, before.len());
                    lemma_capped_insert(
                        sort_desc(before, before.len()),
                        entry@,
                        VISIBLE_RESULTS_LIMIT as int,
                    );
                }
                insert_capped(&mut run.ranked, entry, VISIBLE_RESULTS_LIMIT);
            }
        } else {
            if selected && run.out.len() < VISIBLE_RESULTS_LIMIT {
                let ghost before = item_views(run.out@);
                let c = item.clone();
                run.out.push(c);
                assert(item_views(run.out@) =~= before.push(c@));
            }
        }
        run.cursor = i + 1;
    }
}

/// The result of a finished search.
pub fn finish_run(corpus: &Vec<SearchItem>, recent: &RecentEventMap, run: ActiveRun) -> (r: Vec<
    SearchItem,
>)
    requires
        run.wf(item_views(corpus@), recent@),
        run.is_finished(item_views(corpus@)),
    ensures
        item_views(r@) == run_result(item_views(corpus@), recent@, run.params()),
{
    let ghost views = item_views(corpus@);
    let ghost params = run.params();
    let ranking = run.latest_only && run.query.len() == 0;
    if ranking {
        unrank(run.ranked)
    } else {
        proof {
            if run.cursor < corpus.len() {
                lemma_scan_hits_full(views, recent@, params, run.cursor as nat, views.len());
            }
        }
        if run.latest_only {
            let ghost hits = item_views(run.out@);
            let mut out = run.out;
            let n = out.len();
            let mut sorted: Vec<RankedItem> = Vec::new();
            let mut i: usize = 0;
            assert(ranked_views(sorted@) =~= sort_desc(ranked(hits, recent@), 0));
            while i < n
                invariant
                    i <= n,
                    n == out.len(),
                    hits.len() == n,
                    forall|k: int| i <= k < n ==> (#[trigger] out[k])@ == hits[k],
                    ranked_views(sorted@) == sort_desc(ranked(hits, recent@), i as nat),
                decreases n - i,
            {
                let mut item = SearchItem { path: String::new(), modified_unix_secs: 0 };
                core::mem::swap(&mut out[i], &mut item);
                let key = match recency_of(&item, recent) {
                    Some(t) => t,
                    None => i64::MIN,
                };
                let entry = RankedItem { key, item };
                assert(entry@ == ranked(hits, recent@)[i as int]);
                insert_sorted(&mut sorted, entry);
                i += 1;
            }
            unrank(sorted)
        } else {
            run.out
        }
    }
}

/// The worker's state.
pub struct SearchWorker {
    pub corpus: Vec<SearchItem>,
    pub recent_event_by_path: RecentEventMap,
    pub pending_run: Option<RunRequest>,
    pub active: Option<ActiveRun>,
}

impl SearchWorker {
    pub open spec fn views(&self) -> Seq<ItemView> {
        item_views(self.corpus@)
    }

    /// A search under way has found what the items before its cursor give,
    /// and no request waits behind it.
    pub open spec fn wf(&self) -> bool {
        &&& self.recent_event_by_path.wf()
        &&& self.active is Some ==> self.pending_run is None && self.active->0.wf(
            self.views(),
            self.recent_event_by_path@,
        )
    }

    /// A worker without corpus and without work.
    pub fn new() -> (r: Self)
        ensures
            r.wf(),
            r.views() == Seq::<ItemView>::empty(),
            r.recent_event_by_path@ == Map::<Seq<char>, i64>::empty(),
            r.pending_run is None,
            r.active is None,
    {
        let r = SearchWorker {
            corpus: Vec::new(),
            recent_event_by_path: RecentEventMap::new(),
            pending_run: None,
            active: None,
        };
        assert(r.views() =~= Seq::<ItemView>::empty());
        r
    }

    /// Whether a search waits or is under way.
    pub fn has_work(&self) -> (r: bool)
        ensures
            r == (self.pending_run is Some || self.active is Some),
    {
        self.pending_run.is_some() || self.active.is_some()
    }

    /// Takes in a message. Every message ends the search under way, without
    /// a result. A new corpus replaces the old one together with the recent
    /// events; a request waits for the next step and replaces a request
    /// that waited; `Cancel` drops the waiting request; `Clear` drops it
    /// together with the corpus and the recent events.
    pub fn handle_message(&mut self, message: SearchWorkerMessage)
        requires
            old(self).wf(),
            message matches SearchWorkerMessage::SetCorpus { recent_event_by_path, .. }
                ==> recent_event_by_path.wf(),
        ensures
            final(self).wf(),
            final(self).active is None,
            match message {
                SearchWorkerMessage::SetCorpus { items, recent_event_by_path } => {
                    &&& final(self).corpus == items
                    &&& final(self).recent_event_by_path == recent_event_by_path
                    &&& final(self).pending_run == old(self).pending_run
                },
                SearchWorkerMessage::Run {
                    generation,
                    query,
                    latest_only_mode,
                    latest_window_secs,
                } => {
                    &&& final(self).corpus == old(self).corpus
                    &&& final(self).recent_event_by_path == old(self).recent_event_by_path
                    &&& final(self).pending_run == Some(
                        RunRequest { generation, query, latest_only_mode, latest_window_secs },
                    )
                },
                SearchWorkerMessage::Cancel => {
                    &&& final(self).corpus == old(self).corpus
                    &&& final(self).recent_event_by_path == old(self).recent_event_by_path
                    &&& final(self).pending_run is None
                },
                SearchWorkerMessage::Clear => {
                    &&& final(self).views() == Seq::<ItemView>::empty()
                    &&& final(self).recent_event_by_path@ == Map::<Seq<char>, i64>::empty()
                    &&& final(self).pending_run is None
                },
            },
    {
        self.active = None;
        match message {
            SearchWorkerMessage::SetCorpus { items, recent_event_by_path } => {
                self.corpus = items;
                self.recent_event_by_path = recent_event_by_path;
            },
            SearchWorkerMessage::Run { generation, query, latest_only_mode, latest_window_secs } => {
                self.pending_run = Some(
                    RunRequest { generation, query, latest_only_mode, latest_window_secs },
                );
            },
            SearchWorkerMessage::Cancel => {
                self.pending_run = None;
            },
            SearchWorkerMessage::Clear => {
                self.corpus.clear();
                self.recent_event_by_path.clear();
                self.pending_run = None;
                assert(self.views() =~= Seq::<ItemView>::empty());
            },
        }
    }

    /// What the search that the next step works on looks for: the search
    /// under way, or else the waiting request, begun at the time `now`.
    pub open spec fn next_run(&self, now: i64) -> RunView {
        match self.active {
            Some(run) => run.params(),
            None => RunView {
                generation: self.pending_run->0.generation,
                query: self.pending_run->0.query@,
                latest_only: self.pending_run->0.latest_only_mode,
                cutoff: cutoff_for(now, self.pending_run->0.latest_window_secs),
            },
        }
    }

    /// Where the next step begins to scan.
    pub open spec fn next_start(&self) -> int {
        match self.active {
            Some(run) => run.cursor as int,
            None => 0,
        }
    }

    /// Where a step that scans `batch` items ends.
    pub open spec fn next_end(&self, batch: usize) -> int {
        if self.next_start() + batch < self.corpus.len() {
            self.next_start() + batch
        } else {
            self.corpus.len() as int
        }
    }

    /// One step of work. Without a search under way and without a waiting
    /// request nothing happens. Otherwise the step begins the waiting
    /// request, if no search is under way, and scans the next `batch` items.
    /// If it scanned any, it reports how far the scan has come. If nothing
    /// is left to scan, it reports the result and the search is over.
    pub fn step(&mut self, now: i64, batch: usize) -> (events: Vec<SearchEvent>)
        requires
            old(self).wf(),
        ensures
            final(self).wf(),
            final(self).corpus == old(self).corpus,
            final(self).recent_event_by_path == old(self).recent_event_by_path,
            final(self).pending_run is None,
            old(self).active is None && old(self).pending_run is None ==> events@.len() == 0
                && final(self).active is None,
            old(self).active is Some || old(self).pending_run is Some ==> ({
                let run = old(self).next_run(now);
                let start = old(self).next_start();
                let end = old(self).next_end(batch);
                let total = if old(self).corpus.len() == 0 {
                    1usize
                } else {
                    old(self).corpus.len()
                };
                let progress = SearchEventView::Progress {
                    generation: run.generation,
                    scanned: end as usize,
                    total,
                };
                let done = SearchEventView::Done {
                    generation: run.generation,
                    items: run_result(old(self).views(), old(self).recent_event_by_path@, run),
                };
                let scanned_any = start < old(self).corpus.len();
                match final(self).active {
                    Some(rest) => {
                        &&& rest.params() == run
                        &&& rest.cursor == end
                        &&& !rest.is_finished(old(self).views())
                        &&& event_views(events@) == seq![progress]
                    },
                    None => event_views(events@) == if scanned_any {
                        seq![progress, done]
                    } else {
                        seq![done]
                    },
                }
            }),
    {
        let mut events: Vec<SearchEvent> = Vec::new();
        let mut active: Option<ActiveRun> = None;
        core::mem::swap(&mut self.active, &mut active);
        let mut run = match active {
            Some(run) => run,
            None => {
                let mut pending: Option<RunRequest> = None;
                core::mem::swap(&mut self.pending_run, &mut pending);
                match pending {
                    Some(request) => {
                        let run = ActiveRun {
                            generation: request.generation,
                            query: to_chars(request.query.as_str()),
                            latest_only: request.latest_only_mode,
                            cutoff: latest_cutoff(now, request.latest_window_secs),
                            cursor: 0,
                            out: Vec::new(),
                            ranked: Vec::new(),
                        };
                        assert(item_views(run.out@) =~= Seq::<ItemView>::empty());
                        assert(ranked_views(run.ranked@) =~= Seq::<RankedView>::empty());
                        run
                    },
                    None => {
                        return events;
                    },
                }
            },
        };
        let len = self.corpus.len();
        let start = run.cursor;
        let end = if batch < len - start {
            start + batch
        } else {
            len
        };
        scan_batch(&self.corpus, &self.recent_event_by_path, &mut run, end);
        if start < len {
            let total = if len == 0 {
                1
            } else {
                len
            };
            events.push(SearchEvent::Progress { generation: run.generation, scanned: end, total });
        }
        let ranking = run.latest_only && run.query.len() == 0;
        if end >= len || (!ranking && run.out.len() >= VISIBLE_RESULTS_LIMIT) {
            let generation = run.generation;
            let ghost before = event_views(events@);
            let items = finish_run(&self.corpus, &self.recent_event_by_path, run);
            let done = SearchEvent::Done { generation, items };
            events.push(done);
            assert(event_views(events@) =~= before.push(done@));
            if start < len {
                assert(event_views(events@) =~= seq![before[0], done@]);
            } else {
                assert(event_views(events@) =~= seq![done@]);
            }
        } else {
            assert(event_views(events@) =~= seq![events[0]@]);
            self.active = Some(run);
        }
        events
    }
}

} // verus!
