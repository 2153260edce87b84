//! The controller: the single owner of the corpus and of what the panel
//! shows. It takes in what the user does and what the workers report, and
//! says what the application has to do next.

use vstd::prelude::*;
use vstd::string::*;
use crate::commands::{
    apply_command_choice, command_menu_items, format_latest_window, is_exact_directive_token,
    latest_window_text, menu_for, menu_views, parse_scope_directive, parsed_line,
};
use crate::corpus::{
    after_delta, capped, delta_counts, fast_hits, is_fast_query, items_at, Corpus, DeltaCounts,
    FILENAME_INDEX_BUILD_BATCH, VISIBLE_RESULTS_LIMIT,
};
use crate::events::{
    Effect, IndexEvent, IndexPhase, JobState, RendererModeRequest, WindowModeRequest,
};
use crate::messages::{count_message, count_message_text, text_with};
use crate::item::{
    clone_items, estimate_index_memory_bytes, item_views, memory_of, ItemView, SearchItem,
    UNKNOWN_TS,
};
use crate::journal::count_sum;
use crate::recent::RecentEventMap;
use crate::scope::{startup_scope, string_views, IndexBackend, SearchScope};
use crate::text::{
    chars_start_with, join, lower, lower_chars, split_whitespace, split_ws, starts_with, string_of,
    to_chars, trim, trim_chars, trim_start, trim_start_chars,
};
use crate::search_worker::{SearchEvent, SearchWorkerMessage};

verus! {

/// How long the controller waits after a keystroke before it searches.
pub const QUERY_DEBOUNCE_DELAY_MS: u64 = 70;

/// How long the controller waits after a delta before it searches again.
pub const DELTA_REFRESH_COOLDOWN_MS: u64 = 300;

/// How long the panel stays as it is after it was shown or hidden.
pub const TOGGLE_DEBOUNCE_MS: u64 = 220;

/// How many index events the application hands over per tick.
pub const MAX_INDEX_EVENTS_PER_TICK: usize = 2;

/// How many search events the application hands over per tick.
pub const MAX_SEARCH_EVENTS_PER_TICK: usize = 24;

/// How far a page key moves the selection.
pub const KEYBOARD_PAGE_JUMP: usize = 12;

/// The window of recent changes where the user names none.
pub const DEFAULT_LATEST_WINDOW_SECS: i64 = 300;

/// The time between two ticks while something moves.
pub const POLL_INTERVAL_ACTIVE_MS: u64 = 16;

/// The time between two ticks while the panel is shown and nothing moves.
pub const POLL_INTERVAL_IDLE_MS: u64 = 55;

/// The time between two ticks while the panel is hidden.
pub const POLL_INTERVAL_HIDDEN_MS: u64 = 80;

/// The progress that stands for all done.
pub const PROGRESS_FULL: u32 = 1000;

/// A query that waits for the keystrokes to settle.
pub struct PendingQuery {
    pub text: String,
    pub due_at_ms: u64,
    pub edit_id: u64,
}

/// What an [`Effect`] stands for.
pub ghost enum EffectView {
    SearchCancel,
    SearchClear,
    SearchSetCorpus { items: Seq<ItemView>, recent: Map<Seq<char>, i64> },
    SearchRun {
        generation: u64,
        query: Seq<char>,
        latest_only_mode: bool,
        latest_window_secs: i64,
    },
    StartIndexJob { job_id: u64, scope: SearchScope, allow_dirwalk_fallback: bool },
    PersistScope(SearchScope),
    PersistQuickHelpDismissed(bool),
    OpenPath(Seq<char>),
    RevealPath(Seq<char>),
    RequestElevation(SearchScope),
    FocusSearch,
}

impl View for Effect {
    type V = EffectView;

    open spec fn view(&self) -> EffectView {
        match self {
            Effect::Search(SearchWorkerMessage::Cancel) => EffectView::SearchCancel,
            Effect::Search(SearchWorkerMessage::Clear) => EffectView::SearchClear,
            Effect::Search(SearchWorkerMessage::SetCorpus { items, recent_event_by_path }) => {
                EffectView::SearchSetCorpus {
                    items: item_views(items@),
                    recent: recent_event_by_path@,
                }
            },
            Effect::Search(
                SearchWorkerMessage::Run { generation, query, latest_only_mode, latest_window_secs },
            ) => EffectView::SearchRun {
                generation: *generation,
                query: query@,
                latest_only_mode: *latest_only_mode,
                latest_window_secs: *latest_window_secs,
            },
            Effect::StartIndexJob { job_id, scope, allow_dirwalk_fallback } => {
                EffectView::StartIndexJob {
                    job_id: *job_id,
                    scope: *scope,
                    allow_dirwalk_fallback: *allow_dirwalk_fallback,
                }
            },
            Effect::PersistScope(scope) => EffectView::PersistScope(*scope),
            Effect::PersistQuickHelpDismissed(value) => EffectView::PersistQuickHelpDismissed(
                *value,
            ),
            Effect::OpenPath(path) => EffectView::OpenPath(path@),
            Effect::RevealPath(path) => EffectView::RevealPath(path@),
            Effect::RequestElevation(scope) => EffectView::RequestElevation(*scope),
            Effect::FocusSearch => EffectView::FocusSearch,
        }
    }
}

pub open spec fn effect_views(effects: Seq<Effect>) -> Seq<EffectView> {
    Seq::new(effects.len(), |i: int| effects[i]@)
}

/// What a list of effects has gained since it was `before`.
pub open spec fn added_effects(before: Seq<Effect>, after: Seq<Effect>) -> Seq<EffectView> {
    effect_views(after).skip(before.len() as int)
}

/// Whether a list of effects is `before` with further effects behind it.
pub open spec fn effects_grown(before: Seq<Effect>, after: Seq<Effect>) -> bool {
    before.len() <= after.len() && effect_views(after) == effect_views(before) + added_effects(
        before,
        after,
    )
}

/// Adds an effect to a list of effects.
pub fn push_effect(effects: &mut Vec<Effect>, effect: Effect)
    ensures
        effect_views(final(effects)@) == effect_views(old(effects)@).push(effect@),
{
    effects.push(effect);
    assert(effect_views(effects@) =~= effect_views(old(effects)@).push(effect@));
}

/// The time of the change that an upsert tells of: its modification time,
/// and the present time where that is unknown.
pub open spec fn event_time(item: ItemView, now: i64) -> i64 {
    if item.modified_unix_secs == UNKNOWN_TS {
        now
    } else {
        item.modified_unix_secs
    }
}

/// The recent events without those of the first `n` deleted paths.
pub open spec fn events_removed(
    recent: Map<Seq<char>, i64>,
    deleted: Seq<Seq<char>>,
    n: nat,
) -> Map<Seq<char>, i64>
    decreases n,
{
    if n == 0 || n > deleted.len() {
        recent
    } else {
        events_removed(recent, deleted, (n - 1) as nat).remove(deleted[n - 1])
    }
}

/// The recent events with those of the first `n` upserts.
pub open spec fn events_added(
    recent: Map<Seq<char>, i64>,
    upserts: Seq<ItemView>,
    now: i64,
    n: nat,
) -> Map<Seq<char>, i64>
    decreases n,
{
    if n == 0 || n > upserts.len() {
        recent
    } else {
        events_added(recent, upserts, now, (n - 1) as nat).insert(
            upserts[n - 1].path,
            event_time(upserts[n - 1], now),
        )
    }
}

/// The recent events after a delta: the deleted paths are forgotten, then
/// every upsert is recorded with the time of its change.
pub open spec fn recent_after_delta(
    recent: Map<Seq<char>, i64>,
    upserts: Seq<ItemView>,
    deleted: Seq<Seq<char>>,
    now: i64,
) -> Map<Seq<char>, i64> {
    events_added(events_removed(recent, deleted, deleted.len()), upserts, now, upserts.len())
}

/// The progress of an index job in thousandths: how much of `total` is
/// done, nothing where the total is unknown, and never more than all.
pub open spec fn progress_permille(current: usize, total: usize) -> u32 {
    if total == 0 {
        0
    } else if current >= total {
        PROGRESS_FULL
    } else {
        (current * 1000 / total as int) as u32
    }
}

pub fn progress_of_job(current: usize, total: usize) -> (r: u32)
    ensures
        r == progress_permille(current, total),
        r <= PROGRESS_FULL,
{
    if total == 0 {
        0
    } else if current >= total {
        PROGRESS_FULL
    } else {
        let scaled: u128 = (current as u128) * 1000;
        let part: u128 = scaled / (total as u128);
        assert(part < 1000) by (nonlinear_arith)
            requires
                part == (current * 1000) / (total as int),
                0 <= current < total,
        ;
        part as u32
    }
}

/// What has been typed and what waits to be applied.
pub struct QueryState {
    pub raw_query: String,
    pub query: String,
    pub pending_query: Option<PendingQuery>,
    pub query_edit_counter: u64,
    pub command_selected: usize,
}

/// What the panel lists and which entry is selected.
pub struct ResultState {
    pub items: Vec<SearchItem>,
    pub selected: usize,
}

/// The search under way and the mode of searching.
pub struct SearchState {
    pub search_generation: u64,
    pub active_search_job: Option<u64>,
    pub active_search_query: Option<String>,
    pub active_search_cursor: usize,
    pub needs_search_refresh: bool,
    pub next_search_refresh_at_ms: u64,
    pub latest_only_mode: bool,
    pub latest_window_secs: i64,
}

/// The index job and what it has reported.
pub struct IndexState {
    pub scope: SearchScope,
    pub index_job_counter: u64,
    pub active_index_job: Option<u64>,
    pub job_state: JobState,
    pub indexing_in_progress: bool,
    pub indexing_progress: u32,
    pub indexing_phase: IndexPhase,
    pub index_backend: IndexBackend,
    pub index_memory_bytes: usize,
    pub visual_progress_test_active: bool,
    pub indexing_is_refresh: bool,
    pub skip_scope_persist_once: bool,
}

/// The changes seen since the last full index.
pub struct TrackingState {
    pub tracking_enabled: bool,
    pub recent_event_by_path: RecentEventMap,
    pub changes_added_since_index: usize,
    pub changes_updated_since_index: usize,
    pub changes_deleted_since_index: usize,
}

/// The panel, its overlays, and what the user asked of the window.
pub struct PanelState {
    pub panel_visible: bool,
    pub last_toggle_at_ms: Option<u64>,
    pub is_elevated: bool,
    pub use_dirwalk_fallback: bool,
    pub show_privilege_overlay: bool,
    pub show_quick_help_overlay: bool,
    pub show_about_overlay: bool,
    pub quick_help_selected_action: usize,
    pub should_exit: bool,
    pub clear_input_after_elevation: bool,
    pub pending_window_mode_request: Option<WindowModeRequest>,
    pub pending_renderer_mode_request: Option<RendererModeRequest>,
}

/// The state of the controller.
pub struct Controller {
    pub input: QueryState,
    pub results: ResultState,
    pub search: SearchState,
    pub index: IndexState,
    pub tracking: TrackingState,
    pub panel: PanelState,
    pub corpus: Corpus,
    pub last_action: String,
}

impl Controller {
    /// The selection points at a result, and at the first place where there
    /// is no result.
    pub open spec fn selection_ok(&self) -> bool {
        if self.results.items@.len() == 0 {
            self.results.selected == 0
        } else {
            self.results.selected < self.results.items@.len()
        }
    }

    pub open spec fn wf(&self) -> bool {
        &&& self.corpus.wf()
        &&& self.tracking.recent_event_by_path.wf()
        &&& self.selection_ok()
        &&& self.search.latest_window_secs > 0
    }

    /// What the panel lists.
    pub open spec fn shown(&self) -> Seq<ItemView> {
        item_views(self.results.items@)
    }

    /// The commands that the menu offers for what has been typed.
    pub open spec fn suggestions(&self) -> Seq<(Seq<char>, Seq<char>)> {
        menu_for(self.input.raw_query@, self.tracking.tracking_enabled)
    }

    /// Whether the keys move through the command menu and not through the
    /// results.
    pub open spec fn command_mode(&self) -> bool {
        self.suggestions().len() > 0
    }

    /// The state with another selection.
    pub open spec fn with_selected(self, selected: usize) -> Controller {
        Controller { results: ResultState { selected, ..self.results }, ..self }
    }

    /// The state with another selection in the command menu.
    pub open spec fn with_command_selected(self, command_selected: usize) -> Controller {
        Controller { input: QueryState { command_selected, ..self.input }, ..self }
    }

    /// The selection brought back among the results.
    pub open spec fn clamped(count: nat, selected: usize) -> usize {
        if count == 0 {
            0
        } else if selected < count {
            selected
        } else {
            (count - 1) as usize
        }
    }

    /// Brings the selection back among the results.
    pub fn clamp_selected(&mut self)
        ensures
            *final(self) == old(self).with_selected(
                Self::clamped(old(self).results.items@.len(), old(self).results.selected),
            ),
            final(self).selection_ok(),
    {
        if self.results.items.len() == 0 {
            self.results.selected = 0;
        } else if self.results.selected > self.results.items.len() - 1 {
            self.results.selected = self.results.items.len() - 1;
        }
    }

    /// Gives up the search under way and tells the worker to do so.
    pub fn cancel_active_search(&mut self, effects: &mut Vec<Effect>)
        ensures
            *final(self) == (Controller {
                search: SearchState {
                    active_search_job: None,
                    active_search_query: None,
                    active_search_cursor: 0,
                    ..old(self).search
                },
                ..*old(self)
            }),
            effect_views(final(effects)@) == effect_views(old(effects)@).push(
                EffectView::SearchCancel,
            ),
    {
        self.search.active_search_job = None;
        self.search.active_search_query = None;
        self.search.active_search_cursor = 0;
        push_effect(effects, Effect::Search(SearchWorkerMessage::Cancel));
    }

    /// Empties the input line.
    pub fn clear_command_input(&mut self)
        ensures
            *final(self) == (Controller {
                input: QueryState {
                    raw_query: final(self).input.raw_query,
                    query: final(self).input.query,
                    pending_query: None,
                    command_selected: 0,
                    ..old(self).input
                },
                ..*old(self)
            }),
            final(self).input.raw_query@.len() == 0,
            final(self).input.query@.len() == 0,
    {
        self.input.raw_query = String::new();
        self.input.query = String::new();
        self.input.pending_query = None;
        self.input.command_selected = 0;
    }

    /// The number of commands that the menu offers just now.
    pub fn suggestion_count(&self) -> (n: usize)
        ensures
            n == self.suggestions().len(),
    {
        let items = command_menu_items(self.input.raw_query.as_str(), self.tracking.tracking_enabled);
        assert(menu_views(items@).len() == items.len());
        items.len()
    }

    /// A position moved forward by `step`, not beyond the last of `count`.
    pub open spec fn moved_down(position: usize, step: usize, count: usize) -> usize {
        if count == 0 {
            position
        } else if position + step > count - 1 {
            (count - 1) as usize
        } else {
            (position + step) as usize
        }
    }

    /// A position moved back by `step`, not before the first.
    pub open spec fn moved_up(position: usize, step: usize) -> usize {
        if position < step {
            0
        } else {
            (position - step) as usize
        }
    }

    pub fn step_down(position: usize, step: usize, count: usize) -> (r: usize)
        ensures
            r == Self::moved_down(position, step, count),
    {
        if count == 0 {
            position
        } else if position > count - 1 || step > count - 1 - position {
            count - 1
        } else {
            position + step
        }
    }

    pub fn step_up(position: usize, step: usize) -> (r: usize)
        ensures
            r == Self::moved_up(position, step),
    {
        if position < step {
            0
        } else {
            position - step
        }
    }

    /// The state after a move forward by `step`: in the command menu while
    /// it is open, among the results otherwise.
    pub open spec fn after_move_down(self, step: usize) -> Controller {
        if self.command_mode() {
            self.with_command_selected(
                Self::moved_down(
                    self.input.command_selected,
                    step,
                    self.suggestions().len() as usize,
                ),
            )
        } else {
            self.with_selected(
                Self::moved_down(self.results.selected, step, self.results.items.len()),
            )
        }
    }

    /// The state after a move back by `step`.
    pub open spec fn after_move_up(self, step: usize) -> Controller {
        if self.command_mode() {
            self.with_command_selected(Self::moved_up(self.input.command_selected, step))
        } else {
            self.with_selected(Self::moved_up(self.results.selected, step))
        }
    }

    /// Moves the selection forward by `step`.
    pub fn move_down_by(&mut self, step: usize)
        requires
            old(self).wf(),
        ensures
            final(self).wf(),
            *final(self) == old(self).after_move_down(step),
    {
        let count = self.suggestion_count();
        if count > 0 {
            self.input.command_selected = Self::step_down(self.input.command_selected, step, count);
        } else {
            self.results.selected = Self::step_down(
                self.results.selected,
                step,
                self.results.items.len(),
            );
        }
    }

    /// Moves the selection back by `step`.
    pub fn move_up_by(&mut self, step: usize)
        requires
            old(self).wf(),
        ensures
            final(self).wf(),
            *final(self) == old(self).after_move_up(step),
    {
        let count = self.suggestion_count();
        if count > 0 {
            self.input.command_selected = Self::step_up(self.input.command_selected, step);
        } else {
            self.results.selected = Self::step_up(self.results.selected, step);
        }
    }

    /// The state with another button of the quick help selected.
    pub open spec fn with_help_action(self, action: usize) -> Controller {
        Controller {
            panel: PanelState { quick_help_selected_action: action, ..self.panel },
            ..self
        }
    }

    /// The arrow down: the second button of the quick help while it is
    /// shown, and one step forward otherwise.
    pub fn on_move_down(&mut self)
        requires
            old(self).wf(),
        ensures
            final(self).wf(),
            *final(self) == if old(self).panel.show_quick_help_overlay {
                old(self).with_help_action(1)
            } else {
                old(self).after_move_down(1)
            },
    {
        if self.panel.show_quick_help_overlay {
            self.panel.quick_help_selected_action = 1;
            return ;
        }
        self.move_down_by(1);
    }

    /// The arrow up: the first button of the quick help while it is shown,
    /// and one step back otherwise.
    pub fn on_move_up(&mut self)
        requires
            old(self).wf(),
        ensures
            final(self).wf(),
            *final(self) == if old(self).panel.show_quick_help_overlay {
                old(self).with_help_action(0)
            } else {
                old(self).after_move_up(1)
            },
    {
        if self.panel.show_quick_help_overlay {
            self.panel.quick_help_selected_action = 0;
            return ;
        }
        self.move_up_by(1);
    }

    /// The page down key: a page forward.
    pub fn on_page_down(&mut self)
        requires
            old(self).wf(),
        ensures
            final(self).wf(),
            *final(self) == old(self).after_move_down(KEYBOARD_PAGE_JUMP),
    {
        self.move_down_by(KEYBOARD_PAGE_JUMP);
    }

    /// The page up key: a page back.
    pub fn on_page_up(&mut self)
        requires
            old(self).wf(),
        ensures
            final(self).wf(),
            *final(self) == old(self).after_move_up(KEYBOARD_PAGE_JUMP),
    {
        self.move_up_by(KEYBOARD_PAGE_JUMP);
    }

    /// The home key: the first command or the first result.
    pub fn on_home(&mut self)
        requires
            old(self).wf(),
        ensures
            final(self).wf(),
            *final(self) == if old(self).command_mode() {
                old(self).with_command_selected(0)
            } else {
                old(self).with_selected(0)
            },
    {
        let count = self.suggestion_count();
        if count > 0 {
            self.input.command_selected = 0;
        } else {
            self.results.selected = 0;
        }
    }

    /// The end key: the last command or the last result.
    pub fn on_end(&mut self)
        requires
            old(self).wf(),
        ensures
            final(self).wf(),
            *final(self) == if old(self).command_mode() {
                old(self).with_command_selected((old(self).suggestions().len() - 1) as usize)
            } else {
                old(self).with_selected(
                    if old(self).results.items@.len() == 0 {
                        0
                    } else {
                        (old(self).results.items@.len() - 1) as usize
                    },
                )
            },
    {
        let count = self.suggestion_count();
        if count > 0 {
            self.input.command_selected = count - 1;
        } else if self.results.items.len() > 0 {
            self.results.selected = self.results.items.len() - 1;
        } else {
            self.results.selected = 0;
        }
    }

    /// The escape key: closes the overlay that is shown, and hides the
    /// panel where none is. With the panel the search under way goes: it is
    /// given up, and the worker is told so.
    pub fn on_escape(&mut self) -> (effects: Vec<Effect>)
        ensures
            *final(self) == (Controller {
                panel: if old(self).panel.show_about_overlay {
                    PanelState { show_about_overlay: false, ..old(self).panel }
                } else if old(self).panel.show_quick_help_overlay {
                    PanelState { show_quick_help_overlay: false, ..old(self).panel }
                } else {
                    PanelState { panel_visible: false, ..old(self).panel }
                },
                search: if old(self).panel.show_about_overlay
                    || old(self).panel.show_quick_help_overlay {
                    old(self).search
                } else {
                    Self::search_cancelled(old(self).search)
                },
                ..*old(self)
            }),
            effect_views(effects@) == if old(self).panel.show_about_overlay
                || old(self).panel.show_quick_help_overlay {
                Seq::<EffectView>::empty()
            } else {
                seq![EffectView::SearchCancel]
            },
    {
        let mut effects: Vec<Effect> = Vec::new();
        assert(effect_views(effects@) =~= Seq::<EffectView>::empty());
        if self.panel.show_about_overlay {
            self.panel.show_about_overlay = false;
            return effects;
        }
        if self.panel.show_quick_help_overlay {
            self.panel.show_quick_help_overlay = false;
            return effects;
        }
        self.panel.panel_visible = false;
        self.cancel_active_search(&mut effects);
        assert(effect_views(effects@) =~= seq![EffectView::SearchCancel]);
        effects
    }

    /// The time to wait before the next tick.
    pub fn poll_interval_ms(&self, animating: bool) -> (r: u64)
        ensures
            r == if animating || self.index.indexing_in_progress
                || self.search.active_search_query is Some {
                POLL_INTERVAL_ACTIVE_MS
            } else if self.panel.panel_visible {
                POLL_INTERVAL_IDLE_MS
            } else {
                POLL_INTERVAL_HIDDEN_MS
            },
    {
        if animating || self.index.indexing_in_progress || self.search.active_search_query.is_some() {
            POLL_INTERVAL_ACTIVE_MS
        } else if self.panel.panel_visible {
            POLL_INTERVAL_IDLE_MS
        } else {
            POLL_INTERVAL_HIDDEN_MS
        }
    }

    /// The query in the form in which it is searched: without white space
    /// around it and in lower case.
    pub open spec fn search_text(&self) -> Seq<char> {
        lower(trim(self.input.query@))
    }

    /// What the filename index answers to the query, where it answers.
    pub open spec fn fast_answer(&self) -> Option<Seq<ItemView>> {
        let hits = capped(
            fast_hits(
                self.corpus.views(),
                self.corpus.filename_exact_index@,
                self.corpus.filename_prefix_index@,
                self.search_text(),
            ),
            VISIBLE_RESULTS_LIMIT as int,
        );
        if is_fast_query(self.search_text()) && self.corpus.index_ready() && hits.len() > 0 {
            Some(items_at(self.corpus.views(), hits))
        } else {
            None
        }
    }

    /// What the controller can list without the worker: the first items of
    /// the corpus for an empty query, and the answer of the filename index
    /// otherwise. There is no such answer while only recent items are
    /// wanted.
    pub open spec fn direct_answer(&self) -> Option<Seq<ItemView>> {
        if self.search.latest_only_mode {
            None
        } else if self.search_text().len() == 0 {
            Some(capped(self.corpus.views(), VISIBLE_RESULTS_LIMIT as int))
        } else {
            self.fast_answer()
        }
    }

    /// The search state without a search under way.
    pub open spec fn search_cancelled(search: SearchState) -> SearchState {
        SearchState {
            active_search_job: None,
            active_search_query: None,
            active_search_cursor: 0,
            ..search
        }
    }

    /// The generation after `generation`. The numbers begin anew after the
    /// largest.
    pub open spec fn next_generation(generation: u64) -> u64 {
        if generation == u64::MAX {
            0
        } else {
            (generation + 1) as u64
        }
    }

    /// Everything but the results and the search is as it was.
    pub open spec fn same_but_search(&self, before: &Controller) -> bool {
        &&& self.input == before.input
        &&& self.index == before.index
        &&& self.tracking == before.tracking
        &&& self.panel == before.panel
        &&& self.corpus == before.corpus
        &&& self.last_action == before.last_action
    }

    /// Whether the state is what a new search from `before` leads to, with
    /// `effect` as what the worker is told. While the panel is hidden
    /// nothing is searched. What the controller can answer itself, it
    /// lists at once. Everything else is sent to the worker under a new
    /// generation, and the list stays as it is until the worker answers.
    pub open spec fn searches_from(&self, before: &Controller, effect: EffectView) -> bool {
        &&& self.same_but_search(before)
        &&& if !before.panel.panel_visible {
            &&& self.results == before.results
            &&& self.search == Self::search_cancelled(before.search)
            &&& effect == EffectView::SearchCancel
        } else {
            match before.direct_answer() {
                Some(items) => {
                    &&& self.shown() == items
                    &&& self.results.selected == Self::clamped(items.len(), before.results.selected)
                    &&& self.search == Self::search_cancelled(before.search)
                    &&& effect == EffectView::SearchCancel
                },
                None => {
                    let generation = Self::next_generation(before.search.search_generation);
                    &&& self.results == before.results
                    &&& self.search.active_search_query is Some
                    &&& self.search.active_search_query->0@ == before.search_text()
                    &&& self.search == (SearchState {
                        search_generation: generation,
                        active_search_job: Some(generation),
                        active_search_query: self.search.active_search_query,
                        active_search_cursor: 0,
                        ..before.search
                    })
                    &&& effect == (EffectView::SearchRun {
                        generation,
                        query: before.search_text(),
                        latest_only_mode: before.search.latest_only_mode,
                        latest_window_secs: before.search.latest_window_secs,
                    })
                },
            }
        }
    }

    /// Searches for the query as it stands.
    pub fn schedule_search_from_current_query(&mut self, effects: &mut Vec<Effect>)
        requires
            old(self).wf(),
        ensures
            final(self).wf(),
            effect_views(final(effects)@).len() == effect_views(old(effects)@).len() + 1,
            effect_views(final(effects)@).drop_last() == effect_views(old(effects)@),
            final(self).searches_from(old(self), effect_views(final(effects)@).last()),
    {
        let ghost held = effect_views(effects@);
        if !self.panel.panel_visible {
            self.cancel_active_search(effects);
            assert(effect_views(effects@).drop_last() =~= held);
            return ;
        }
        let chars = to_chars(self.input.query.as_str());
        let trimmed = trim_chars(&chars);
        let q = lower_chars(&trimmed);
        if q.len() == 0 && !self.search.latest_only_mode {
            self.results.items = self.corpus.first_items();
            self.cancel_active_search(effects);
            self.clamp_selected();
            assert(effect_views(effects@).drop_last() =~= held);
            return ;
        }
        let text = string_of(&q);
        if !self.search.latest_only_mode {
            match self.corpus.try_fast_filename_search(text.as_str()) {
                Some(found) => {
                    self.results.items = found;
                    self.cancel_active_search(effects);
                    self.clamp_selected();
                    assert(effect_views(effects@).drop_last() =~= held);
                    return ;
                },
                None => {},
            }
        }
        let generation = if self.search.search_generation == u64::MAX {
            0
        } else {
            self.search.search_generation + 1
        };
        self.search.search_generation = generation;
        self.search.active_search_job = Some(generation);
        self.search.active_search_query = Some(text.clone());
        self.search.active_search_cursor = 0;
        push_effect(
            effects,
            Effect::Search(
                SearchWorkerMessage::Run {
                    generation,
                    query: text,
                    latest_only_mode: self.search.latest_only_mode,
                    latest_window_secs: self.search.latest_window_secs,
                },
            ),
        );
        assert(effect_views(effects@).drop_last() =~= held);
    }

    /// Hands the worker a copy of the corpus and of the recent events.
    pub fn push_corpus_to_search_worker(&self, effects: &mut Vec<Effect>)
        requires
            self.wf(),
        ensures
            effect_views(final(effects)@) == effect_views(old(effects)@).push(
                EffectView::SearchSetCorpus {
                    items: self.corpus.views(),
                    recent: self.tracking.recent_event_by_path@,
                },
            ),
    {
        let items = clone_items(&self.corpus.items);
        let recent_event_by_path = self.tracking.recent_event_by_path.duplicate();
        push_effect(
            effects,
            Effect::Search(SearchWorkerMessage::SetCorpus { items, recent_event_by_path }),
        );
    }

    /// Works out anew how much memory the corpus takes.
    pub fn recompute_index_memory_bytes(&mut self)
        ensures
            *final(self) == (Controller {
                index: IndexState {
                    index_memory_bytes: final(self).index.index_memory_bytes,
                    ..old(self).index
                },
                ..*old(self)
            }),
            final(self).index.index_memory_bytes == if memory_of(
                old(self).corpus.views(),
                old(self).corpus.items.len() as nat,
            ) > usize::MAX {
                usize::MAX as nat
            } else {
                memory_of(old(self).corpus.views(), old(self).corpus.items.len() as nat)
            },
    {
        self.index.index_memory_bytes = estimate_index_memory_bytes(&self.corpus.items);
    }

    /// One step of the build of the filename index.
    pub fn process_filename_index_build_step(&mut self)
        requires
            old(self).wf(),
        ensures
            final(self).wf(),
            *final(self) == (Controller { corpus: final(self).corpus, ..*old(self) }),
            final(self).corpus.build_stepped(&old(self).corpus, FILENAME_INDEX_BUILD_BATCH),
    {
        self.corpus.process_filename_index_build_step(FILENAME_INDEX_BUILD_BATCH);
    }

    /// What the filename index answers to a query.
    pub fn try_fast_filename_search(&self, query_lower: &str) -> (r: Option<Vec<SearchItem>>)
        requires
            self.wf(),
        ensures
            ({
                let hits = capped(
                    fast_hits(
                        self.corpus.views(),
                        self.corpus.filename_exact_index@,
                        self.corpus.filename_prefix_index@,
                        query_lower@,
                    ),
                    VISIBLE_RESULTS_LIMIT as int,
                );
                match r {
                    Some(v) => is_fast_query(query_lower@) && self.corpus.index_ready() && hits.len()
                        > 0 && item_views(v@) == items_at(self.corpus.views(), hits),
                    None => !is_fast_query(query_lower@) || !self.corpus.index_ready() || hits.len()
                        == 0,
                }
            }),
    {
        self.corpus.try_fast_filename_search(query_lower)
    }

    /// Takes a delta into the corpus and returns the counts of the delta:
    /// how many items it added, how many it replaced and how many it took
    /// away. While tracking is on, the recent events follow the delta. A
    /// new search is wanted if only recent items are listed or the query is
    /// empty.
    pub fn apply_index_delta(
        &mut self,
        upserts: Vec<SearchItem>,
        deleted_paths: Vec<String>,
        now_unix: i64,
    ) -> (r: (usize, usize, usize))
        requires
            old(self).wf(),
        ensures
            final(self).wf(),
            final(self).input == old(self).input,
            final(self).results == old(self).results,
            final(self).index == old(self).index,
            final(self).panel == old(self).panel,
            final(self).last_action == old(self).last_action,
            final(self).corpus.views() == after_delta(
                old(self).corpus.views(),
                item_views(upserts@),
                string_views(deleted_paths@),
            ),
            final(self).corpus.filename_index_dirty,
            !final(self).corpus.filename_index_building,
            final(self).search == (SearchState {
                needs_search_refresh: old(self).search.latest_only_mode || trim(
                    old(self).input.query@,
                ).len() == 0,
                ..old(self).search
            }),
            final(self).tracking == (TrackingState {
                recent_event_by_path: final(self).tracking.recent_event_by_path,
                ..old(self).tracking
            }),
            final(self).tracking.recent_event_by_path@ == if old(self).tracking.tracking_enabled {
                recent_after_delta(
                    old(self).tracking.recent_event_by_path@,
                    item_views(upserts@),
                    string_views(deleted_paths@),
                    now_unix,
                )
            } else {
                old(self).tracking.recent_event_by_path@
            },
            (r.0 as nat, r.1 as nat, r.2 as nat) == delta_counts(
                old(self).corpus.views(),
                item_views(upserts@),
                string_views(deleted_paths@),
            ),
    {
        let ghost recent = self.tracking.recent_event_by_path@;
        let ghost ups = item_views(upserts@);
        let ghost gone = string_views(deleted_paths@);
        if self.tracking.tracking_enabled {
            let mut i: usize = 0;
            while i < deleted_paths.len()
                invariant
                    i <= deleted_paths.len(),
                    gone == string_views(deleted_paths@),
                    self.tracking.recent_event_by_path.wf(),
                    self.tracking.recent_event_by_path@ == events_removed(recent, gone, i as nat),
                    self.input == old(self).input,
                    self.results == old(self).results,
                    self.index == old(self).index,
                    self.panel == old(self).panel,
                    self.search == old(self).search,
                    self.corpus == old(self).corpus,
                    self.last_action == old(self).last_action,
                    self.tracking == (TrackingState {
                        recent_event_by_path: self.tracking.recent_event_by_path,
                        ..old(self).tracking
                    }),
                decreases deleted_paths.len() - i,
            {
                assert(gone[i as int] == deleted_paths[i as int]@);
                self.tracking.recent_event_by_path.remove(deleted_paths[i].as_str());
                i += 1;
            }
            let ghost cleared = self.tracking.recent_event_by_path@;
            let mut k: usize = 0;
            while k < upserts.len()
                invariant
                    k <= upserts.len(),
                    ups == item_views(upserts@),
                    self.tracking.recent_event_by_path.wf(),
                    self.tracking.recent_event_by_path@ == events_added(
                        cleared,
                        ups,
                        now_unix,
                        k as nat,
                    ),
                    self.input == old(self).input,
                    self.results == old(self).results,
                    self.index == old(self).index,
                    self.panel == old(self).panel,
                    self.search == old(self).search,
                    self.corpus == old(self).corpus,
                    self.last_action == old(self).last_action,
                    self.tracking == (TrackingState {
                        recent_event_by_path: self.tracking.recent_event_by_path,
                        ..old(self).tracking
                    }),
                decreases upserts.len() - k,
            {
                assert(ups[k as int] == upserts[k as int]@);
                let time = if upserts[k].modified_unix_secs == UNKNOWN_TS {
                    now_unix
                } else {
                    upserts[k].modified_unix_secs
                };
                self.tracking.recent_event_by_path.insert(upserts[k].path.as_str(), time);
                k += 1;
            }
        }
        let counts = self.corpus.apply_index_delta(upserts, &deleted_paths);
        let chars = to_chars(self.input.query.as_str());
        let trimmed = trim_chars(&chars);
        self.search.needs_search_refresh = self.search.latest_only_mode || trimmed.len() == 0;
        (counts.added, counts.updated, counts.deleted)
    }

    /// Whether the state is what the start of an index job for `scope`
    /// leads to from `before`. The job gets the next number and is the
    /// active one from now on; what the job before it still reports will be
    /// dropped. The search under way is given up, the worker's corpus is
    /// dropped, the recent events and the counts of changes are forgotten,
    /// and the filename index is marked dirty. The corpus itself stays
    /// until the job reports.
    pub open spec fn begins_index_from(&self, before: &Controller, scope: SearchScope) -> bool {
        &&& self.input == before.input
        &&& self.results == before.results
        &&& self.panel == before.panel
        &&& self.last_action == before.last_action
        &&& self.index == (IndexState {
            scope,
            index_job_counter: (before.index.index_job_counter + 1) as u64,
            active_index_job: Some((before.index.index_job_counter + 1) as u64),
            job_state: JobState::Building,
            indexing_in_progress: true,
            indexing_progress: 0,
            indexing_phase: IndexPhase::Index,
            index_backend: IndexBackend::Detecting,
            index_memory_bytes: 0,
            visual_progress_test_active: false,
            indexing_is_refresh: false,
            skip_scope_persist_once: false,
        })
        &&& self.corpus.items == before.corpus.items
        &&& self.corpus.filename_index_dirty
        &&& !self.corpus.filename_index_building
        &&& self.search == (SearchState {
            needs_search_refresh: false,
            ..Self::search_cancelled(before.search)
        })
        &&& self.tracking.tracking_enabled == before.tracking.tracking_enabled
        &&& self.tracking.recent_event_by_path@ == Map::<Seq<char>, i64>::empty()
        &&& self.tracking.changes_added_since_index == 0
        &&& self.tracking.changes_updated_since_index == 0
        &&& self.tracking.changes_deleted_since_index == 0
    }

    /// What the application is asked to do at the start of an index job:
    /// to store the scope, unless that is left out this once, to stop the
    /// worker's search and drop its corpus, and to start the job.
    pub open spec fn index_start_effects(before: &Controller, scope: SearchScope) -> Seq<EffectView> {
        let store = if before.index.skip_scope_persist_once {
            Seq::<EffectView>::empty()
        } else {
            seq![EffectView::PersistScope(scope)]
        };
        store + seq![
            EffectView::SearchCancel,
            EffectView::SearchClear,
            EffectView::StartIndexJob {
                job_id: (before.index.index_job_counter + 1) as u64,
                scope,
                allow_dirwalk_fallback: before.panel.use_dirwalk_fallback,
            },
        ]
    }

    /// Starts an index job for a scope.
    pub fn begin_index(&mut self, scope: SearchScope, effects: &mut Vec<Effect>)
        requires
            old(self).wf(),
            old(self).index.index_job_counter < u64::MAX,
        ensures
            final(self).wf(),
            final(self).begins_index_from(old(self), scope),
            effect_views(final(effects)@) == effect_views(old(effects)@) + Self::index_start_effects(
                old(self),
                scope,
            ),
    {
        let ghost held = effect_views(effects@);
        self.index.index_job_counter = self.index.index_job_counter + 1;
        let job_id = self.index.index_job_counter;
        self.index.active_index_job = Some(job_id);
        self.index.job_state = JobState::Building;
        self.index.scope = scope;
        if self.index.skip_scope_persist_once {
            self.index.skip_scope_persist_once = false;
        } else {
            push_effect(effects, Effect::PersistScope(scope));
        }
        self.index.visual_progress_test_active = false;
        self.index.indexing_in_progress = true;
        self.index.indexing_progress = 0;
        self.index.indexing_phase = IndexPhase::Index;
        self.index.indexing_is_refresh = false;
        self.index.index_backend = IndexBackend::Detecting;
        self.index.index_memory_bytes = 0;
        self.corpus.mark_dirty();
        self.cancel_active_search(effects);
        push_effect(effects, Effect::Search(SearchWorkerMessage::Clear));
        self.search.needs_search_refresh = false;
        self.tracking.recent_event_by_path.clear();
        self.tracking.changes_added_since_index = 0;
        self.tracking.changes_updated_since_index = 0;
        self.tracking.changes_deleted_since_index = 0;
        push_effect(
            effects,
            Effect::StartIndexJob {
                job_id,
                scope,
                allow_dirwalk_fallback: self.panel.use_dirwalk_fallback,
            },
        );
        assert(effect_views(effects@) =~= held + Self::index_start_effects(old(self), scope));
    }

    /// The memory that a list of items is counted with.
    pub open spec fn memory_estimate(items: Seq<ItemView>) -> usize {
        if memory_of(items, items.len()) > usize::MAX {
            usize::MAX
        } else {
            memory_of(items, items.len()) as usize
        }
    }

    /// The state from which the search after an index event starts: the
    /// state before the event, with what the event has changed.
    pub open spec fn before_search(&self, before: &Controller) -> Controller {
        Controller {
            corpus: self.corpus,
            index: self.index,
            tracking: self.tracking,
            last_action: self.last_action,
            ..*before
        }
    }

    /// Whether the state is what a loaded snapshot leads to from `before`.
    /// The items of the snapshot are the corpus; the index job goes on as a
    /// refresh; the worker gets the corpus; and the query is searched anew.
    pub open spec fn snapshot_loaded_from(
        &self,
        before: &Controller,
        items: Seq<ItemView>,
        effects: Seq<EffectView>,
    ) -> bool {
        &&& self.corpus.views() == items
        &&& self.corpus.filename_index_dirty
        &&& !self.corpus.filename_index_building
        &&& self.index == (IndexState {
            indexing_is_refresh: true,
            index_memory_bytes: Self::memory_estimate(items),
            ..before.index
        })
        &&& self.tracking == before.tracking
        &&& self.last_action@ == count_message_text(
            "Loaded snapshot: "@,
            items.len(),
            " items ["@,
            before.index.scope.label_text(),
        )
        &&& effects.len() == 2
        &&& effects[0] == (EffectView::SearchSetCorpus {
            items,
            recent: before.tracking.recent_event_by_path@,
        })
        &&& self.searches_from(&self.before_search(before), effects[1])
    }

    /// Takes in the items of a snapshot.
    pub fn on_snapshot_loaded(&mut self, items: Vec<SearchItem>, effects: &mut Vec<Effect>)
        requires
            old(self).wf(),
        ensures
            final(self).wf(),
            effects_grown(old(effects)@, final(effects)@),
            final(self).snapshot_loaded_from(
                old(self),
                item_views(items@),
                added_effects(old(effects)@, final(effects)@),
            ),
    {
        let ghost held = effect_views(effects@);
        let ghost views = item_views(items@);
        self.corpus.set_items(items);
        self.index.indexing_is_refresh = true;
        self.recompute_index_memory_bytes();
        self.push_corpus_to_search_worker(effects);
        self.last_action = count_message(
            "Loaded snapshot: ",
            self.corpus.items.len(),
            " items [",
            self.index.scope.label().as_str(),
        );
        let ghost mid = *self;
        let ghost pushed = effect_views(effects@);
        self.schedule_search_from_current_query(effects);
        assert(self.before_search(old(self)) == mid);
        let ghost all = effect_views(effects@);
        let ghost added = added_effects(old(effects)@, effects@);
        assert(all.drop_last() == pushed);
        assert(pushed.drop_last() == held);
        assert(added.len() == 2);
        assert(added[0] == all.drop_last()[held.len() as int]);
        assert(added[0] == pushed.last());
        assert(added[1] == all.last());
        assert(all =~= held + added) by {
            assert forall|i: int| 0 <= i < held.len() implies all[i] == held[i] by {
                assert(all[i] == all.drop_last()[i]);
                assert(pushed[i] == pushed.drop_last()[i]);
            }
        }
    }

    /// Takes in how far the index job has come.
    pub fn on_index_progress(&mut self, current: usize, total: usize, phase: IndexPhase)
        ensures
            *final(self) == (Controller {
                index: IndexState {
                    indexing_in_progress: true,
                    indexing_phase: phase,
                    indexing_progress: progress_permille(current, total),
                    ..old(self).index
                },
                ..*old(self)
            }),
    {
        self.index.indexing_in_progress = true;
        self.index.indexing_phase = phase;
        self.index.indexing_progress = progress_of_job(current, total);
    }

    /// What the panel says when an index job is done.
    pub open spec fn done_message(items: Seq<ItemView>, backend: IndexBackend, scope: SearchScope) -> Seq<
        char,
    > {
        if items.len() == 0 && backend == IndexBackend::Detecting {
            "NTFS indexing unavailable (run elevated and ensure USN journal is available)"@
        } else {
            count_message_text("Indexed "@, items.len(), " files ["@, scope.label_text())
        }
    }

    /// Whether the state is what the result of an index job leads to from
    /// `before`. The items are the corpus; the job is live if its backend
    /// follows the volume and over otherwise; the recent events and the
    /// counts of changes begin anew; the worker gets the corpus; the query
    /// is searched anew; and the search field is to get the focus.
    pub open spec fn index_done_from(
        &self,
        before: &Controller,
        items: Seq<ItemView>,
        backend: IndexBackend,
        effects: Seq<EffectView>,
    ) -> bool {
        &&& self.corpus.views() == items
        &&& self.corpus.filename_index_dirty
        &&& !self.corpus.filename_index_building
        &&& self.index == (IndexState {
            indexing_in_progress: false,
            indexing_progress: PROGRESS_FULL,
            indexing_phase: IndexPhase::Done,
            index_backend: backend,
            job_state: if backend == IndexBackend::NtfsUsnLive {
                JobState::Live
            } else {
                JobState::Idle
            },
            index_memory_bytes: Self::memory_estimate(items),
            ..before.index
        })
        &&& self.tracking.tracking_enabled == before.tracking.tracking_enabled
        &&& self.tracking.recent_event_by_path@ == Map::<Seq<char>, i64>::empty()
        &&& self.tracking.changes_added_since_index == 0
        &&& self.tracking.changes_updated_since_index == 0
        &&& self.tracking.changes_deleted_since_index == 0
        &&& self.last_action@ == Self::done_message(items, backend, before.index.scope)
        &&& effects.len() == 3
        &&& effects[0] == (EffectView::SearchSetCorpus {
            items,
            recent: Map::<Seq<char>, i64>::empty(),
        })
        &&& self.searches_from(&self.before_search(before), effects[1])
        &&& effects[2] == EffectView::FocusSearch
    }

    /// Takes in the result of an index job.
    pub fn on_index_done(
        &mut self,
        items: Vec<SearchItem>,
        backend: IndexBackend,
        effects: &mut Vec<Effect>,
    )
        requires
            old(self).wf(),
        ensures
            final(self).wf(),
            effects_grown(old(effects)@, final(effects)@),
            final(self).index_done_from(
                old(self),
                item_views(items@),
                backend,
                added_effects(old(effects)@, final(effects)@),
            ),
    {
        let ghost held = effect_views(effects@);
        self.index.indexing_in_progress = false;
        self.index.indexing_progress = PROGRESS_FULL;
        self.index.indexing_phase = IndexPhase::Done;
        self.index.index_backend = backend;
        self.index.job_state = if backend.live_updates() {
            JobState::Live
        } else {
            JobState::Idle
        };
        self.corpus.set_items(items);
        self.recompute_index_memory_bytes();
        self.tracking.recent_event_by_path.clear();
        self.tracking.changes_added_since_index = 0;
        self.tracking.changes_updated_since_index = 0;
        self.tracking.changes_deleted_since_index = 0;
        self.push_corpus_to_search_worker(effects);
        if self.corpus.items.len() == 0 && backend == IndexBackend::Detecting {
            self.last_action = String::from_str(
                "NTFS indexing unavailable (run elevated and ensure USN journal is available)",
            );
        } else {
            self.last_action = count_message(
                "Indexed ",
                self.corpus.items.len(),
                " files [",
                self.index.scope.label().as_str(),
            );
        }
        let ghost mid = *self;
        let ghost pushed = effect_views(effects@);
        self.schedule_search_from_current_query(effects);
        assert(self.before_search(old(self)) == mid);
        let ghost searched = effect_views(effects@);
        push_effect(effects, Effect::FocusSearch);
        let ghost all = effect_views(effects@);
        let ghost added = added_effects(old(effects)@, effects@);
        assert(searched.drop_last() == pushed);
        assert(pushed.drop_last() == held);
        assert(added.len() == 3);
        assert(added[0] == searched.drop_last()[held.len() as int]);
        assert(added[0] == pushed.last());
        assert(added[1] == searched.last());
        assert(added[2] == EffectView::FocusSearch);
        assert(all =~= held + added) by {
            assert forall|i: int| 0 <= i < held.len() implies all[i] == held[i] by {
                assert(searched[i] == searched.drop_last()[i]);
                assert(pushed[i] == pushed.drop_last()[i]);
            }
        }
    }

    /// Whether the state is what a delta leads to from `before`. The corpus
    /// takes the delta in, and the counts of changes grow by the counts of
    /// the delta; while tracking is on, the recent events follow it. The
    /// index job is live and at rest.
    pub open spec fn index_delta_from(
        &self,
        before: &Controller,
        upserts: Seq<ItemView>,
        deleted: Seq<Seq<char>>,
        now: i64,
    ) -> bool {
        let counts = delta_counts(before.corpus.views(), upserts, deleted);
        &&& self.input == before.input
        &&& self.results == before.results
        &&& self.panel == before.panel
        &&& self.corpus.views() == after_delta(before.corpus.views(), upserts, deleted)
        &&& self.corpus.filename_index_dirty
        &&& !self.corpus.filename_index_building
        &&& self.search == (SearchState {
            needs_search_refresh: before.search.latest_only_mode || trim(before.input.query@).len()
                == 0,
            ..before.search
        })
        &&& self.index == (IndexState {
            indexing_in_progress: false,
            indexing_progress: PROGRESS_FULL,
            indexing_phase: IndexPhase::Live,
            index_memory_bytes: Self::memory_estimate(self.corpus.views()),
            ..before.index
        })
        &&& self.tracking.tracking_enabled == before.tracking.tracking_enabled
        &&& self.tracking.recent_event_by_path@ == if before.tracking.tracking_enabled {
            recent_after_delta(before.tracking.recent_event_by_path@, upserts, deleted, now)
        } else {
            before.tracking.recent_event_by_path@
        }
        &&& self.tracking.changes_added_since_index as nat == Self::counted(
            before.tracking.changes_added_since_index,
            counts.0,
        )
        &&& self.tracking.changes_updated_since_index as nat == Self::counted(
            before.tracking.changes_updated_since_index,
            counts.1,
        )
        &&& self.tracking.changes_deleted_since_index as nat == Self::counted(
            before.tracking.changes_deleted_since_index,
            counts.2,
        )
        &&& self.last_action@ == count_message_text(
            "Live index update: "@,
            self.corpus.views().len(),
            " items ["@,
            before.index.scope.label_text(),
        )
    }

    /// A count grown by `more`, and the largest count where that is larger.
    pub open spec fn counted(count: usize, more: nat) -> nat {
        if count + more > usize::MAX {
            usize::MAX as nat
        } else {
            (count + more) as nat
        }
    }

    pub fn add_count(count: usize, more: usize) -> (r: usize)
        ensures
            r as nat == Self::counted(count, more as nat),
    {
        if count > usize::MAX - more {
            usize::MAX
        } else {
            count + more
        }
    }

    /// Takes in a delta of a live index job.
    pub fn on_index_delta(
        &mut self,
        upserts: Vec<SearchItem>,
        deleted_paths: Vec<String>,
        now_unix: i64,
    )
        requires
            old(self).wf(),
        ensures
            final(self).wf(),
            final(self).index_delta_from(
                old(self),
                item_views(upserts@),
                string_views(deleted_paths@),
                now_unix,
            ),
    {
        let (added, updated, deleted) = self.apply_index_delta(upserts, deleted_paths, now_unix);
        self.tracking.changes_added_since_index = Self::add_count(
            self.tracking.changes_added_since_index,
            added,
        );
        self.tracking.changes_updated_since_index = Self::add_count(
            self.tracking.changes_updated_since_index,
            updated,
        );
        self.tracking.changes_deleted_since_index = Self::add_count(
            self.tracking.changes_deleted_since_index,
            deleted,
        );
        self.recompute_index_memory_bytes();
        self.index.indexing_in_progress = false;
        self.index.indexing_progress = PROGRESS_FULL;
        self.index.indexing_phase = IndexPhase::Live;
        self.last_action = count_message(
            "Live index update: ",
            self.corpus.items.len(),
            " items [",
            self.index.scope.label().as_str(),
        );
    }

    /// Whether an event of an index job is taken in: it comes from the
    /// active job, a snapshot comes while the job builds, and a delta comes
    /// while the job is live.
    pub open spec fn accepts(&self, event: &IndexEvent) -> bool {
        &&& self.index.active_index_job == Some(event.job())
        &&& event is SnapshotLoaded ==> self.index.job_state == JobState::Building
        &&& event is Delta ==> self.index.job_state == JobState::Live
    }

    /// Whether the state is what an event of an index job leads to from
    /// `before`, with `added` as what the application is asked to do. An
    /// event that is not accepted changes nothing and asks for nothing. The
    /// result of the job asks, with its last effect, for the focus to go to
    /// the search field.
    pub open spec fn index_event_applied(
        &self,
        before: &Controller,
        event: IndexEvent,
        now_unix: i64,
        added: Seq<EffectView>,
    ) -> bool {
        if !before.accepts(&event) {
            *self == *before && added == Seq::<EffectView>::empty()
        } else {
            match event {
                IndexEvent::SnapshotLoaded { items, .. } => self.snapshot_loaded_from(
                    before,
                    item_views(items@),
                    added,
                ),
                IndexEvent::Progress { current, total, phase, .. } => added
                    == Seq::<EffectView>::empty() && *self == (Controller {
                    index: IndexState {
                        indexing_in_progress: true,
                        indexing_phase: phase,
                        indexing_progress: progress_permille(current, total),
                        ..before.index
                    },
                    ..*before
                }),
                IndexEvent::Done { items, backend, .. } => self.index_done_from(
                    before,
                    item_views(items@),
                    backend,
                    added,
                ),
                IndexEvent::Delta { upserts, deleted_paths, .. } => added
                    == Seq::<EffectView>::empty() && self.index_delta_from(
                    before,
                    item_views(upserts@),
                    string_views(deleted_paths@),
                    now_unix,
                ),
            }
        }
    }

    /// Takes in an event of an index job.
    pub fn handle_index_event(&mut self, event: IndexEvent, now_unix: i64) -> (effects: Vec<Effect>)
        requires
            old(self).wf(),
        ensures
            final(self).wf(),
            final(self).index_event_applied(old(self), event, now_unix, effect_views(effects@)),
    {
        let mut effects: Vec<Effect> = Vec::new();
        assert(effect_views(effects@) =~= Seq::<EffectView>::empty());
        let ghost none = effects@;
        let active = match self.index.active_index_job {
            Some(job) => job == event.job_id(),
            None => false,
        };
        if !active {
            return effects;
        }
        match event {
            IndexEvent::SnapshotLoaded { job_id, items } => {
                if self.index.job_state == JobState::Building {
                    self.on_snapshot_loaded(items, &mut effects);
                    assert(added_effects(none, effects@) =~= effect_views(effects@));
                }
            },
            IndexEvent::Progress { job_id, current, total, phase } => {
                self.on_index_progress(current, total, phase);
            },
            IndexEvent::Done { job_id, items, backend } => {
                self.on_index_done(items, backend, &mut effects);
                assert(added_effects(none, effects@) =~= effect_views(effects@));
            },
            IndexEvent::Delta { job_id, upserts, deleted_paths } => {
                if self.index.job_state == JobState::Live {
                    self.on_index_delta(upserts, deleted_paths, now_unix);
                }
            },
        }
        effects
    }

    /// Whether an event of the search worker is taken in: it belongs to the
    /// search under way.
    pub open spec fn awaits(&self, generation: u64) -> bool {
        self.search.active_search_job == Some(generation)
    }

    /// Whether the state is what an event of the search worker leads to
    /// from `before`. An event of another search than the one under way
    /// changes nothing. Progress moves the cursor; a result is listed, and
    /// the search is over.
    pub open spec fn search_event_applied(&self, before: &Controller, event: SearchEvent) -> bool {
        match event {
            SearchEvent::Progress { generation, scanned, total } => *self == (Controller {
                search: SearchState {
                    active_search_cursor: if !before.awaits(generation) {
                        before.search.active_search_cursor
                    } else if scanned < total {
                        scanned
                    } else {
                        total
                    },
                    ..before.search
                },
                ..*before
            }),
            SearchEvent::Done { generation, items } => if before.awaits(generation) {
                &&& self.same_but_search(before)
                &&& self.shown() == item_views(items@)
                &&& self.results.selected == Self::clamped(items@.len(), before.results.selected)
                &&& self.search == Self::search_cancelled(before.search)
            } else {
                *self == *before
            },
        }
    }

    /// Takes in an event of the search worker.
    pub fn handle_search_event(&mut self, event: SearchEvent)
        requires
            old(self).wf(),
        ensures
            final(self).wf(),
            final(self).search_event_applied(old(self), event),
    {
        match event {
            SearchEvent::Progress { generation, scanned, total } => {
                let active = match self.search.active_search_job {
                    Some(job) => job == generation,
                    None => false,
                };
                if active {
                    self.search.active_search_cursor = if scanned < total {
                        scanned
                    } else {
                        total
                    };
                } else {
                    self.search.active_search_cursor = self.search.active_search_cursor;
                }
            },
            SearchEvent::Done { generation, items } => {
                let active = match self.search.active_search_job {
                    Some(job) => job == generation,
                    None => false,
                };
                if active {
                    self.results.items = items;
                    self.search.active_search_job = None;
                    self.search.active_search_query = None;
                    self.search.active_search_cursor = 0;
                    self.clamp_selected();
                }
            },
        }
    }

    /// Whether the state is what switching tracking on or off leads to
    /// from `before`: tracking is on where it was off and off where it was
    /// on, and the message says so. Nothing else changes: the recent events,
    /// the counts of changes and the listing of recent items stay as they
    /// are.
    pub open spec fn tracking_toggled_from(&self, before: &Controller) -> bool {
        &&& *self == (Controller {
            tracking: TrackingState {
                tracking_enabled: !before.tracking.tracking_enabled,
                ..before.tracking
            },
            last_action: self.last_action,
            ..*before
        })
        &&& self.last_action@ == if before.tracking.tracking_enabled {
            "Tracking disabled"@
        } else {
            "Tracking enabled"@
        }
    }

    /// Switches tracking on or off.
    pub fn toggle_tracking(&mut self)
        requires
            old(self).wf(),
        ensures
            final(self).wf(),
            final(self).tracking_toggled_from(old(self)),
    {
        self.tracking.tracking_enabled = !self.tracking.tracking_enabled;
        if self.tracking.tracking_enabled {
            self.last_action = String::from_str("Tracking enabled");
        } else {
            self.last_action = String::from_str("Tracking disabled");
        }
    }

    /// Switching tracking twice brings back the state from before the
    /// first switch: tracking is on or off as it was, and the recent events,
    /// the counts of changes, the listing of recent items, the corpus, the
    /// list and the scope are what they were. Only the message tells of the
    /// switch.
    pub proof fn lemma_double_toggle_tracking(
        before: Controller,
        between: Controller,
        after: Controller,
    )
        requires
            between.tracking_toggled_from(&before),
            after.tracking_toggled_from(&between),
        ensures
            after == (Controller { last_action: after.last_action, ..before }),
            after.tracking == before.tracking,
            after.search == before.search,
            after.corpus == before.corpus,
            after.results == before.results,
            after.index == before.index,
    {
    }

    /// Whether the state is what the start of the test of the progress bar
    /// leads to from `before`: the bar is empty and begins to grow.
    pub open spec fn progress_test_from(&self, before: &Controller) -> bool {
        &&& *self == (Controller {
            index: IndexState {
                visual_progress_test_active: true,
                indexing_in_progress: true,
                indexing_progress: 0,
                ..before.index
            },
            last_action: self.last_action,
            ..*before
        })
        &&& self.last_action@ == "Running visual progress test"@
    }

    /// Starts the test of the progress bar.
    pub fn start_progress_test(&mut self)
        ensures
            final(self).progress_test_from(old(self)),
    {
        self.index.visual_progress_test_active = true;
        self.index.indexing_in_progress = true;
        self.index.indexing_progress = 0;
        self.last_action = String::from_str("Running visual progress test");
    }

    /// Whether the state is `before` with the wish to end.
    pub open spec fn exit_from(&self, before: &Controller) -> bool {
        *self == (Controller {
            panel: PanelState { should_exit: true, ..before.panel },
            ..*before
        })
    }

    /// Asks the application to end.
    pub fn request_exit(&mut self)
        ensures
            final(self).exit_from(old(self)),
    {
        self.panel.should_exit = true;
    }

    /// Whether the state is `before` with a change of the window's mode
    /// asked for.
    pub open spec fn window_mode_from(&self, before: &Controller, request: WindowModeRequest) -> bool {
        &&& *self == (Controller {
            panel: PanelState { pending_window_mode_request: Some(request), ..before.panel },
            last_action: self.last_action,
            ..*before
        })
        &&& self.last_action@ == match request {
            WindowModeRequest::ToggleFullscreen => "Toggling fullscreen"@,
            WindowModeRequest::ToggleFullHeight => "Toggling full-height mode"@,
        }
    }

    /// Asks for a change of the window's mode at the next tick.
    pub fn request_window_mode(&mut self, request: WindowModeRequest)
        ensures
            final(self).window_mode_from(old(self), request),
    {
        self.panel.pending_window_mode_request = Some(request);
        self.last_action = match request {
            WindowModeRequest::ToggleFullscreen => String::from_str("Toggling fullscreen"),
            WindowModeRequest::ToggleFullHeight => String::from_str("Toggling full-height mode"),
        };
    }

    /// Whether the state is `before` with another renderer asked for.
    pub open spec fn renderer_mode_from(
        &self,
        before: &Controller,
        request: RendererModeRequest,
    ) -> bool {
        &&& *self == (Controller {
            panel: PanelState { pending_renderer_mode_request: Some(request), ..before.panel },
            last_action: self.last_action,
            ..*before
        })
        &&& self.last_action@ == match request {
            RendererModeRequest::Gpu => "Switching renderer to GPU"@,
            RendererModeRequest::Soft => "Switching renderer to soft"@,
        }
    }

    /// Asks for another renderer at the next tick.
    pub fn request_renderer_mode(&mut self, request: RendererModeRequest)
        ensures
            final(self).renderer_mode_from(old(self), request),
    {
        self.panel.pending_renderer_mode_request = Some(request);
        self.last_action = match request {
            RendererModeRequest::Gpu => String::from_str("Switching renderer to GPU"),
            RendererModeRequest::Soft => String::from_str("Switching renderer to soft"),
        };
    }

    /// Hands out the change of the window's mode that was asked for.
    pub fn take_window_mode_request(&mut self) -> (r: Option<WindowModeRequest>)
        ensures
            r == old(self).panel.pending_window_mode_request,
            *final(self) == (Controller {
                panel: PanelState { pending_window_mode_request: None, ..old(self).panel },
                ..*old(self)
            }),
    {
        let r = self.panel.pending_window_mode_request;
        self.panel.pending_window_mode_request = None;
        r
    }

    /// Hands out the renderer that was asked for.
    pub fn take_renderer_mode_request(&mut self) -> (r: Option<RendererModeRequest>)
        ensures
            r == old(self).panel.pending_renderer_mode_request,
            *final(self) == (Controller {
                panel: PanelState { pending_renderer_mode_request: None, ..old(self).panel },
                ..*old(self)
            }),
    {
        let r = self.panel.pending_renderer_mode_request;
        self.panel.pending_renderer_mode_request = None;
        r
    }

    /// Whether the state is what asking for more rights leads to from
    /// `before`, with `added` as what the application is asked to do. An
    /// elevated process says so and asks for nothing. Any other asks for a
    /// new process, and remembers whether the input line is to be emptied
    /// once the answer is there.
    pub open spec fn elevation_from(
        &self,
        before: &Controller,
        command_invocation: bool,
        added: Seq<EffectView>,
    ) -> bool {
        if before.panel.is_elevated {
            &&& *self == (Controller { last_action: self.last_action, ..*before })
            &&& self.last_action@ == "Already elevated"@
            &&& added == Seq::<EffectView>::empty()
        } else {
            &&& *self == (Controller {
                panel: PanelState {
                    clear_input_after_elevation: command_invocation,
                    ..before.panel
                },
                ..*before
            })
            &&& added == seq![EffectView::RequestElevation(SearchScope::EntireCurrentDrive)]
        }
    }

    /// Asks for the process to be started anew with more rights.
    pub fn request_elevation(&mut self, command_invocation: bool, effects: &mut Vec<Effect>)
        ensures
            effects_grown(old(effects)@, final(effects)@),
            final(self).elevation_from(
                old(self),
                command_invocation,
                added_effects(old(effects)@, final(effects)@),
            ),
    {
        let ghost held = effect_views(effects@);
        if self.panel.is_elevated {
            self.last_action = String::from_str("Already elevated");
            assert(added_effects(old(effects)@, effects@) =~= Seq::<EffectView>::empty());
            assert(effect_views(effects@) =~= held + Seq::<EffectView>::empty());
            return ;
        }
        self.panel.clear_input_after_elevation = command_invocation;
        push_effect(effects, Effect::RequestElevation(SearchScope::EntireCurrentDrive));
        assert(added_effects(old(effects)@, effects@) =~= seq![
            EffectView::RequestElevation(SearchScope::EntireCurrentDrive),
        ]);
        assert(effect_views(effects@) =~= held + added_effects(old(effects)@, effects@));
    }

    /// Takes in what came of the request for more rights: the application
    /// ends where a new process was started, and shows the message where
    /// none was. The input line is emptied if the request came from it.
    pub fn on_elevation_result(&mut self, granted: bool, message: String)
        ensures
            *final(self) == (Controller {
                input: final(self).input,
                panel: PanelState {
                    should_exit: granted || old(self).panel.should_exit,
                    clear_input_after_elevation: false,
                    ..old(self).panel
                },
                last_action: final(self).last_action,
                ..*old(self)
            }),
            granted ==> final(self).last_action == old(self).last_action,
            !granted ==> final(self).last_action == message,
            old(self).panel.clear_input_after_elevation ==> {
                &&& final(self).input == (QueryState {
                    raw_query: final(self).input.raw_query,
                    query: final(self).input.query,
                    pending_query: None,
                    command_selected: 0,
                    ..old(self).input
                })
                &&& final(self).input.raw_query@ == Seq::<char>::empty()
                &&& final(self).input.query@ == Seq::<char>::empty()
            },
            !old(self).panel.clear_input_after_elevation ==> final(self).input == old(self).input,
    {
        if granted {
            self.panel.should_exit = true;
        } else {
            self.last_action = message;
        }
        if self.panel.clear_input_after_elevation {
            self.clear_command_input();
            assert(self.input.raw_query@ =~= Seq::<char>::empty());
            assert(self.input.query@ =~= Seq::<char>::empty());
        }
        self.panel.clear_input_after_elevation = false;
    }

    /// Whether the state is what the wish for recent items only leads to
    /// from `before`, with `added` as what the application is asked to do.
    /// While tracking is off nothing changes but the message. Otherwise
    /// only recent items are listed from now on, within the given window
    /// or, without one, within the window as it stands; the query is
    /// emptied; and the recent items are searched for.
    pub open spec fn latest_only_from(
        &self,
        before: &Controller,
        window_secs: Option<i64>,
        added: Seq<EffectView>,
    ) -> bool {
        if !before.tracking.tracking_enabled {
            &&& *self == (Controller { last_action: self.last_action, ..*before })
            &&& self.last_action@ == "Tracking is off (use /track to enable)"@
            &&& added == Seq::<EffectView>::empty()
        } else {
            let window = match window_secs {
                Some(w) => w,
                None => before.search.latest_window_secs,
            };
            &&& self.input == (QueryState { query: self.input.query, ..before.input })
            &&& self.input.query@ == Seq::<char>::empty()
            &&& self.last_action@ == "Showing files changed in last "@ + latest_window_text(window)
            &&& added.len() == 1
            &&& self.searches_from(
                &(Controller {
                    input: self.input,
                    search: SearchState {
                        latest_only_mode: true,
                        latest_window_secs: window,
                        ..before.search
                    },
                    last_action: self.last_action,
                    ..*before
                }),
                added[0],
            )
        }
    }

    /// Lists only recent items from now on, within the given window or,
    /// without one, within the window as it stands. While tracking is off
    /// nothing changes but the message.
    pub fn set_latest_only(&mut self, window_secs: Option<i64>, effects: &mut Vec<Effect>)
        requires
            old(self).wf(),
            window_secs is Some ==> window_secs->0 > 0,
        ensures
            final(self).wf(),
            effects_grown(old(effects)@, final(effects)@),
            final(self).latest_only_from(
                old(self),
                window_secs,
                added_effects(old(effects)@, final(effects)@),
            ),
    {
        let ghost held = effect_views(effects@);
        if !self.tracking.tracking_enabled {
            self.last_action = String::from_str("Tracking is off (use /track to enable)");
            assert(added_effects(old(effects)@, effects@) =~= Seq::<EffectView>::empty());
            assert(effect_views(effects@) =~= held + Seq::<EffectView>::empty());
            return ;
        }
        self.search.latest_only_mode = true;
        match window_secs {
            Some(w) => {
                self.search.latest_window_secs = w;
            },
            None => {},
        }
        self.input.query = String::new();
        assert(self.input.query@ =~= Seq::<char>::empty());
        let window = format_latest_window(self.search.latest_window_secs);
        self.last_action = text_with("Showing files changed in last ", window.as_str());
        let ghost mid = *self;
        self.schedule_search_from_current_query(effects);
        let ghost all = effect_views(effects@);
        let ghost added = added_effects(old(effects)@, effects@);
        assert(all.drop_last() == held);
        assert(added.len() == 1);
        assert(added[0] == all.last());
        assert(all =~= held + added) by {
            assert forall|i: int| 0 <= i < held.len() implies all[i] == held[i] by {
                assert(all[i] == all.drop_last()[i]);
            }
        }
        assert(mid == (Controller {
            input: self.input,
            search: SearchState {
                latest_only_mode: true,
                latest_window_secs: mid.search.latest_window_secs,
                ..old(self).search
            },
            last_action: self.last_action,
            ..*old(self)
        }));
    }

    /// Whether the state is what indexing the scope anew leads to from
    /// `before`, with `added` as what the application is asked to do: all
    /// items are listed again, not only the recent ones, the query is
    /// emptied, and an index job for the scope begins.
    pub open spec fn reindexed_from(&self, before: &Controller, added: Seq<EffectView>) -> bool {
        &&& self.input == (QueryState { query: self.input.query, ..before.input })
        &&& self.input.query@ == Seq::<char>::empty()
        &&& self.last_action@ == "Reindexing scope: "@ + before.index.scope.label_text()
        &&& self.begins_index_from(
            &(Controller {
                input: self.input,
                search: SearchState { latest_only_mode: false, ..before.search },
                last_action: self.last_action,
                ..*before
            }),
            before.index.scope,
        )
        &&& added == Self::index_start_effects(before, before.index.scope)
    }

    /// Indexes the scope anew.
    pub fn reindex(&mut self, effects: &mut Vec<Effect>)
        requires
            old(self).wf(),
            old(self).index.index_job_counter < u64::MAX,
        ensures
            final(self).wf(),
            effects_grown(old(effects)@, final(effects)@),
            final(self).reindexed_from(old(self), added_effects(old(effects)@, final(effects)@)),
    {
        let ghost held = effect_views(effects@);
        self.search.latest_only_mode = false;
        self.input.query = String::new();
        assert(self.input.query@ =~= Seq::<char>::empty());
        self.last_action = text_with("Reindexing scope: ", self.index.scope.label().as_str());
        let ghost mid = *self;
        let scope = self.index.scope;
        self.begin_index(scope, effects);
        assert(Self::index_start_effects(&mid, scope) == Self::index_start_effects(old(self), scope));
        assert(added_effects(old(effects)@, effects@) =~= Self::index_start_effects(
            old(self),
            scope,
        ));
        assert(mid == (Controller {
            input: self.input,
            search: SearchState { latest_only_mode: false, ..old(self).search },
            last_action: self.last_action,
            ..*old(self)
        }));
    }

    /// Whether the state is what turning to the scope `scope` leads to from
    /// `before`, with `added` as what the application is asked to do. While
    /// that very scope is being indexed nothing changes but the message.
    /// Otherwise the corpus and the list are emptied and an index job for
    /// the scope begins.
    pub open spec fn scope_changed_from(
        &self,
        before: &Controller,
        scope: SearchScope,
        added: Seq<EffectView>,
    ) -> bool {
        if before.index.indexing_in_progress && before.index.scope == scope {
            &&& *self == (Controller { last_action: self.last_action, ..*before })
            &&& self.last_action@ == "Already indexing scope: "@ + scope.label_text()
            &&& added == Seq::<EffectView>::empty()
        } else {
            &&& self.corpus.views() == Seq::<ItemView>::empty()
            &&& self.shown() == Seq::<ItemView>::empty()
            &&& self.results.selected == 0
            &&& self.last_action@ == "Indexing scope: "@ + scope.label_text()
            &&& self.begins_index_from(
                &(Controller {
                    results: self.results,
                    corpus: Corpus { items: self.corpus.items, ..before.corpus },
                    last_action: self.last_action,
                    ..*before
                }),
                scope,
            )
            &&& added == Self::index_start_effects(before, scope)
        }
    }

    /// Turns to another scope: empties the corpus and the list and indexes
    /// the scope. While that very scope is being indexed nothing changes but
    /// the message.
    pub fn change_scope(&mut self, new_scope: SearchScope, effects: &mut Vec<Effect>)
        requires
            old(self).wf(),
            old(self).index.index_job_counter < u64::MAX,
        ensures
            final(self).wf(),
            effects_grown(old(effects)@, final(effects)@),
            final(self).scope_changed_from(
                old(self),
                new_scope,
                added_effects(old(effects)@, final(effects)@),
            ),
    {
        let ghost held = effect_views(effects@);
        if self.index.indexing_in_progress && self.index.scope == new_scope {
            self.last_action = text_with("Already indexing scope: ", new_scope.label().as_str());
            assert(added_effects(old(effects)@, effects@) =~= Seq::<EffectView>::empty());
            assert(effect_views(effects@) =~= held + Seq::<EffectView>::empty());
            return ;
        }
        self.index.scope = new_scope;
        self.corpus.set_items(Vec::new());
        self.results.items = Vec::new();
        self.results.selected = 0;
        assert(self.corpus.views() =~= Seq::<ItemView>::empty());
        assert(self.shown() =~= Seq::<ItemView>::empty());
        self.last_action = text_with("Indexing scope: ", new_scope.label().as_str());
        let ghost mid = *self;
        self.begin_index(new_scope, effects);
        assert(Self::index_start_effects(&mid, new_scope) == Self::index_start_effects(
            old(self),
            new_scope,
        ));
        assert(added_effects(old(effects)@, effects@) =~= Self::index_start_effects(
            old(self),
            new_scope,
        ));
    }
}

} // verus!
