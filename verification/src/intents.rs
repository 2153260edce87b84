//! What the user does at the panel: typing, choosing, and the lines that
//! begin with `/`.

use vstd::prelude::*;
use vstd::string::*;
use crate::commands::{
    apply_command_choice, command_menu_items, is_exact_directive_token, parse_scope_directive,
    parsed_line, DirectiveState,
};
use crate::controller::{
    added_effects, effect_views, push_effect, Controller, EffectView, IndexState, PanelState, PendingQuery,
    QueryState, ResultState, SearchState, TrackingState, DEFAULT_LATEST_WINDOW_SECS,
    DELTA_REFRESH_COOLDOWN_MS, PROGRESS_FULL, QUERY_DEBOUNCE_DELAY_MS, TOGGLE_DEBOUNCE_MS,
};
use crate::corpus::Corpus;
use crate::events::{Effect, IndexPhase, JobState, RendererModeRequest, WindowModeRequest};
use crate::item::{item_views, ItemView};
use crate::messages::text_with;
use crate::recent::RecentEventMap;
use crate::scope::{startup_scope, IndexBackend, SearchScope};
use crate::text::{
    chars_start_with, join, split_whitespace, split_ws, starts_with, string_of, to_chars,
    trim_start, trim_start_chars, views,
};

verus! {

/// What a line of input asks the controller to do. Of several directives in
/// one line the first in this order counts.
pub ghost enum DirectiveAction {
    TestProgress,
    Exit,
    Elevate,
    LatestOnly,
    ToggleTracking,
    ToggleFullscreen,
    ToggleFullHeight,
    SoftRenderer,
    Reindex,
    ChangeScope(SearchScope),
    Search,
}

pub open spec fn action_of(line: DirectiveState) -> DirectiveAction {
    if line.test_progress {
        DirectiveAction::TestProgress
    } else if line.exit_app {
        DirectiveAction::Exit
    } else if line.elevate_app {
        DirectiveAction::Elevate
    } else if line.latest_only {
        DirectiveAction::LatestOnly
    } else if line.toggle_tracking {
        DirectiveAction::ToggleTracking
    } else if line.toggle_fullscreen {
        DirectiveAction::ToggleFullscreen
    } else if line.toggle_fullheight {
        DirectiveAction::ToggleFullHeight
    } else if line.switch_renderer_soft {
        DirectiveAction::SoftRenderer
    } else if line.reindex_current_scope {
        DirectiveAction::Reindex
    } else if line.scope_override is Some {
        DirectiveAction::ChangeScope(line.scope_override->0)
    } else {
        DirectiveAction::Search
    }
}

/// Whether a line keeps the listing of recent items: its first token
/// begins with `/latest` or `/last`, or a window of no time or of less has
/// been refused in it.
pub open spec fn keeps_latest(raw: Seq<char>) -> bool {
    starts_with(trim_start(raw), "/latest"@) || starts_with(trim_start(raw), "/last"@)
        || parsed_line(raw).latest_refused
}

/// Whether a line begins with `/`, white space before it apart.
pub open spec fn is_command_line(raw: Seq<char>) -> bool {
    trim_start(raw).len() > 0 && trim_start(raw)[0] == '/'
}

/// The first token of a line, empty where the line has none.
pub open spec fn first_token(raw: Seq<char>) -> Seq<char> {
    if split_ws(raw).len() > 0 {
        split_ws(raw)[0]
    } else {
        Seq::empty()
    }
}

/// A time `delay` after `now`, and the last time where that lies beyond it.
pub open spec fn time_after(now: u64, delay: u64) -> u64 {
    if now + delay > u64::MAX {
        u64::MAX
    } else {
        (now + delay) as u64
    }
}

pub fn later(now: u64, delay: u64) -> (r: u64)
    ensures
        r == time_after(now, delay),
{
    if now > u64::MAX - delay {
        u64::MAX
    } else {
        now + delay
    }
}

impl Controller {
    /// The state of a fresh controller and what it asks for first: it knows
    /// no file, shows the overlays that the rights of the process call for,
    /// and starts to index the scope that the command line asks for, or
    /// else the stored scope for an elevated process and the current folder
    /// for any other.
    pub fn new(
        start_visible: bool,
        arg_scope: Option<SearchScope>,
        persisted_scope: SearchScope,
        is_elevated: bool,
        quick_help_was_dismissed: bool,
    ) -> (r: (Controller, Vec<Effect>))
        ensures
            r.0.wf(),
            r.0.input.raw_query@ == Seq::<char>::empty(),
            r.0.input.query@ == Seq::<char>::empty(),
            r.0.input.pending_query is None,
            r.0.input.query_edit_counter == 0,
            r.0.input.command_selected == 0,
            r.0.corpus.views() == Seq::<ItemView>::empty(),
            r.0.corpus.filename_index_dirty,
            !r.0.corpus.filename_index_building,
            r.0.shown() == Seq::<ItemView>::empty(),
            r.0.results.selected == 0,
            r.0.panel == (PanelState {
                panel_visible: start_visible,
                last_toggle_at_ms: None,
                is_elevated,
                use_dirwalk_fallback: !is_elevated,
                show_privilege_overlay: !is_elevated,
                show_quick_help_overlay: is_elevated && !quick_help_was_dismissed,
                show_about_overlay: false,
                quick_help_selected_action: 0,
                should_exit: false,
                clear_input_after_elevation: false,
                pending_window_mode_request: None,
                pending_renderer_mode_request: None,
            }),
            r.0.tracking.tracking_enabled,
            r.0.tracking.recent_event_by_path@ == Map::<Seq<char>, i64>::empty(),
            r.0.tracking.changes_added_since_index == 0,
            r.0.tracking.changes_updated_since_index == 0,
            r.0.tracking.changes_deleted_since_index == 0,
            r.0.search == (SearchState {
                search_generation: 0,
                active_search_job: None,
                active_search_query: None,
                active_search_cursor: 0,
                needs_search_refresh: false,
                next_search_refresh_at_ms: 0,
                latest_only_mode: false,
                latest_window_secs: DEFAULT_LATEST_WINDOW_SECS,
            }),
            r.0.index == (IndexState {
                scope: match arg_scope {
                    Some(s) => s,
                    None => if is_elevated {
                        persisted_scope
                    } else {
                        SearchScope::CurrentFolder
                    },
                },
                index_job_counter: 1,
                active_index_job: Some(1u64),
                job_state: JobState::Building,
                indexing_in_progress: true,
                indexing_progress: 0,
                indexing_phase: IndexPhase::Index,
                index_backend: IndexBackend::Detecting,
                index_memory_bytes: 0,
                visual_progress_test_active: false,
                indexing_is_refresh: false,
                skip_scope_persist_once: false,
            }),
            r.0.last_action@ == "Indexing files..."@,
            effect_views(r.1@) == (if !is_elevated && arg_scope is None {
                Seq::<EffectView>::empty()
            } else {
                seq![EffectView::PersistScope(r.0.index.scope)]
            }) + seq![
                EffectView::SearchCancel,
                EffectView::SearchClear,
                EffectView::StartIndexJob {
                    job_id: 1,
                    scope: r.0.index.scope,
                    allow_dirwalk_fallback: !is_elevated,
                },
            ],
    {
        let scope = startup_scope(arg_scope, is_elevated, persisted_scope);
        let mut controller = Controller {
            input: QueryState {
                raw_query: String::new(),
                query: String::new(),
                pending_query: None,
                query_edit_counter: 0,
                command_selected: 0,
            },
            results: ResultState { items: Vec::new(), selected: 0 },
            search: SearchState {
                search_generation: 0,
                active_search_job: None,
                active_search_query: None,
                active_search_cursor: 0,
                needs_search_refresh: false,
                next_search_refresh_at_ms: 0,
                latest_only_mode: false,
                latest_window_secs: DEFAULT_LATEST_WINDOW_SECS,
            },
            index: IndexState {
                scope,
                index_job_counter: 0,
                active_index_job: None,
                job_state: JobState::Idle,
                indexing_in_progress: false,
                indexing_progress: 0,
                indexing_phase: IndexPhase::Index,
                index_backend: IndexBackend::Detecting,
                index_memory_bytes: 0,
                visual_progress_test_active: false,
                indexing_is_refresh: false,
                skip_scope_persist_once: !is_elevated && arg_scope.is_none(),
            },
            tracking: TrackingState {
                tracking_enabled: true,
                recent_event_by_path: RecentEventMap::new(),
                changes_added_since_index: 0,
                changes_updated_since_index: 0,
                changes_deleted_since_index: 0,
            },
            panel: PanelState {
                panel_visible: start_visible,
                last_toggle_at_ms: None,
                is_elevated,
                use_dirwalk_fallback: !is_elevated,
                show_privilege_overlay: !is_elevated,
                show_quick_help_overlay: is_elevated && !quick_help_was_dismissed,
                show_about_overlay: false,
                quick_help_selected_action: 0,
                should_exit: false,
                clear_input_after_elevation: false,
                pending_window_mode_request: None,
                pending_renderer_mode_request: None,
            },
            corpus: Corpus::new(),
            last_action: String::from_str("Indexing files..."),
        };
        let mut effects: Vec<Effect> = Vec::new();
        assert(effect_views(effects@) =~= Seq::<EffectView>::empty());
        assert(item_views(controller.results.items@) =~= Seq::<ItemView>::empty());
        assert(controller.corpus.views() =~= Seq::<ItemView>::empty());
        assert(controller.input.raw_query@ =~= Seq::<char>::empty());
        assert(controller.input.query@ =~= Seq::<char>::empty());
        controller.begin_index(scope, &mut effects);
        assert(effect_views(effects@) =~= (if !is_elevated && arg_scope is None {
            Seq::<EffectView>::empty()
        } else {
            seq![EffectView::PersistScope(scope)]
        }) + seq![
            EffectView::SearchCancel,
            EffectView::SearchClear,
            EffectView::StartIndexJob { job_id: 1, scope, allow_dirwalk_fallback: !is_elevated },
        ]);
        (controller, effects)
    }

    /// Takes in a keystroke: the line as it now stands. The overlays close,
    /// the search under way is given up, and the line waits 70 ms for
    /// further keystrokes before it is applied.
    pub fn on_query_changed(&mut self, query: String, now_ms: u64) -> (effects: Vec<Effect>)
        requires
            old(self).wf(),
        ensures
            final(self).wf(),
            final(self).results == old(self).results,
            final(self).index == old(self).index,
            final(self).tracking == old(self).tracking,
            final(self).corpus == old(self).corpus,
            final(self).last_action == old(self).last_action,
            final(self).panel == (PanelState {
                show_privilege_overlay: false,
                show_quick_help_overlay: false,
                show_about_overlay: false,
                ..old(self).panel
            }),
            final(self).search == (SearchState {
                needs_search_refresh: false,
                ..Self::search_cancelled(old(self).search)
            }),
            final(self).input.raw_query@ == query@,
            final(self).input.query == old(self).input.query,
            final(self).input.query_edit_counter == Self::next_generation(
                old(self).input.query_edit_counter,
            ),
            final(self).input.pending_query matches Some(p) && p.text@ == query@ && p.due_at_ms
                == time_after(now_ms, QUERY_DEBOUNCE_DELAY_MS) && p.edit_id == final(self).input.query_edit_counter,
            final(self).input.command_selected == if final(self).suggestions().len() == 0 {
                0
            } else if old(self).input.command_selected < final(self).suggestions().len() {
                old(self).input.command_selected as int
            } else {
                final(self).suggestions().len() - 1
            },
            effect_views(effects@) == seq![EffectView::SearchCancel],
    {
        let mut effects: Vec<Effect> = Vec::new();
        assert(effect_views(effects@) =~= Seq::<EffectView>::empty());
        self.panel.show_privilege_overlay = false;
        self.panel.show_quick_help_overlay = false;
        self.panel.show_about_overlay = false;
        self.input.raw_query = query;
        self.input.query_edit_counter = if self.input.query_edit_counter == u64::MAX {
            0
        } else {
            self.input.query_edit_counter + 1
        };
        self.cancel_active_search(&mut effects);
        self.search.needs_search_refresh = false;
        self.input.pending_query = Some(
            PendingQuery {
                text: self.input.raw_query.clone(),
                due_at_ms: later(now_ms, QUERY_DEBOUNCE_DELAY_MS),
                edit_id: self.input.query_edit_counter,
            },
        );
        let count = self.suggestion_count();
        if count == 0 {
            self.input.command_selected = 0;
        } else if self.input.command_selected > count - 1 {
            self.input.command_selected = count - 1;
        }
        assert(effect_views(effects@) =~= seq![EffectView::SearchCancel]);
        effects
    }

    /// The state in which a line has been read and nothing been done about
    /// it yet: the line stands in the input, nothing waits any more, and no
    /// search is owed to a delta. Where the line is searched for or turns to
    /// a scope, recent items are listed further on only if the line keeps
    /// that up. The input is taken from `after`, the state at the end, which
    /// [`Controller::input_after_line`] describes.
    pub open spec fn line_read(
        before: &Controller,
        after: &Controller,
        raw: Seq<char>,
        action: DirectiveAction,
    ) -> Controller {
        Controller {
            input: after.input,
            search: SearchState {
                needs_search_refresh: false,
                latest_only_mode: if action is Search || action is ChangeScope {
                    before.search.latest_only_mode && keeps_latest(raw)
                } else {
                    before.search.latest_only_mode
                },
                ..before.search
            },
            ..*before
        }
    }

    /// What a line asks for when it is applied: its first directive where
    /// directives are carried out, and a search otherwise.
    pub open spec fn line_action(raw: Seq<char>, execute: bool) -> DirectiveAction {
        if execute {
            action_of(parsed_line(raw))
        } else {
            DirectiveAction::Search
        }
    }

    /// Whether the input line is emptied once the line has been applied: a
    /// line that begins with `/` is, when its directive has been carried
    /// out. A line that asks for more rights stays until the answer is
    /// there.
    pub open spec fn line_cleared(raw: Seq<char>, action: DirectiveAction) -> bool {
        is_command_line(raw) && !(action is Search) && !(action is Elevate)
    }

    /// Whether the action empties the query: the listing of recent items
    /// does where tracking is on, and so does indexing anew.
    pub open spec fn query_emptied(before: &Controller, action: DirectiveAction) -> bool {
        (action is LatestOnly && before.tracking.tracking_enabled) || action is Reindex
    }

    /// Whether the input is what applying the line `raw` leaves of it: no
    /// line waits; an emptied input line holds no text and has the first
    /// command of the menu selected; any other holds the line, and as its
    /// query the tokens of the line that are no directives, unless the
    /// action has emptied the query.
    pub open spec fn input_after_line(
        &self,
        before: &Controller,
        raw: Seq<char>,
        action: DirectiveAction,
    ) -> bool {
        let cleared = Self::line_cleared(raw, action);
        &&& self.input.pending_query is None
        &&& self.input.query_edit_counter == before.input.query_edit_counter
        &&& self.input.command_selected == if cleared {
            0
        } else {
            before.input.command_selected
        }
        &&& self.input.raw_query@ == if cleared {
            Seq::<char>::empty()
        } else {
            raw
        }
        &&& self.input.query@ == if cleared || Self::query_emptied(before, action) {
            Seq::<char>::empty()
        } else {
            join(parsed_line(raw).clean_tokens, seq![' '])
        }
    }

    /// Whether the state is what applying the line `raw` leads to from
    /// `before`, with `added` as what the application is asked to do. A
    /// line that is only applied as a query is searched for. A line that is
    /// carried out does what its first directive asks, and is searched for
    /// where it holds none. What each directive does is said by the relation
    /// of its own, from the state in which the line has been read.
    pub open spec fn line_applied(
        &self,
        before: &Controller,
        raw: Seq<char>,
        execute: bool,
        added: Seq<EffectView>,
    ) -> bool {
        let action = Self::line_action(raw, execute);
        let read = Self::line_read(before, self, raw, action);
        &&& self.input_after_line(before, raw, action)
        &&& match action {
            DirectiveAction::TestProgress => self.progress_test_from(&read) && added
                == Seq::<EffectView>::empty(),
            DirectiveAction::Exit => self.exit_from(&read) && added == Seq::<EffectView>::empty(),
            DirectiveAction::Elevate => self.elevation_from(&read, is_command_line(raw), added),
            DirectiveAction::LatestOnly => self.latest_only_from(
                &read,
                parsed_line(raw).latest_window_secs,
                added,
            ),
            DirectiveAction::ToggleTracking => self.tracking_toggled_from(&read) && added
                == Seq::<EffectView>::empty(),
            DirectiveAction::ToggleFullscreen => self.window_mode_from(
                &read,
                WindowModeRequest::ToggleFullscreen,
            ) && added == Seq::<EffectView>::empty(),
            DirectiveAction::ToggleFullHeight => self.window_mode_from(
                &read,
                WindowModeRequest::ToggleFullHeight,
            ) && added == Seq::<EffectView>::empty(),
            DirectiveAction::SoftRenderer => self.renderer_mode_from(
                &read,
                RendererModeRequest::Soft,
            ) && added == Seq::<EffectView>::empty(),
            DirectiveAction::Reindex => self.reindexed_from(&read, added),
            DirectiveAction::ChangeScope(scope) => self.scope_changed_from(&read, scope, added),
            DirectiveAction::Search => added.len() == 1 && self.searches_from(&read, added[0]),
        }
    }

    /// A line that switches tracking, carried out twice, brings back what
    /// was there before the first time: tracking is on or off as it was, and
    /// the recent events, the counts of changes, the listing of recent
    /// items, the corpus, the list, the scope and the index job are what
    /// they were. Neither time is the application asked for anything.
    pub proof fn lemma_double_track_line(
        before: Controller,
        between: Controller,
        after: Controller,
        raw: Seq<char>,
        first: Seq<EffectView>,
        second: Seq<EffectView>,
    )
        requires
            action_of(parsed_line(raw)) == DirectiveAction::ToggleTracking,
            between.line_applied(&before, raw, true, first),
            after.line_applied(&between, raw, true, second),
        ensures
            after.tracking == before.tracking,
            after.search.latest_only_mode == before.search.latest_only_mode,
            after.search.latest_window_secs == before.search.latest_window_secs,
            after.corpus == before.corpus,
            after.results == before.results,
            after.index == before.index,
            after.panel == before.panel,
            first == Seq::<EffectView>::empty(),
            second == Seq::<EffectView>::empty(),
    {
    }

    /// A line in which a window of no time or of less has been refused, and
    /// which asks for nothing else, changes nothing about the listing of
    /// recent items: it is on or off as before, with the window as before.
    /// Tracking, the index job and the corpus stay as they are too.
    pub proof fn lemma_refused_window_keeps_mode(
        before: Controller,
        after: Controller,
        raw: Seq<char>,
        added: Seq<EffectView>,
    )
        requires
            parsed_line(raw).latest_refused,
            action_of(parsed_line(raw)) == DirectiveAction::Search,
            after.line_applied(&before, raw, true, added),
        ensures
            after.search.latest_only_mode == before.search.latest_only_mode,
            after.search.latest_window_secs == before.search.latest_window_secs,
            after.tracking == before.tracking,
            after.index == before.index,
            after.corpus == before.corpus,
    {
    }

    /// Empties the input line where the line that was carried out began
    /// with `/`.
    fn clear_after_command(&mut self, command_invocation: bool)
        ensures
            !command_invocation ==> *final(self) == *old(self),
            command_invocation ==> {
                &&& *final(self) == (Controller {
                    input: QueryState {
                        raw_query: final(self).input.raw_query,
                        query: final(self).input.query,
                        pending_query: None,
                        command_selected: 0,
                        ..old(self).input
                    },
                    ..*old(self)
                })
                &&& final(self).input.raw_query@ == Seq::<char>::empty()
                &&& final(self).input.query@ == Seq::<char>::empty()
            },
    {
        if command_invocation {
            self.clear_command_input();
            assert(self.input.raw_query@ =~= Seq::<char>::empty());
            assert(self.input.query@ =~= Seq::<char>::empty());
        }
    }

    /// Applies a line of input as a query: the line is read, the tokens
    /// that are no directives are its query, and the query is searched for.
    /// No directive is carried out.
    pub fn apply_line_as_query(&mut self, raw_query: String) -> (effects: Vec<Effect>)
        requires
            old(self).wf(),
        ensures
            final(self).wf(),
            final(self).line_applied(old(self), raw_query@, false, effect_views(effects@)),
    {
        let mut effects: Vec<Effect> = Vec::new();
        assert(effect_views(effects@) =~= Seq::<EffectView>::empty());
        self.input.pending_query = None;
        self.search.needs_search_refresh = false;
        self.input.raw_query = raw_query;
        let raw = to_chars(self.input.raw_query.as_str());
        let cmd = trim_start_chars(&raw);
        let latest_word = to_chars("/latest");
        let last_word = to_chars("/last");
        let keeps = chars_start_with(&cmd, &latest_word) || chars_start_with(&cmd, &last_word);
        let parsed = parse_scope_directive(self.input.raw_query.as_str());
        let keeps = keeps || parsed.latest_refused;
        self.input.query = parsed.clean_query;
        if !keeps {
            self.search.latest_only_mode = false;
        }
        let ghost mid = *self;
        self.schedule_search_from_current_query(&mut effects);
        assert(Self::line_read(old(self), self, raw_query@, DirectiveAction::Search) == mid);
        assert(effect_views(effects@)[0] == effect_views(effects@).last());
        effects
    }

    /// Applies a line of input. The line is read for its directives and its
    /// query. A line that is only applied as a query is searched for. A line
    /// that is carried out does what its first directive asks, and is
    /// searched for where it holds none.
    #[verifier::spinoff_prover]
    #[verifier::rlimit(60)]
    pub fn apply_raw_query(&mut self, raw_query: String, execute_directives: bool) -> (effects: Vec<
        Effect,
    >)
        requires
            old(self).wf(),
            old(self).index.index_job_counter < u64::MAX,
        ensures
            final(self).wf(),
            final(self).line_applied(
                old(self),
                raw_query@,
                execute_directives,
                effect_views(effects@),
            ),
    {
        if !execute_directives {
            return self.apply_line_as_query(raw_query);
        }
        let mut effects: Vec<Effect> = Vec::new();
        assert(effect_views(effects@) =~= Seq::<EffectView>::empty());
        let ghost none = effects@;
        let ghost action = Self::line_action(raw_query@, execute_directives);
        self.input.pending_query = None;
        self.search.needs_search_refresh = false;
        self.input.raw_query = raw_query;
        let raw = to_chars(self.input.raw_query.as_str());
        let cmd = trim_start_chars(&raw);
        let command_invocation = cmd.len() > 0 && cmd[0] == '/';
        let latest_word = to_chars("/latest");
        let last_word = to_chars("/last");
        let keeps = chars_start_with(&cmd, &latest_word) || chars_start_with(&cmd, &last_word);
        let parsed = parse_scope_directive(self.input.raw_query.as_str());
        let keeps = keeps || parsed.latest_refused;
        self.input.query = parsed.clean_query;
        if parsed.test_progress {
            let ghost mid = *self;
            self.start_progress_test();
            self.clear_after_command(command_invocation);
            assert(Self::line_read(old(self), self, raw_query@, action) == (Controller {
                input: self.input,
                ..mid
            }));
            return effects;
        }
        if parsed.exit_app {
            let ghost mid = *self;
            self.request_exit();
            self.clear_after_command(command_invocation);
            assert(Self::line_read(old(self), self, raw_query@, action) == (Controller {
                input: self.input,
                ..mid
            }));
            return effects;
        }
        if parsed.elevate_app {
            let ghost mid = *self;
            self.request_elevation(command_invocation, &mut effects);
            assert(added_effects(none, effects@) =~= effect_views(effects@));
            assert(Self::line_read(old(self), self, raw_query@, action) == mid);
            return effects;
        }
        if parsed.latest_only {
            let ghost mid = *self;
            self.set_latest_only(parsed.latest_window_secs, &mut effects);
            assert(added_effects(none, effects@) =~= effect_views(effects@));
            let ghost done = *self;
            self.clear_after_command(command_invocation);
            assert(Self::line_read(old(self), self, raw_query@, action) == (Controller {
                input: self.input,
                ..mid
            }));
            proof {
                if mid.tracking.tracking_enabled {
                    let window = match parsed.latest_window_secs {
                        Some(w) => w,
                        None => mid.search.latest_window_secs,
                    };
                    let from_done = Controller {
                        input: done.input,
                        search: SearchState {
                            latest_only_mode: true,
                            latest_window_secs: window,
                            ..mid.search
                        },
                        last_action: done.last_action,
                        ..mid
                    };
                    let from_here = Controller { input: self.input, ..from_done };
                    assert(from_here.search_text() == from_done.search_text());
                    assert(from_here.direct_answer() == from_done.direct_answer());
                    assert(self.searches_from(&from_here, effect_views(effects@)[0]));
                }
            }
            return effects;
        }
        if parsed.toggle_tracking {
            let ghost mid = *self;
            self.toggle_tracking();
            self.clear_after_command(command_invocation);
            assert(Self::line_read(old(self), self, raw_query@, action) == (Controller {
                input: self.input,
                ..mid
            }));
            return effects;
        }
        if parsed.toggle_fullscreen {
            let ghost mid = *self;
            self.request_window_mode(WindowModeRequest::ToggleFullscreen);
            self.clear_after_command(command_invocation);
            assert(Self::line_read(old(self), self, raw_query@, action) == (Controller {
                input: self.input,
                ..mid
            }));
            return effects;
        }
        if parsed.toggle_fullheight {
            let ghost mid = *self;
            self.request_window_mode(WindowModeRequest::ToggleFullHeight);
            self.clear_after_command(command_invocation);
            assert(Self::line_read(old(self), self, raw_query@, action) == (Controller {
                input: self.input,
                ..mid
            }));
            return effects;
        }
        if parsed.switch_renderer_soft {
            let ghost mid = *self;
            self.request_renderer_mode(RendererModeRequest::Soft);
            self.clear_after_command(command_invocation);
            assert(Self::line_read(old(self), self, raw_query@, action) == (Controller {
                input: self.input,
                ..mid
            }));
            return effects;
        }
        if parsed.reindex_current_scope {
            let ghost mid = *self;
            self.reindex(&mut effects);
            assert(added_effects(none, effects@) =~= effect_views(effects@));
            self.clear_after_command(command_invocation);
            assert(Self::line_read(old(self), self, raw_query@, action) == (Controller {
                input: self.input,
                ..mid
            }));
            return effects;
        }
        if !keeps {
            self.search.latest_only_mode = false;
        }
        match parsed.scope_override {
            Some(new_scope) => {
                let ghost mid = *self;
                self.change_scope(new_scope, &mut effects);
                assert(added_effects(none, effects@) =~= effect_views(effects@));
                self.clear_after_command(command_invocation);
                assert(Self::line_read(old(self), self, raw_query@, action) == (Controller {
                    input: self.input,
                    ..mid
                }));
                return effects;
            },
            None => {},
        }
        let ghost mid = *self;
        self.schedule_search_from_current_query(&mut effects);
        assert(Self::line_read(old(self), self, raw_query@, action) == mid);
        assert(effect_views(effects@)[0] == effect_views(effects@).last());
        effects
    }

    /// The enter key. It closes the quick help while that is shown, for
    /// good where its second button is selected. A line that begins with a
    /// directive is carried out; a command chosen from the menu is put at
    /// the head of the line and carried out; any other line that begins with
    /// `/` is an unknown command. Otherwise the selected file is opened.
    pub fn activate_selected(&mut self) -> (effects: Vec<Effect>)
        requires
            old(self).wf(),
            old(self).index.index_job_counter < u64::MAX,
        ensures
            final(self).wf(),
            old(self).panel.show_quick_help_overlay ==> {
                &&& *final(self) == (Controller {
                    panel: PanelState { show_quick_help_overlay: false, ..old(self).panel },
                    ..*old(self)
                })
                &&& effect_views(effects@) == if old(self).panel.quick_help_selected_action == 0 {
                    Seq::<EffectView>::empty()
                } else {
                    seq![EffectView::PersistQuickHelpDismissed(true)]
                }
            },
            !old(self).panel.show_quick_help_overlay && crate::commands::is_exact_directive(
                first_token(old(self).input.raw_query@),
                old(self).tracking.tracking_enabled,
            ) ==> final(self).line_applied(
                old(self),
                old(self).input.raw_query@,
                true,
                effect_views(effects@),
            ),
            !old(self).panel.show_quick_help_overlay && !crate::commands::is_exact_directive(
                first_token(old(self).input.raw_query@),
                old(self).tracking.tracking_enabled,
            ) && old(self).command_mode() ==> if old(self).input.command_selected < old(self).suggestions().len() {
                final(self).line_applied(
                    old(self),
                    crate::commands::chosen_line(
                        old(self).input.raw_query@,
                        old(self).suggestions()[old(self).input.command_selected as int].0,
                    ),
                    true,
                    effect_views(effects@),
                )
            } else {
                *final(self) == *old(self) && effects@.len() == 0
            },
            !old(self).panel.show_quick_help_overlay && !crate::commands::is_exact_directive(
                first_token(old(self).input.raw_query@),
                old(self).tracking.tracking_enabled,
            ) && !old(self).command_mode() ==> {
                &&& final(self).input == old(self).input
                &&& final(self).results == old(self).results
                &&& final(self).search == old(self).search
                &&& final(self).index == old(self).index
                &&& final(self).tracking == old(self).tracking
                &&& final(self).panel == old(self).panel
                &&& final(self).corpus == old(self).corpus
                &&& if is_command_line(old(self).input.raw_query@) {
                    &&& final(self).last_action@ == "Unknown command: "@ + first_token(
                        old(self).input.raw_query@,
                    )
                    &&& effects@.len() == 0
                } else if old(self).results.selected < old(self).results.items@.len() {
                    let path = old(self).shown()[old(self).results.selected as int].path;
                    &&& final(self).last_action@ == "Open: "@ + path
                    &&& effect_views(effects@) == seq![EffectView::OpenPath(path)]
                } else {
                    &&& final(self).last_action == old(self).last_action
                    &&& effects@.len() == 0
                }
            },
    {
        let mut effects: Vec<Effect> = Vec::new();
        assert(effect_views(effects@) =~= Seq::<EffectView>::empty());
        if self.panel.show_quick_help_overlay {
            self.panel.show_quick_help_overlay = false;
            if self.panel.quick_help_selected_action != 0 {
                push_effect(&mut effects, Effect::PersistQuickHelpDismissed(true));
                assert(effect_views(effects@) =~= seq![EffectView::PersistQuickHelpDismissed(true)]);
            }
            return effects;
        }
        let suggestions = command_menu_items(
            self.input.raw_query.as_str(),
            self.tracking.tracking_enabled,
        );
        assert(crate::commands::menu_views(suggestions@).len() == suggestions.len());
        let raw = to_chars(self.input.raw_query.as_str());
        let tokens = split_whitespace(&raw);
        let token: Vec<char> = if tokens.len() > 0 {
            assert(views(tokens@)[0] == tokens[0]@);
            tokens[0].clone()
        } else {
            Vec::new()
        };
        assert(token@ =~= first_token(self.input.raw_query@));
        let token_text = string_of(&token);
        if is_exact_directive_token(token_text.as_str(), self.tracking.tracking_enabled) {
            let line = self.input.raw_query.clone();
            return self.apply_raw_query(line, true);
        }
        if suggestions.len() > 0 {
            if self.input.command_selected < suggestions.len() {
                let choice = suggestions[self.input.command_selected];
                assert(crate::commands::menu_views(suggestions@)[self.input.command_selected as int].0
                    == choice.command@);
                let line = apply_command_choice(self.input.raw_query.as_str(), choice.command);
                return self.apply_raw_query(line, true);
            }
            return effects;
        }
        let cmd = trim_start_chars(&raw);
        if cmd.len() > 0 && cmd[0] == '/' {
            self.last_action = text_with("Unknown command: ", token_text.as_str());
        } else if self.results.selected < self.results.items.len() {
            let path = self.results.items[self.results.selected].path.clone();
            self.last_action = text_with("Open: ", path.as_str());
            push_effect(&mut effects, Effect::OpenPath(path));
            assert(effect_views(effects@) =~= seq![
                EffectView::OpenPath(old(self).shown()[old(self).results.selected as int].path),
            ]);
        }
        effects
    }

    /// Enter with the alt key: shows the selected file in the file manager.
    /// Nothing happens while the quick help is shown, and where no file is
    /// selected.
    pub fn on_alt_enter(&mut self) -> (effects: Vec<Effect>)
        ensures
            final(self).input == old(self).input,
            final(self).results == old(self).results,
            final(self).search == old(self).search,
            final(self).index == old(self).index,
            final(self).tracking == old(self).tracking,
            final(self).panel == old(self).panel,
            final(self).corpus == old(self).corpus,
            if !old(self).panel.show_quick_help_overlay && old(self).results.selected < old(self).results.items@.len() {
                let path = old(self).shown()[old(self).results.selected as int].path;
                &&& final(self).last_action@ == "Reveal: "@ + path
                &&& effect_views(effects@) == seq![EffectView::RevealPath(path)]
            } else {
                &&& final(self).last_action == old(self).last_action
                &&& effects@.len() == 0
            },
    {
        let mut effects: Vec<Effect> = Vec::new();
        assert(effect_views(effects@) =~= Seq::<EffectView>::empty());
        if self.panel.show_quick_help_overlay {
            return effects;
        }
        if self.results.selected < self.results.items.len() {
            let path = self.results.items[self.results.selected].path.clone();
            self.last_action = text_with("Reveal: ", path.as_str());
            push_effect(&mut effects, Effect::RevealPath(path));
            assert(effect_views(effects@) =~= seq![
                EffectView::RevealPath(old(self).shown()[old(self).results.selected as int].path),
            ]);
        }
        effects
    }

    /// Whether the panel does not answer at the time `now_ms`, because it
    /// was shown or hidden less than 220 ms before.
    pub open spec fn toggle_too_soon(before: &Controller, now_ms: u64) -> bool {
        before.panel.last_toggle_at_ms is Some && now_ms - before.panel.last_toggle_at_ms->0
            < TOGGLE_DEBOUNCE_MS
    }

    /// Whether the state is what the wish to show or hide the panel at the
    /// time `now_ms` leads to from `before`, with `added` as what the
    /// application is asked to do. A wish that comes less than 220 ms after
    /// the panel was shown or hidden changes nothing. A panel that comes into
    /// view searches for the query as it stands and asks for the focus to go
    /// to the search field. A panel that goes out of view gives its search
    /// up and tells the worker so.
    pub open spec fn panel_toggled_from(
        &self,
        before: &Controller,
        now_ms: u64,
        added: Seq<EffectView>,
    ) -> bool {
        let turned = Controller {
            panel: PanelState {
                panel_visible: !before.panel.panel_visible,
                last_toggle_at_ms: Some(now_ms),
                ..before.panel
            },
            ..*before
        };
        if Self::toggle_too_soon(before, now_ms) {
            *self == *before && added == Seq::<EffectView>::empty()
        } else if before.panel.panel_visible {
            &&& *self == (Controller { search: Self::search_cancelled(before.search), ..turned })
            &&& added == seq![EffectView::SearchCancel]
        } else {
            &&& added.len() == 2
            &&& self.searches_from(&turned, added[0])
            &&& added[1] == EffectView::FocusSearch
        }
    }

    /// Shows the hidden panel or hides the shown one, unless it was shown
    /// or hidden less than 220 ms ago. Returns whether the panel changed.
    pub fn toggle_panel(&mut self, now_ms: u64) -> (r: (bool, Vec<Effect>))
        requires
            old(self).wf(),
        ensures
            final(self).wf(),
            r.0 == !Self::toggle_too_soon(old(self), now_ms),
            final(self).panel_toggled_from(old(self), now_ms, effect_views(r.1@)),
    {
        let mut effects: Vec<Effect> = Vec::new();
        assert(effect_views(effects@) =~= Seq::<EffectView>::empty());
        match self.panel.last_toggle_at_ms {
            Some(last) => {
                if now_ms < last || now_ms - last < TOGGLE_DEBOUNCE_MS {
                    return (false, effects);
                }
            },
            None => {},
        }
        self.panel.last_toggle_at_ms = Some(now_ms);
        self.panel.panel_visible = !self.panel.panel_visible;
        if self.panel.panel_visible {
            self.schedule_search_from_current_query(&mut effects);
            let ghost searched = effect_views(effects@);
            assert(searched.len() == 1);
            push_effect(&mut effects, Effect::FocusSearch);
            assert(effect_views(effects@).len() == 2);
            assert(effect_views(effects@)[0] == searched.last());
            assert(effect_views(effects@)[1] == EffectView::FocusSearch);
        } else {
            self.cancel_active_search(&mut effects);
            assert(effect_views(effects@) =~= seq![EffectView::SearchCancel]);
        }
        (true, effects)
    }

    /// What a tick does to the test of the progress bar: the bar grows by
    /// three hundredths, and the test is over when the bar is full.
    pub open spec fn progress_test_step(index: IndexState) -> IndexState {
        if !index.visual_progress_test_active {
            index
        } else if index.indexing_progress + 30 >= PROGRESS_FULL {
            IndexState {
                visual_progress_test_active: false,
                indexing_in_progress: false,
                indexing_progress: PROGRESS_FULL,
                ..index
            }
        } else {
            IndexState {
                indexing_in_progress: true,
                indexing_progress: (index.indexing_progress + 30) as u32,
                ..index
            }
        }
    }

    /// Whether the test of the progress bar comes to its end at this tick.
    pub open spec fn progress_test_ends(index: IndexState) -> bool {
        index.visual_progress_test_active && index.indexing_progress + 30 >= PROGRESS_FULL
    }

    /// Whether a line waits and goes on waiting at the time `now_ms`: its
    /// time has not come, or a later keystroke has taken its place.
    pub open spec fn still_waits(before: &Controller, now_ms: u64) -> bool {
        before.input.pending_query matches Some(p) && !(now_ms >= p.due_at_ms && p.edit_id
            == before.input.query_edit_counter)
    }

    /// Whether a line waits whose time has come at `now_ms`.
    pub open spec fn line_due(before: &Controller, now_ms: u64) -> bool {
        before.input.pending_query matches Some(p) && now_ms >= p.due_at_ms && p.edit_id
            == before.input.query_edit_counter
    }

    /// Whether the search that a delta asked for is made at the time
    /// `now_ms`.
    pub open spec fn refresh_due(before: &Controller, now_ms: u64) -> bool {
        before.search.needs_search_refresh && now_ms >= before.search.next_search_refresh_at_ms
    }

    /// The state from which a tick goes on once the test of the progress
    /// bar has moved: `before` with the bar and the message of `after`.
    pub open spec fn after_progress_test(before: &Controller, after: &Controller) -> Controller {
        Controller {
            index: Self::progress_test_step(before.index),
            last_action: after.last_action,
            ..*before
        }
    }

    /// Whether the state is what the first part of a tick at `now_ms` leads
    /// to from `before`, with `added` as what the application is asked to
    /// do.
    ///
    /// The test of the progress bar moves on, and says so when it is over.
    /// While the panel is hidden nothing else happens. While it is shown:
    /// a line that has waited long enough is applied as a query; while a
    /// line still waits, the search under way is given up; and where no line
    /// waits, a search that a delta asked for is made when its time has
    /// come, and the next such search waits 300 ms.
    pub open spec fn lines_ticked_from(
        &self,
        before: &Controller,
        now_ms: u64,
        added: Seq<EffectView>,
    ) -> bool {
        let start = Self::after_progress_test(before, self);
        &&& self.last_action@ == if Self::progress_test_ends(before.index) {
            "Visual progress test complete"@
        } else {
            before.last_action@
        }
        &&& !Self::progress_test_ends(before.index) ==> self.last_action == before.last_action
        &&& if !before.panel.panel_visible {
            *self == start && added == Seq::<EffectView>::empty()
        } else if Self::still_waits(before, now_ms) {
            &&& *self == (Controller { search: Self::search_cancelled(before.search), ..start })
            &&& added == seq![EffectView::SearchCancel]
        } else if before.input.pending_query is Some {
            self.line_applied(&start, before.input.pending_query->0.text@, false, added)
        } else if Self::refresh_due(before, now_ms) {
            &&& added.len() == 1
            &&& self.searches_from(
                &(Controller {
                    search: SearchState {
                        needs_search_refresh: false,
                        next_search_refresh_at_ms: time_after(now_ms, DELTA_REFRESH_COOLDOWN_MS),
                        ..before.search
                    },
                    ..start
                }),
                added[0],
            )
        } else {
            *self == start && added == Seq::<EffectView>::empty()
        }
    }

    /// The first part of a tick: the test of the progress bar, the line
    /// that waits, and the search that a delta asked for.
    pub fn tick_lines(&mut self, now_ms: u64) -> (effects: Vec<Effect>)
        requires
            old(self).wf(),
        ensures
            final(self).wf(),
            final(self).lines_ticked_from(old(self), now_ms, effect_views(effects@)),
    {
        let mut effects: Vec<Effect> = Vec::new();
        assert(effect_views(effects@) =~= Seq::<EffectView>::empty());
        if self.index.visual_progress_test_active {
            if self.index.indexing_progress >= PROGRESS_FULL - 30 {
                self.index.indexing_progress = PROGRESS_FULL;
                self.index.visual_progress_test_active = false;
                self.index.indexing_in_progress = false;
                self.last_action = String::from_str("Visual progress test complete");
            } else {
                self.index.indexing_in_progress = true;
                self.index.indexing_progress = self.index.indexing_progress + 30;
            }
        }
        let ghost start = *self;
        if !self.panel.panel_visible {
            return effects;
        }
        let mut pending: Option<PendingQuery> = None;
        core::mem::swap(&mut self.input.pending_query, &mut pending);
        match pending {
            Some(p) => {
                if now_ms >= p.due_at_ms && p.edit_id == self.input.query_edit_counter {
                    let ghost took = *self;
                    effects = self.apply_line_as_query(p.text);
                    assert(Self::line_read(&took, self, p.text@, DirectiveAction::Search)
                        == Self::line_read(&start, self, p.text@, DirectiveAction::Search));
                    assert(self.line_applied(&start, p.text@, false, effect_views(effects@)));
                    return effects;
                } else {
                    self.input.pending_query = Some(p);
                    assert(self.input == old(self).input);
                    self.cancel_active_search(&mut effects);
                    assert(effect_views(effects@) =~= seq![EffectView::SearchCancel]);
                    return effects;
                }
            },
            None => {},
        }
        assert(self.input == old(self).input);
        if self.search.needs_search_refresh && now_ms >= self.search.next_search_refresh_at_ms {
            self.search.needs_search_refresh = false;
            self.search.next_search_refresh_at_ms = later(now_ms, DELTA_REFRESH_COOLDOWN_MS);
            self.schedule_search_from_current_query(&mut effects);
            assert(effect_views(effects@)[0] == effect_views(effects@).last());
        }
        effects
    }

    /// Whether the state is what the last part of a tick leads to from
    /// `before`: while the panel is shown and no line waits, the filename
    /// index is built one step further; otherwise nothing happens.
    pub open spec fn index_ticked_from(&self, before: &Controller) -> bool {
        if before.panel.panel_visible && before.input.pending_query is None {
            &&& *self == (Controller { corpus: self.corpus, ..*before })
            &&& self.corpus.build_stepped(&before.corpus, crate::corpus::FILENAME_INDEX_BUILD_BATCH)
        } else {
            *self == *before
        }
    }

    /// The last part of a tick: one step of the build of the filename
    /// index.
    pub fn tick_index(&mut self)
        requires
            old(self).wf(),
        ensures
            final(self).wf(),
            final(self).index_ticked_from(old(self)),
    {
        if self.panel.panel_visible && self.input.pending_query.is_none() {
            self.process_filename_index_build_step();
        }
    }

    /// Whether the state is what one tick of the clock at `now_ms` leads to
    /// from `before`, with `added` as what the application is asked to do:
    /// the first part of the tick, and then its last.
    pub open spec fn ticked_from(
        &self,
        before: &Controller,
        now_ms: u64,
        added: Seq<EffectView>,
    ) -> bool {
        exists|mid: Controller| #[trigger]
            mid.lines_ticked_from(before, now_ms, added) && self.index_ticked_from(&mid)
    }

    /// One tick of the clock for a controller that no events wait for.
    pub fn tick(&mut self, now_ms: u64) -> (effects: Vec<Effect>)
        requires
            old(self).wf(),
        ensures
            final(self).wf(),
            final(self).ticked_from(old(self), now_ms, effect_views(effects@)),
    {
        let effects = self.tick_lines(now_ms);
        let ghost mid = *self;
        self.tick_index();
        assert(mid.lines_ticked_from(old(self), now_ms, effect_views(effects@)));
        effects
    }
}

} // verus!
