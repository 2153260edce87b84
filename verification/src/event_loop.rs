//! One turn of the controller's loop: the tick of the clock, the events
//! that wait, the build of the filename index, and the wish to show or hide
//! the panel, in this order.

use vstd::prelude::*;
use crate::controller::{
    effect_views, Controller, EffectView, PanelState, MAX_INDEX_EVENTS_PER_TICK,
    MAX_SEARCH_EVENTS_PER_TICK,
};
use crate::events::{Effect, IndexEvent, RendererModeRequest, WindowModeRequest};
use crate::search_worker::SearchEvent;

verus! {

/// What one turn of the loop hands to the application: what it is asked to
/// do, whether the panel came into view or went out of it, whether the
/// application is to end, and the changes of the window's mode and of the
/// renderer that were asked for before the turn.
pub struct TickOutcome {
    pub effects: Vec<Effect>,
    pub visibility_changed: bool,
    pub should_quit: bool,
    pub window_mode_request: Option<WindowModeRequest>,
    pub renderer_mode_request: Option<RendererModeRequest>,
}

/// How many of `count` waiting events one turn takes in, where it takes in
/// at most `cap`.
pub open spec fn taken_of(count: nat, cap: usize) -> int {
    if count < cap {
        count as int
    } else {
        cap as int
    }
}

/// The effects of two lists, one behind the other.
pub proof fn lemma_effect_views_of_both(first: Seq<Effect>, second: Seq<Effect>)
    ensures
        effect_views(first + second) == effect_views(first) + effect_views(second),
{
    assert(effect_views(first + second) =~= effect_views(first) + effect_views(second));
}

impl Controller {
    /// Whether the state `states[i + 1]` is what the event `events[i]` of
    /// the search worker leads to from `states[i]`.
    pub open spec fn search_step(states: Seq<Controller>, events: Seq<SearchEvent>, i: int) -> bool {
        states[i + 1].search_event_applied(&states[i], events[i])
    }

    /// Whether `states` are the states that the events of the search worker
    /// lead through, taken in one after the other.
    pub open spec fn search_chain(states: Seq<Controller>, events: Seq<SearchEvent>) -> bool {
        &&& states.len() == events.len() + 1
        &&& forall|i: int| 0 <= i < events.len() ==> #[trigger] Self::search_step(states, events, i)
    }

    /// Whether the state is what the events of the search worker lead to
    /// from `before`, taken in one after the other.
    pub open spec fn search_events_applied(
        &self,
        before: &Controller,
        events: Seq<SearchEvent>,
    ) -> bool {
        exists|states: Seq<Controller>| #[trigger]
            Self::search_chain(states, events) && states[0] == *before && states.last() == *self
    }

    /// Whether the state `states[i + 1]` is what the event `events[i]` of
    /// the index job leads to from `states[i]`, with `asked[i]` as what the
    /// application is asked to do.
    pub open spec fn index_step(
        states: Seq<Controller>,
        events: Seq<IndexEvent>,
        now_unix: i64,
        asked: Seq<Seq<EffectView>>,
        i: int,
    ) -> bool {
        states[i + 1].index_event_applied(&states[i], events[i], now_unix, asked[i])
    }

    /// Whether `states` are the states that the events of the index job
    /// lead through, taken in one after the other, with `asked` as what the
    /// application is asked to do on account of each.
    pub open spec fn index_chain(
        states: Seq<Controller>,
        events: Seq<IndexEvent>,
        now_unix: i64,
        asked: Seq<Seq<EffectView>>,
    ) -> bool {
        &&& states.len() == events.len() + 1
        &&& asked.len() == events.len()
        &&& forall|i: int|
            0 <= i < events.len() ==> #[trigger] Self::index_step(states, events, now_unix, asked, i)
    }

    /// Whether the state is what the events of the index job lead to from
    /// `before`, taken in one after the other, with `added` as what the
    /// application is asked to do on their account, in their order.
    pub open spec fn index_events_applied(
        &self,
        before: &Controller,
        events: Seq<IndexEvent>,
        now_unix: i64,
        added: Seq<EffectView>,
    ) -> bool {
        exists|states: Seq<Controller>, asked: Seq<Seq<EffectView>>| #[trigger]
            Self::index_chain(states, events, now_unix, asked) && states[0] == *before
                && states.last() == *self && added == asked.flatten()
    }

    /// Takes in the events of the search worker that wait, the oldest
    /// first and at most 24 of them. The others go on waiting.
    pub fn drain_search_events(&mut self, queue: &mut Vec<SearchEvent>)
        requires
            old(self).wf(),
        ensures
            final(self).wf(),
            final(queue)@ == old(queue)@.skip(
                taken_of(old(queue)@.len(), MAX_SEARCH_EVENTS_PER_TICK),
            ),
            final(self).search_events_applied(
                old(self),
                old(queue)@.take(taken_of(old(queue)@.len(), MAX_SEARCH_EVENTS_PER_TICK)),
            ),
    {
        let ghost all = queue@;
        let ghost mut states: Seq<Controller> = seq![*self];
        let mut done: usize = 0;
        assert(all.skip(0) =~= all);
        while done < MAX_SEARCH_EVENTS_PER_TICK && queue.len() > 0
            invariant
                self.wf(),
                done <= MAX_SEARCH_EVENTS_PER_TICK,
                done <= all.len(),
                queue@ == all.skip(done as int),
                Self::search_chain(states, all.take(done as int)),
                states[0] == *old(self),
                states.last() == *self,
            decreases MAX_SEARCH_EVENTS_PER_TICK - done,
        {
            let event = queue.remove(0);
            let ghost taken = event;
            let ghost before = states;
            self.handle_search_event(event);
            done += 1;
            proof {
                states = states.push(*self);
                let events = all.take(done as int);
                assert(queue@ =~= all.skip(done as int));
                assert(events[done - 1] == taken);
                assert forall|i: int| 0 <= i < events.len() implies #[trigger] Self::search_step(
                    states,
                    events,
                    i,
                ) by {
                    if i < done - 1 {
                        assert(Self::search_step(before, all.take(done - 1), i));
                    }
                }
            }
        }
    }

    /// Takes in the events of the index job that wait, the oldest first
    /// and at most 2 of them. The others go on waiting.
    pub fn drain_index_events(&mut self, queue: &mut Vec<IndexEvent>, now_unix: i64) -> (effects:
        Vec<Effect>)
        requires
            old(self).wf(),
        ensures
            final(self).wf(),
            final(queue)@ == old(queue)@.skip(taken_of(old(queue)@.len(), MAX_INDEX_EVENTS_PER_TICK)),
            final(self).index_events_applied(
                old(self),
                old(queue)@.take(taken_of(old(queue)@.len(), MAX_INDEX_EVENTS_PER_TICK)),
                now_unix,
                effect_views(effects@),
            ),
    {
        let ghost all = queue@;
        let ghost mut states: Seq<Controller> = seq![*self];
        let ghost mut asked: Seq<Seq<EffectView>> = Seq::empty();
        let mut effects: Vec<Effect> = Vec::new();
        let mut done: usize = 0;
        assert(all.skip(0) =~= all);
        assert(effect_views(effects@) =~= asked.flatten());
        while done < MAX_INDEX_EVENTS_PER_TICK && queue.len() > 0
            invariant
                self.wf(),
                done <= MAX_INDEX_EVENTS_PER_TICK,
                done <= all.len(),
                queue@ == all.skip(done as int),
                Self::index_chain(states, all.take(done as int), now_unix, asked),
                states[0] == *old(self),
                states.last() == *self,
                effect_views(effects@) == asked.flatten(),
            decreases MAX_INDEX_EVENTS_PER_TICK - done,
        {
            let event = queue.remove(0);
            let ghost taken = event;
            let ghost before = states;
            let ghost asked_before = asked;
            let ghost first = effects@;
            let mut more = self.handle_index_event(event, now_unix);
            let ghost rest = more@;
            effects.append(&mut more);
            done += 1;
            proof {
                states = states.push(*self);
                asked = asked.push(effect_views(rest));
                let events = all.take(done as int);
                assert(queue@ =~= all.skip(done as int));
                assert(events[done - 1] == taken);
                lemma_effect_views_of_both(first, rest);
                asked_before.lemma_flatten_push(effect_views(rest));
                assert forall|i: int| 0 <= i < events.len() implies #[trigger] Self::index_step(
                    states,
                    events,
                    now_unix,
                    asked,
                    i,
                ) by {
                    if i < done - 1 {
                        assert(Self::index_step(
                            before,
                            all.take(done - 1),
                            now_unix,
                            asked_before,
                            i,
                        ));
                    }
                }
            }
        }
        effects
    }

    /// Whether the state is `before` without the changes of the window's
    /// mode and of the renderer that were asked for.
    pub open spec fn requests_taken_from(&self, before: &Controller) -> bool {
        *self == (Controller {
            panel: PanelState {
                pending_window_mode_request: None,
                pending_renderer_mode_request: None,
                ..before.panel
            },
            ..*before
        })
    }

    /// Whether the states follow on each other as the parts of one turn of
    /// the loop do. What was asked for before the turn is taken out; the
    /// first part of the tick is made; the events of the search worker are
    /// taken in, then those of the index job; the filename index is built
    /// one step further; and the panel is shown or hidden where that is
    /// wished.
    pub open spec fn turn_made(
        start: &Controller,
        taken: &Controller,
        ticked: &Controller,
        searched: &Controller,
        indexed: &Controller,
        built: &Controller,
        end: &Controller,
        now_ms: u64,
        now_unix: i64,
        search_events: Seq<SearchEvent>,
        index_events: Seq<IndexEvent>,
        toggled: bool,
        first: Seq<EffectView>,
        second: Seq<EffectView>,
        third: Seq<EffectView>,
    ) -> bool {
        &&& taken.requests_taken_from(start)
        &&& ticked.lines_ticked_from(taken, now_ms, first)
        &&& searched.search_events_applied(ticked, search_events)
        &&& indexed.index_events_applied(searched, index_events, now_unix, second)
        &&& built.index_ticked_from(indexed)
        &&& if toggled {
            end.panel_toggled_from(built, now_ms, third)
        } else {
            *end == *built && third == Seq::<EffectView>::empty()
        }
    }

    /// Whether the state is what one turn of the loop leads to from
    /// `before`, with `added` as what the application is asked to do and
    /// `visibility_changed` as whether the panel came into view or went out
    /// of it.
    pub open spec fn turn_made_from(
        &self,
        before: &Controller,
        now_ms: u64,
        now_unix: i64,
        search_events: Seq<SearchEvent>,
        index_events: Seq<IndexEvent>,
        toggled: bool,
        added: Seq<EffectView>,
        visibility_changed: bool,
    ) -> bool {
        exists|
            taken: Controller,
            ticked: Controller,
            searched: Controller,
            indexed: Controller,
            built: Controller,
            first: Seq<EffectView>,
            second: Seq<EffectView>,
            third: Seq<EffectView>,
        | #[trigger]
            Self::turn_made(
                before,
                &taken,
                &ticked,
                &searched,
                &indexed,
                &built,
                self,
                now_ms,
                now_unix,
                search_events,
                index_events,
                toggled,
                first,
                second,
                third,
            ) && added == first + second + third && visibility_changed == (toggled
                && !Self::toggle_too_soon(&built, now_ms))
    }

    /// One turn of the loop. `search_events` and `index_events` hold the
    /// events that wait, the oldest first; those that the turn takes in
    /// leave the lists. `toggled` says whether the user wishes the panel to
    /// be shown or hidden.
    pub fn process_tick(
        &mut self,
        now_ms: u64,
        now_unix: i64,
        search_events: &mut Vec<SearchEvent>,
        index_events: &mut Vec<IndexEvent>,
        toggled: bool,
    ) -> (out: TickOutcome)
        requires
            old(self).wf(),
        ensures
            final(self).wf(),
            out.window_mode_request == old(self).panel.pending_window_mode_request,
            out.renderer_mode_request == old(self).panel.pending_renderer_mode_request,
            out.should_quit == final(self).panel.should_exit,
            final(search_events)@ == old(search_events)@.skip(
                taken_of(old(search_events)@.len(), MAX_SEARCH_EVENTS_PER_TICK),
            ),
            final(index_events)@ == old(index_events)@.skip(
                taken_of(old(index_events)@.len(), MAX_INDEX_EVENTS_PER_TICK),
            ),
            final(self).turn_made_from(
                old(self),
                now_ms,
                now_unix,
                old(search_events)@.take(
                    taken_of(old(search_events)@.len(), MAX_SEARCH_EVENTS_PER_TICK),
                ),
                old(index_events)@.take(
                    taken_of(old(index_events)@.len(), MAX_INDEX_EVENTS_PER_TICK),
                ),
                toggled,
                effect_views(out.effects@),
                out.visibility_changed,
            ),
    {
        let window_mode_request = self.take_window_mode_request();
        let renderer_mode_request = self.take_renderer_mode_request();
        let ghost taken = *self;
        let mut effects = self.tick_lines(now_ms);
        let ghost ticked = *self;
        let ghost first = effect_views(effects@);
        self.drain_search_events(search_events);
        let ghost searched = *self;
        let ghost held = effects@;
        let mut from_index = self.drain_index_events(index_events, now_unix);
        let ghost indexed = *self;
        let ghost second = effect_views(from_index@);
        proof {
            lemma_effect_views_of_both(held, from_index@);
        }
        effects.append(&mut from_index);
        self.tick_index();
        let ghost built = *self;
        let ghost third;
        let mut visibility_changed = false;
        if toggled {
            let ghost held = effects@;
            let (changed, mut from_toggle) = self.toggle_panel(now_ms);
            proof {
                third = effect_views(from_toggle@);
                lemma_effect_views_of_both(held, from_toggle@);
            }
            visibility_changed = changed;
            effects.append(&mut from_toggle);
        } else {
            proof {
                third = Seq::<EffectView>::empty();
                assert(first + second + third =~= first + second);
            }
        }
        assert(Self::turn_made(
            old(self),
            &taken,
            &ticked,
            &searched,
            &indexed,
            &built,
            self,
            now_ms,
            now_unix,
            old(search_events)@.take(
                taken_of(old(search_events)@.len(), MAX_SEARCH_EVENTS_PER_TICK),
            ),
            old(index_events)@.take(taken_of(old(index_events)@.len(), MAX_INDEX_EVENTS_PER_TICK)),
            toggled,
            first,
            second,
            third,
        ));
        TickOutcome {
            effects,
            visibility_changed,
            should_quit: self.panel.should_exit,
            window_mode_request,
            renderer_mode_request,
        }
    }
}

} // verus!
