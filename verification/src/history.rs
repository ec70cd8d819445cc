//! Histories of the achievement stack.
//!
//! A history is a sequence of events: requests that arrive, triggers that
//! fire and frames that are drawn. This module states, over all histories,
//! in which order achievements are shown, how the count of shown
//! achievements moves, that what was earned once is not earned again, and
//! that at most one card is ever on its way into the stack.

use crate::achievements::{
    card_age, cards_after_frame, lemma_surviving_cards, lowest_stack_position, promoted_card,
    promotes, queue_after_frame, stack_position, stack_wf, Achievement, QueueView,
    CARD_LIFETIME_MS, META_ACHIEVEMENT_TEXT, SLIDE_DURATION_MS, STACK_SLOT,
};
use crate::triggers::{
    after_clock_check, after_scroll, after_toggle, toggle_achievement, DIMMER_TEXT,
    TIME_FLIES_TEXT,
};
use vstd::prelude::*;

verus! {

/// Something that happens to the achievement stack.
pub ghost enum StackEvent {
    /// A request for an achievement with this text arrives.
    Enqueue { text: Seq<char> },
    /// The light is switched for the `score`-th time.
    Toggle { score: int },
    /// The dimmer is turned.
    Scroll,
    /// The wall clock is read: it showed `start_minute` when the game
    /// started and shows `minute` now.
    ClockCheck { start_minute: u32, minute: u32 },
    /// A frame is drawn at this clock reading.
    Frame { now: u64 },
}

/// The queue and the cards on screen.
pub ghost struct StackState {
    pub queue: QueueView,
    pub cards: Seq<Achievement>,
}

impl StackState {
    /// The state of a fresh game.
    pub open spec fn initial() -> StackState {
        StackState { queue: QueueView::empty(), cards: Seq::empty() }
    }

    /// Validity of a state: see [`stack_wf`].
    pub open spec fn wf(self) -> bool {
        stack_wf(self.cards, self.queue.promoted_count)
    }

    /// Whether a frame at clock reading `now` shows a new achievement.
    pub open spec fn promotes(self, now: u64) -> bool {
        promotes(self.queue, self.cards, now)
    }

    /// The state after one event.
    pub open spec fn step(self, event: StackEvent) -> StackState {
        match event {
            StackEvent::Enqueue { text } => StackState { queue: self.queue.enqueue(text), ..self },
            StackEvent::Toggle { score } => StackState {
                queue: after_toggle(self.queue, score),
                ..self
            },
            StackEvent::Scroll => StackState { queue: after_scroll(self.queue), ..self },
            StackEvent::ClockCheck { start_minute, minute } => StackState {
                queue: after_clock_check(self.queue, start_minute, minute),
                ..self
            },
            StackEvent::Frame { now } => StackState {
                queue: queue_after_frame(self.queue, self.cards, now),
                cards: cards_after_frame(self.queue, self.cards, now),
            },
        }
    }

    /// The state after a sequence of events.
    pub open spec fn run(self, events: Seq<StackEvent>) -> StackState
        decreases events.len(),
    {
        if events.len() == 0 {
            self
        } else {
            self.run(events.drop_last()).step(events.last())
        }
    }
}

/// The text that `event` requests when it happens in `state`, if it
/// requests one. The request that the first achievement ever leaves behind
/// is not counted here.
pub open spec fn request_of(state: StackState, event: StackEvent) -> Option<Seq<char>> {
    match event {
        StackEvent::Enqueue { text } => Some(text),
        StackEvent::Toggle { score } => toggle_achievement(score),
        StackEvent::Scroll => if state.queue.dimmer_used {
            None
        } else {
            Some(DIMMER_TEXT@)
        },
        StackEvent::ClockCheck { start_minute, minute } => if state.queue.time_flies_shown
            || minute == start_minute {
            None
        } else {
            Some(TIME_FLIES_TEXT@)
        },
        StackEvent::Frame { .. } => None,
    }
}

/// The texts that the events request, starting from `start`, in the order
/// of the events.
pub open spec fn requested_texts(start: StackState, events: Seq<StackEvent>) -> Seq<Seq<char>>
    decreases events.len(),
{
    if events.len() == 0 {
        Seq::empty()
    } else {
        let earlier = requested_texts(start, events.drop_last());
        match request_of(start.run(events.drop_last()), events.last()) {
            Some(text) => earlier.push(text),
            None => earlier,
        }
    }
}

/// The number of frames among the events.
pub open spec fn frame_count(events: Seq<StackEvent>) -> nat
    decreases events.len(),
{
    if events.len() == 0 {
        0
    } else {
        let earlier = frame_count(events.drop_last());
        match events.last() {
            StackEvent::Frame { .. } => earlier + 1,
            _ => earlier,
        }
    }
}

/// The texts of the achievements that the frames among the events show,
/// starting from `start`, in the order in which they are shown.
pub open spec fn promoted_texts(start: StackState, events: Seq<StackEvent>) -> Seq<Seq<char>>
    decreases events.len(),
{
    if events.len() == 0 {
        Seq::empty()
    } else {
        let earlier = promoted_texts(start, events.drop_last());
        let before = start.run(events.drop_last());
        match events.last() {
            StackEvent::Frame { now } => if before.promotes(now) {
                earlier.push(before.queue.pending[0])
            } else {
                earlier
            },
            _ => earlier,
        }
    }
}

/// Where the request for the achievement of the first achievement enters
/// the queue during the events: the number of texts that the events
/// requested before the frame that showed the first achievement ever.
/// `None` when no such frame is among the events.
pub open spec fn meta_request_position(start: StackState, events: Seq<StackEvent>) -> Option<int>
    decreases events.len(),
{
    if events.len() == 0 {
        None
    } else {
        let earlier = events.drop_last();
        let before = start.run(earlier);
        match (meta_request_position(start, earlier), events.last()) {
            (Some(position), _) => Some(position),
            (None, StackEvent::Frame { now }) => if !before.queue.meta_achievement_shown
                && before.promotes(now) {
                Some(requested_texts(start, earlier).len() as int)
            } else {
                None
            },
            (None, _) => None,
        }
    }
}

/// The requested texts with the request for the achievement of the first
/// achievement put in at `position`, if there is one.
pub open spec fn with_meta_request(requested: Seq<Seq<char>>, position: Option<int>) -> Seq<
    Seq<char>,
> {
    match position {
        Some(position) => requested.insert(position, META_ACHIEVEMENT_TEXT@),
        None => requested,
    }
}

/// An event other than a frame appends the text that it requests, if any,
/// and touches neither the count of shown achievements, nor the memory of
/// the first achievement, nor the cards.
pub proof fn lemma_request_appends(state: StackState, event: StackEvent)
    requires
        !(event is Frame),
    ensures
        state.step(event).queue.pending == match request_of(state, event) {
            Some(text) => state.queue.pending.push(text),
            None => state.queue.pending,
        },
        state.step(event).queue.promoted_count == state.queue.promoted_count,
        state.step(event).queue.meta_achievement_shown == state.queue.meta_achievement_shown,
        state.step(event).cards == state.cards,
{
}

/// Achievements are shown first in, first out.
///
/// Over any sequence of events, from any state: the texts shown, followed
/// by the texts that still wait, are the texts that waited at the start
/// followed by the requested texts in the order of the requests. The one
/// exception is the request that the first achievement ever leaves behind:
/// it stands where the queue ended when that first achievement was shown.
/// It is made at most once, and never when the first achievement was shown
/// before the start.
pub proof fn lemma_promotion_is_fifo(start: StackState, events: Seq<StackEvent>)
    ensures
        promoted_texts(start, events) + start.run(events).queue.pending == start.queue.pending
            + with_meta_request(
            requested_texts(start, events),
            meta_request_position(start, events),
        ),
        meta_request_position(start, events) matches Some(position) ==> 0 <= position
            <= requested_texts(start, events).len(),
        start.queue.meta_achievement_shown ==> meta_request_position(start, events) is None,
        start.run(events).queue.meta_achievement_shown <==> start.queue.meta_achievement_shown
            || meta_request_position(start, events) is Some,
    decreases events.len(),
{
    if events.len() == 0 {
        assert(promoted_texts(start, events) + start.queue.pending =~= start.queue.pending
            + Seq::<Seq<char>>::empty());
    } else {
        let earlier = events.drop_last();
        lemma_promotion_is_fifo(start, earlier);
        let before = start.run(earlier);
        let after = start.run(events);
        let shown_before = promoted_texts(start, earlier);
        let requested_before = requested_texts(start, earlier);
        let position_before = meta_request_position(start, earlier);
        let appended_before = with_meta_request(requested_before, position_before);
        let appended = with_meta_request(
            requested_texts(start, events),
            meta_request_position(start, events),
        );
        let total_before = shown_before + before.queue.pending;
        assert(total_before == start.queue.pending + appended_before);
        match events.last() {
            StackEvent::Frame { now } => {
                if before.promotes(now) {
                    if before.queue.meta_achievement_shown {
                        assert(appended == appended_before);
                        assert(promoted_texts(start, events) + after.queue.pending
                            =~= total_before);
                    } else {
                        assert(position_before is None);
                        assert(appended =~= appended_before.push(META_ACHIEVEMENT_TEXT@));
                        assert(promoted_texts(start, events) + after.queue.pending
                            =~= total_before.push(META_ACHIEVEMENT_TEXT@));
                        assert(start.queue.pending + appended =~= (start.queue.pending
                            + appended_before).push(META_ACHIEVEMENT_TEXT@));
                    }
                } else {
                    assert(appended == appended_before);
                }
            },
            _ => {
                lemma_request_appends(before, events.last());
                match request_of(before, events.last()) {
                    Some(text) => {
                        assert(appended =~= appended_before.push(text));
                        assert(promoted_texts(start, events) + after.queue.pending
                            =~= total_before.push(text));
                        assert(start.queue.pending + appended =~= (start.queue.pending
                            + appended_before).push(text));
                    },
                    None => {
                        assert(appended == appended_before);
                    },
                }
            },
        }
    }
}

/// What the queue remembers, it does not forget.
///
/// Over any sequence of events, a flag that is set stays set: the dimmer
/// stays used, the wall-clock achievement stays earned, and the first
/// achievement stays shown. So the trigger of an achievement that was earned
/// once requests nothing at any later time.
pub proof fn lemma_flags_stay_set(start: StackState, events: Seq<StackEvent>)
    ensures
        start.queue.dimmer_used ==> start.run(events).queue.dimmer_used,
        start.queue.time_flies_shown ==> start.run(events).queue.time_flies_shown,
        start.queue.meta_achievement_shown ==> start.run(events).queue.meta_achievement_shown,
        start.queue.dimmer_used ==> request_of(start.run(events), StackEvent::Scroll) is None,
        start.queue.time_flies_shown ==> forall|start_minute: u32, minute: u32|
            (#[trigger] request_of(
                start.run(events),
                StackEvent::ClockCheck { start_minute, minute },
            )) is None,
    decreases events.len(),
{
    if events.len() > 0 {
        lemma_flags_stay_set(start, events.drop_last());
    }
}

/// The count of shown achievements never goes down, and a frame raises it
/// by at most one.
///
/// Over any sequence of events, from any state, the count grows by the
/// number of achievements shown, which is at most the number of frames;
/// requests and triggers alone leave it as it is.
pub proof fn lemma_promoted_count_grows_by_frames(start: StackState, events: Seq<StackEvent>)
    ensures
        start.run(events).queue.promoted_count == start.queue.promoted_count + promoted_texts(
            start,
            events,
        ).len(),
        promoted_texts(start, events).len() <= frame_count(events),
        start.queue.promoted_count <= start.run(events).queue.promoted_count
            <= start.queue.promoted_count + frame_count(events),
    decreases events.len(),
{
    if events.len() > 0 {
        lemma_promoted_count_grows_by_frames(start, events.drop_last());
        if !(events.last() is Frame) {
            lemma_request_appends(start.run(events.drop_last()), events.last());
        }
    }
}

/// A frame keeps a valid state valid, and leaves no card on screen that is
/// older than its lifetime at the frame's clock reading.
///
/// Validity is kept as long as the count of shown achievements can still
/// be held in a machine word.
pub proof fn lemma_frame_keeps_cards_valid(state: StackState, now: u64)
    ensures
        state.wf() && state.queue.promoted_count < usize::MAX ==> state.step(
            StackEvent::Frame { now },
        ).wf(),
        forall|i: int|
            0 <= i < state.step(StackEvent::Frame { now }).cards.len() ==> card_age(
                #[trigger] state.step(StackEvent::Frame { now }).cards[i],
                now,
            ) <= CARD_LIFETIME_MS,
{
    lemma_surviving_cards(state.cards, state.queue.promoted_count, now);
}

/// The state of a fresh game is valid.
pub proof fn lemma_initial_state_is_valid()
    ensures
        StackState::initial().wf(),
{
}

/// Every state that a valid state can reach is valid, as long as the count
/// of shown achievements can still be held in a machine word.
pub proof fn lemma_run_keeps_cards_valid(start: StackState, events: Seq<StackEvent>)
    requires
        start.wf(),
        start.queue.promoted_count + frame_count(events) <= usize::MAX,
    ensures
        start.run(events).wf(),
    decreases events.len(),
{
    if events.len() > 0 {
        let earlier = events.drop_last();
        lemma_run_keeps_cards_valid(start, earlier);
        lemma_promoted_count_grows_by_frames(start, earlier);
        match events.last() {
            StackEvent::Frame { now } => {
                lemma_frame_keeps_cards_valid(start.run(earlier), now);
            },
            _ => {
                lemma_request_appends(start.run(earlier), events.last());
            },
        }
    }
}

/// A request does not wait once the cards on screen have come to rest.
///
/// When a request is waiting and every card on screen is at least as old as
/// a slide takes, the next frame shows the oldest request.
pub proof fn lemma_rested_stack_promotes(state: StackState, now: u64)
    requires
        state.queue.pending.len() > 0,
        forall|i: int|
            0 <= i < state.cards.len() ==> card_age(#[trigger] state.cards[i], now)
                >= SLIDE_DURATION_MS,
    ensures
        state.promotes(now),
        state.step(StackEvent::Frame { now }).queue.promoted_count == state.queue.promoted_count
            + 1,
        state.step(StackEvent::Frame { now }).cards.last() == promoted_card(state.queue, now),
{
    let newest = state.cards.filter(
        |card: Achievement| card.index == state.queue.promoted_count,
    );
    if newest.len() > 0 {
        assert(newest.contains(newest.last()));
        state.cards.lemma_filter_contains_rev(
            |card: Achievement| card.index == state.queue.promoted_count,
            newest.last(),
        );
        let i = choose|i: int| 0 <= i < state.cards.len() && state.cards[i] == newest.last();
        assert(card_age(state.cards[i], now) >= SLIDE_DURATION_MS);
    }
}

/// At most one card is below the bottom slot, and it is the newest.
///
/// In a valid state, at any clock reading: the stack is never offset by more
/// than one slot, a card below the bottom slot has the number of the newest
/// card, and no two cards on screen have that number.
pub proof fn lemma_only_newest_card_slides(cards: Seq<Achievement>, promoted_count: nat, now: u64)
    requires
        stack_wf(cards, promoted_count),
    ensures
        -STACK_SLOT <= lowest_stack_position(cards, promoted_count, now) <= 0,
        forall|i: int|
            0 <= i < cards.len() && stack_position(
                lowest_stack_position(cards, promoted_count, now),
                promoted_count,
                (#[trigger] cards[i]).index,
            ) < 0 ==> cards[i].index == promoted_count,
        forall|i: int, j: int|
            0 <= i < cards.len() && 0 <= j < cards.len() && stack_position(
                lowest_stack_position(cards, promoted_count, now),
                promoted_count,
                (#[trigger] cards[i]).index,
            ) < 0 && stack_position(
                lowest_stack_position(cards, promoted_count, now),
                promoted_count,
                (#[trigger] cards[j]).index,
            ) < 0 ==> i == j,
{
    let lowest = lowest_stack_position(cards, promoted_count, now);
    assert forall|i: int|
        0 <= i < cards.len() && stack_position(
            lowest,
            promoted_count,
            (#[trigger] cards[i]).index,
        ) < 0 implies cards[i].index == promoted_count by {
        assert(cards[i].index <= promoted_count);
    }
    assert forall|i: int, j: int|
        0 <= i < cards.len() && 0 <= j < cards.len() && stack_position(
            lowest,
            promoted_count,
            (#[trigger] cards[i]).index,
        ) < 0 && stack_position(lowest, promoted_count, (#[trigger] cards[j]).index)
            < 0 implies i == j by {
        assert(cards[i].index == promoted_count);
        assert(cards[j].index == promoted_count);
        if i < j {
            assert(cards[i].index < cards[j].index);
        }
        if j < i {
            assert(cards[j].index < cards[i].index);
        }
    }
}

} // verus!
