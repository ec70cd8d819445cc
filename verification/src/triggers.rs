//! The events of the game that earn achievements.
//!
//! Each trigger looks at what happened in the game and appends a request to
//! the [`AchievementQueue`] when an achievement was earned. The achievements
//! for the dimmer and for the wall clock are earned once; the queue
//! remembers them.

use crate::achievements::{AchievementQueue, QueueView};
use vstd::prelude::*;

verus! {

/// Text of the achievement for switching the light for the first time.
pub const LIGHTS_ON_TEXT: &'static str = "Lights on";

/// Text of the achievement for switching the light [`MANY_TOGGLES`] times.
pub const MANY_TOGGLES_TEXT: &'static str = "But I wanted cookies...";

/// Text of the achievement for turning the dimmer.
pub const DIMMER_TEXT: &'static str = "So colorful *_*";

/// Text of the achievement for playing until the wall clock shows another minute.
pub const TIME_FLIES_TEXT: &'static str = "Time flies when you're having fun";

/// Number of times the light has to be switched for the second light achievement.
pub const MANY_TOGGLES: u32 = 100;

/// The number of times the light was switched.
#[derive(Clone, Copy, Debug, PartialEq, Eq, Structural)]
pub struct Score {
    pub value: u32,
}

/// The achievement that is earned by switching the light for the
/// `score`-th time, if there is one.
pub open spec fn toggle_achievement(score: int) -> Option<Seq<char>> {
    if score == 1 {
        Some(LIGHTS_ON_TEXT@)
    } else if score == MANY_TOGGLES {
        Some(MANY_TOGGLES_TEXT@)
    } else {
        None
    }
}

/// The queue after the light was switched for the `score`-th time.
pub open spec fn after_toggle(queue: QueueView, score: int) -> QueueView {
    match toggle_achievement(score) {
        Some(text) => queue.enqueue(text),
        None => queue,
    }
}

/// The queue after the dimmer was turned.
pub open spec fn after_scroll(queue: QueueView) -> QueueView {
    if queue.dimmer_used {
        queue
    } else {
        QueueView { dimmer_used: true, ..queue.enqueue(DIMMER_TEXT@) }
    }
}

/// The queue after the wall clock was read. The clock showed `start_minute`
/// when the game started and shows `minute` now.
pub open spec fn after_clock_check(queue: QueueView, start_minute: u32, minute: u32) -> QueueView {
    if queue.time_flies_shown || minute == start_minute {
        queue
    } else {
        QueueView { time_flies_shown: true, ..queue.enqueue(TIME_FLIES_TEXT@) }
    }
}

/// Switches a light that is on (`lit`) or off, and counts the switch.
///
/// Returns whether the light is on afterwards. The first switch and the
/// [`MANY_TOGGLES`]-th switch each earn an achievement.
pub fn light_switch_update(
    lit: bool,
    score: &mut Score,
    achievement_queue: &mut AchievementQueue,
) -> (now_lit: bool)
    requires
        old(score).value < u32::MAX,
    ensures
        now_lit == !lit,
        final(score).value == old(score).value + 1,
        final(achievement_queue)@ == after_toggle(
            old(achievement_queue)@,
            final(score).value as int,
        ),
{
    score.value += 1;
    if score.value == 1 {
        achievement_queue.enqueue(LIGHTS_ON_TEXT.to_owned());
    }
    if score.value == MANY_TOGGLES {
        achievement_queue.enqueue(MANY_TOGGLES_TEXT.to_owned());
    }
    !lit
}

/// Records that the dimmer was turned. The first turn earns an achievement;
/// every later one leaves the queue as it is.
pub fn light_temperature_update(achievement_queue: &mut AchievementQueue)
    ensures
        final(achievement_queue)@ == after_scroll(old(achievement_queue)@),
{
    if !achievement_queue.was_dimmer_used {
        achievement_queue.was_dimmer_used = true;
        achievement_queue.enqueue(DIMMER_TEXT.to_owned());
    }
}

/// Compares the minute that the wall clock shows now with the minute it
/// showed when the game started. The first time they differ earns an
/// achievement; after that the clock is no longer looked at.
pub fn clock_achievement_check(
    achievement_queue: &mut AchievementQueue,
    start_minute: u32,
    minute: u32,
)
    ensures
        final(achievement_queue)@ == after_clock_check(
            old(achievement_queue)@,
            start_minute,
            minute,
        ),
{
    if achievement_queue.time_flies_achieved {
        return ;
    }
    if minute != start_minute {
        achievement_queue.enqueue(TIME_FLIES_TEXT.to_owned());
        achievement_queue.time_flies_achieved = true;
    }
}

/// Turning the dimmer again earns nothing more.
///
/// Once the dimmer counts as used, the trigger leaves the queue as it is;
/// and after one call it counts as used. So any number of calls in a row has
/// the effect of the first.
pub proof fn lemma_scroll_trigger_is_idempotent(queue: QueueView)
    ensures
        after_scroll(queue).dimmer_used,
        queue.dimmer_used ==> after_scroll(queue) == queue,
        after_scroll(after_scroll(queue)) == after_scroll(queue),
{
}

/// Reading the wall clock again earns nothing more, whatever it shows.
pub proof fn lemma_clock_trigger_fires_once(
    queue: QueueView,
    start_minute: u32,
    minute: u32,
    later_minute: u32,
)
    ensures
        queue.time_flies_shown ==> after_clock_check(queue, start_minute, minute) == queue,
        minute != start_minute ==> after_clock_check(
            after_clock_check(queue, start_minute, minute),
            start_minute,
            later_minute,
        ) == after_clock_check(queue, start_minute, minute),
{
}

} // verus!
