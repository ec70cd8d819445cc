//! The achievement queue and the stack of achievement cards.
//!
//! Triggers append requests to an [`AchievementQueue`]. Once per frame
//! [`achievement_update`] retires the cards that have been on screen for too
//! long, places the remaining ones in a stack above the bottom edge of the
//! screen, and turns the oldest pending request into a new card as soon as
//! the previous card has finished sliding into place.

use std::collections::VecDeque;
use vstd::prelude::*;

verus! {

/// Height of an achievement card, and of one slot of the stack, in pixels.
pub const ACHIEVEMENT_CARD_HEIGHT: u32 = 100;

/// Width of an achievement card in pixels.
pub const ACHIEVEMENT_CARD_WIDTH: u32 = 300;

/// Time a card stays on screen, in milliseconds.
pub const CARD_LIFETIME_MS: u64 = 5000;

/// Time the newest card takes to slide into the bottom slot, in milliseconds.
pub const SLIDE_DURATION_MS: u64 = 1000;

/// One slot of the stack, in the unit of stack positions (thousandths of a slot).
pub const STACK_SLOT: i64 = 1000;

/// A request to show an achievement with the given text.
pub struct AchievementToBeAdded {
    pub text: String,
}

impl View for AchievementToBeAdded {
    type V = Seq<char>;

    open spec fn view(&self) -> Seq<char> {
        self.text@
    }
}

/// The pending achievements together with the bookkeeping of what was
/// already shown.
pub struct AchievementQueue {
    /// Requests that wait for a card, oldest first.
    pub queue: VecDeque<AchievementToBeAdded>,
    /// Number of requests that were ever turned into a card.
    pub num_achieved_achievements: usize,
    /// Whether the dimmer achievement was requested.
    pub was_dimmer_used: bool,
    /// Whether the achievement for the first achievement was requested.
    pub was_achievement_achieved: bool,
    /// Whether the wall-clock achievement was requested.
    pub time_flies_achieved: bool,
}

/// Mathematical model of an [`AchievementQueue`].
pub ghost struct QueueView {
    /// Texts of the requests that wait for a card, oldest first.
    pub pending: Seq<Seq<char>>,
    /// Number of requests that were ever turned into a card.
    pub promoted_count: nat,
    /// Whether the dimmer achievement was requested.
    pub dimmer_used: bool,
    /// Whether the achievement for the first achievement was requested.
    pub meta_achievement_shown: bool,
    /// Whether the wall-clock achievement was requested.
    pub time_flies_shown: bool,
}

impl QueueView {
    /// The queue of a fresh game: nothing pending, nothing shown.
    pub open spec fn empty() -> QueueView {
        QueueView {
            pending: Seq::empty(),
            promoted_count: 0,
            dimmer_used: false,
            meta_achievement_shown: false,
            time_flies_shown: false,
        }
    }

    /// The queue after its oldest request was turned into a card. The first
    /// promotion ever also requests the achievement for that, at the back.
    pub open spec fn promote(self) -> QueueView
        recommends
            self.pending.len() > 0,
    {
        let rest = self.pending.drop_first();
        QueueView {
            pending: if self.meta_achievement_shown {
                rest
            } else {
                rest.push(META_ACHIEVEMENT_TEXT@)
            },
            promoted_count: self.promoted_count + 1,
            meta_achievement_shown: true,
            ..self
        }
    }

    /// The queue with one more request at the back.
    pub open spec fn enqueue(self, text: Seq<char>) -> QueueView {
        QueueView { pending: self.pending.push(text), ..self }
    }
}

impl View for AchievementQueue {
    type V = QueueView;

    open spec fn view(&self) -> QueueView {
        QueueView {
            pending: self.queue@.map_values(|request: AchievementToBeAdded| request@),
            promoted_count: self.num_achieved_achievements as nat,
            dimmer_used: self.was_dimmer_used,
            meta_achievement_shown: self.was_achievement_achieved,
            time_flies_shown: self.time_flies_achieved,
        }
    }
}

impl AchievementQueue {
    /// An empty queue with all flags cleared.
    pub fn new() -> (queue: AchievementQueue)
        ensures
            queue@ == QueueView::empty(),
    {
        let queue = AchievementQueue {
            queue: VecDeque::new(),
            num_achieved_achievements: 0,
            was_dimmer_used: false,
            was_achievement_achieved: false,
            time_flies_achieved: false,
        };
        assert(queue@.pending =~= Seq::empty());
        queue
    }

    /// Appends a request for an achievement with the given text. Any text is
    /// accepted, and the same text may be requested more than once.
    pub fn enqueue(&mut self, text: String)
        ensures
            final(self)@ == old(self)@.enqueue(text@),
    {
        let request = AchievementToBeAdded { text };
        self.queue.push_back(request);
        assert(self@.pending =~= old(self)@.pending.push(text@));
    }

    /// Number of requests that wait for a card.
    pub fn pending_len(&self) -> (len: usize)
        ensures
            len == self@.pending.len(),
    {
        self.queue.len()
    }
}

/// A card on screen: one achievement that is currently shown.
#[derive(Clone, Copy, Debug, PartialEq, Eq, Structural)]
pub struct Achievement {
    /// Clock reading at which the card appeared, in milliseconds.
    pub spawn_time: u64,
    /// Number of the card: the first card ever shown has number 1.
    pub index: usize,
}

/// Where a card that stays on screen is drawn in this frame.
#[derive(Clone, Copy, Debug, PartialEq, Eq, Structural)]
pub struct CardPlacement {
    /// Number of the card.
    pub index: usize,
    /// Position in the stack in thousandths of a slot: 0 is the bottom slot,
    /// 1000 the slot above it, and a negative position is below the screen edge.
    pub stack_position: i128,
}

/// A card that was created in this frame.
pub struct SpawnedAchievement {
    /// The new card, as it was added to the cards on screen.
    pub card: Achievement,
    /// Text to print on the card.
    pub text: String,
    /// Position at which the card starts, in thousandths of a slot.
    pub stack_position: i128,
}

/// What one frame did to the cards on screen.
pub struct FrameUpdate {
    /// Numbers of the cards that were retired, oldest first.
    pub expired: Vec<usize>,
    /// The cards that stay, oldest first, each with its position.
    pub placements: Vec<CardPlacement>,
    /// Position of the newest card in thousandths of a slot: negative while
    /// it slides in, 0 once it rests or when no card is the newest.
    pub lowest_stack_position: i64,
    /// The card that was created, if a request was promoted.
    pub spawned: Option<SpawnedAchievement>,
}

/// Text of the achievement that is earned by earning the first achievement.
pub const META_ACHIEVEMENT_TEXT: &'static str = "Got it!";

/// Time in milliseconds that `card` has been on screen at clock reading
/// `now`. A reading from before the card appeared counts as no time at all.
pub open spec fn card_age(card: Achievement, now: u64) -> nat {
    if now >= card.spawn_time {
        (now - card.spawn_time) as nat
    } else {
        0
    }
}

/// Whether `card` has been on screen for longer than its lifetime.
pub open spec fn is_expired(card: Achievement, now: u64) -> bool {
    card_age(card, now) > CARD_LIFETIME_MS
}

/// The cards that stay on screen, in their order.
pub open spec fn surviving_cards(cards: Seq<Achievement>, now: u64) -> Seq<Achievement> {
    cards.filter(|card: Achievement| !is_expired(card, now))
}

/// The numbers of the cards that are retired, in their order.
pub open spec fn expired_cards(cards: Seq<Achievement>, now: u64) -> Seq<usize> {
    cards.filter(|card: Achievement| is_expired(card, now)).map_values(
        |card: Achievement| card.index,
    )
}

/// Age of the newest card: the one whose number is the number of cards
/// shown so far. `None` when that card is no longer among `cards`, or when
/// no card was shown yet.
pub open spec fn newest_age(cards: Seq<Achievement>, promoted_count: nat, now: u64) -> Option<nat> {
    let newest = cards.filter(|card: Achievement| card.index == promoted_count);
    if newest.len() == 0 {
        None
    } else {
        Some(card_age(newest.last(), now))
    }
}

/// Offset of the whole stack for a newest card of the given age, in
/// thousandths of a slot. The newest card starts one slot below its resting
/// place and rises by a thousandth of a slot per millisecond until it rests.
pub open spec fn slide_offset(newest_age: Option<nat>) -> int {
    match newest_age {
        None => 0,
        Some(age) => if age >= SLIDE_DURATION_MS {
            0
        } else {
            age - SLIDE_DURATION_MS
        },
    }
}

/// Position of the newest card at clock reading `now`.
pub open spec fn lowest_stack_position(
    cards: Seq<Achievement>,
    promoted_count: nat,
    now: u64,
) -> int {
    slide_offset(newest_age(cards, promoted_count, now))
}

/// Position of the card with number `index` when the newest card is at
/// `lowest`: every card sits one slot above the card that came after it.
pub open spec fn stack_position(lowest: int, promoted_count: nat, index: usize) -> int {
    lowest + STACK_SLOT * (promoted_count - index)
}

/// Placement of one card.
pub open spec fn card_placement(card: Achievement, lowest: int, promoted_count: nat) -> CardPlacement {
    CardPlacement {
        index: card.index,
        stack_position: stack_position(lowest, promoted_count, card.index) as i128,
    }
}

/// Placements of `kept`, in their order, when the newest card is at `lowest`.
pub open spec fn placements_of(kept: Seq<Achievement>, lowest: int, promoted_count: nat) -> Seq<
    CardPlacement,
> {
    kept.map_values(|card: Achievement| card_placement(card, lowest, promoted_count))
}

/// Placements of the cards that stay on screen, in their order.
pub open spec fn placements(cards: Seq<Achievement>, promoted_count: nat, now: u64) -> Seq<
    CardPlacement,
> {
    placements_of(
        surviving_cards(cards, now),
        lowest_stack_position(cards, promoted_count, now),
        promoted_count,
    )
}

/// Whether a frame at clock reading `now` turns the oldest request into a
/// card: no card is still sliding in, and a request is waiting.
pub open spec fn promotes(queue: QueueView, cards: Seq<Achievement>, now: u64) -> bool {
    lowest_stack_position(cards, queue.promoted_count, now) >= 0 && queue.pending.len() > 0
}

/// The card that a promotion creates from `queue` at clock reading `now`.
pub open spec fn promoted_card(queue: QueueView, now: u64) -> Achievement {
    Achievement { spawn_time: now, index: (queue.promoted_count + 1) as usize }
}

/// The queue after a frame at clock reading `now`.
pub open spec fn queue_after_frame(queue: QueueView, cards: Seq<Achievement>, now: u64) -> QueueView {
    if promotes(queue, cards, now) {
        queue.promote()
    } else {
        queue
    }
}

/// The cards on screen after a frame at clock reading `now`.
pub open spec fn cards_after_frame(queue: QueueView, cards: Seq<Achievement>, now: u64) -> Seq<
    Achievement,
> {
    let kept = surviving_cards(cards, now);
    if promotes(queue, cards, now) {
        kept.push(promoted_card(queue, now))
    } else {
        kept
    }
}

/// Validity of the cards on screen: their numbers lie between 1 and the
/// number of cards shown so far, and grow from each card to the next.
pub open spec fn stack_wf(cards: Seq<Achievement>, promoted_count: nat) -> bool {
    &&& forall|i: int| 0 <= i < cards.len() ==> 1 <= (#[trigger] cards[i]).index <= promoted_count
    &&& forall|i: int, j: int|
        0 <= i < j < cards.len() ==> (#[trigger] cards[i]).index < (#[trigger] cards[j]).index
}

/// Time in milliseconds that `card` has been on screen at clock reading `now`.
pub fn age_of(card: &Achievement, now: u64) -> (age: u64)
    ensures
        age == card_age(*card, now),
{
    if now >= card.spawn_time {
        now - card.spawn_time
    } else {
        0
    }
}

proof fn lemma_surviving_step(cards: Seq<Achievement>, i: int, now: u64)
    requires
        0 <= i < cards.len(),
    ensures
        surviving_cards(cards.take(i + 1), now) == if is_expired(cards[i], now) {
            surviving_cards(cards.take(i), now)
        } else {
            surviving_cards(cards.take(i), now).push(cards[i])
        },
{
    reveal(Seq::filter);
    assert(cards.take(i + 1).drop_last() =~= cards.take(i));
}

proof fn lemma_expired_step(cards: Seq<Achievement>, i: int, now: u64)
    requires
        0 <= i < cards.len(),
    ensures
        expired_cards(cards.take(i + 1), now) == if is_expired(cards[i], now) {
            expired_cards(cards.take(i), now).push(cards[i].index)
        } else {
            expired_cards(cards.take(i), now)
        },
{
    reveal(Seq::filter);
    assert(cards.take(i + 1).drop_last() =~= cards.take(i));
    if is_expired(cards[i], now) {
        assert(expired_cards(cards.take(i + 1), now) =~= expired_cards(cards.take(i), now).push(
            cards[i].index,
        ));
    }
}

proof fn lemma_newest_step(cards: Seq<Achievement>, i: int, promoted_count: nat, now: u64)
    requires
        0 <= i < cards.len(),
    ensures
        newest_age(cards.take(i + 1), promoted_count, now) == if cards[i].index == promoted_count {
            Some(card_age(cards[i], now))
        } else {
            newest_age(cards.take(i), promoted_count, now)
        },
{
    reveal(Seq::filter);
    assert(cards.take(i + 1).drop_last() =~= cards.take(i));
}

/// Every card that stays on screen is within its lifetime, and the cards
/// that stay keep the order and the validity of the cards before.
pub proof fn lemma_surviving_cards(cards: Seq<Achievement>, promoted_count: nat, now: u64)
    ensures
        forall|i: int|
            0 <= i < surviving_cards(cards, now).len() ==> !is_expired(
                #[trigger] surviving_cards(cards, now)[i],
                now,
            ),
        stack_wf(cards, promoted_count) ==> stack_wf(surviving_cards(cards, now), promoted_count),
    decreases cards.len(),
{
    reveal(Seq::filter);
    if cards.len() > 0 {
        let front = cards.drop_last();
        lemma_surviving_cards(front, promoted_count, now);
        if stack_wf(cards, promoted_count) {
            assert(stack_wf(front, promoted_count));
            lemma_surviving_bound(front, cards.last().index, now);
        }
    }
}

/// The cards that stay are numbered below `bound` when all cards are.
proof fn lemma_surviving_bound(cards: Seq<Achievement>, bound: usize, now: u64)
    requires
        forall|i: int| 0 <= i < cards.len() ==> (#[trigger] cards[i]).index < bound,
    ensures
        forall|i: int|
            0 <= i < surviving_cards(cards, now).len() ==> (#[trigger] surviving_cards(
                cards,
                now,
            )[i]).index < bound,
    decreases cards.len(),
{
    reveal(Seq::filter);
    if cards.len() > 0 {
        let front = cards.drop_last();
        assert forall|i: int| 0 <= i < front.len() implies (#[trigger] front[i]).index < bound by {
            assert(front[i] == cards[i]);
        }
        lemma_surviving_bound(front, bound, now);
        let kept = surviving_cards(cards, now);
        assert forall|i: int| 0 <= i < kept.len() implies (#[trigger] kept[i]).index < bound by {
            if i < surviving_cards(front, now).len() {
                assert(kept[i] == surviving_cards(front, now)[i]);
            } else {
                assert(kept[i] == cards.last());
                assert(cards.last() == cards[cards.len() - 1]);
            }
        }
    }
}

/// Height above the bottom edge of the screen, in thousandths of a pixel,
/// of a card at `stack_position`: a slot is as high as a card.
pub open spec fn position_offset(stack_position: int) -> int {
    stack_position * ACHIEVEMENT_CARD_HEIGHT
}

/// Height above the bottom edge of the screen, in thousandths of a pixel, of
/// a card at `stack_position`. Cards are anchored at the bottom right corner
/// of the screen and move along its right edge only. `None` when the height
/// is too large for the result type.
pub fn achievement_position(stack_position: i128) -> (offset: Option<i128>)
    ensures
        match offset {
            Some(offset) => offset == position_offset(stack_position as int),
            None => position_offset(stack_position as int) < i128::MIN || position_offset(
                stack_position as int,
            ) > i128::MAX,
        },
{
    stack_position.checked_mul(ACHIEVEMENT_CARD_HEIGHT as i128)
}

/// The card and its starting position for a request that is promoted at
/// clock reading `now` as card number `achievement_index`. A new card starts
/// one slot below the bottom slot, out of sight.
pub fn spawn_achievement(achievement_index: usize, text: String, now: u64) -> (spawned:
    SpawnedAchievement)
    ensures
        spawned.card == (Achievement { spawn_time: now, index: achievement_index }),
        spawned.text == text,
        spawned.stack_position == -STACK_SLOT,
{
    SpawnedAchievement {
        card: Achievement { spawn_time: now, index: achievement_index },
        text,
        stack_position: -(STACK_SLOT as i128),
    }
}

/// One frame of the achievement stack at clock reading `now`.
///
/// The frame first retires every card that has been on screen for longer
/// than [`CARD_LIFETIME_MS`], then places the cards that stay, and last
/// turns the oldest pending request into a new card, provided that the
/// newest card of the frame's start has finished sliding in (or is gone).
/// At most one request is promoted per frame. The first promotion ever
/// appends a request for [`META_ACHIEVEMENT_TEXT`] to the queue.
pub fn achievement_update(
    achievement_queue: &mut AchievementQueue,
    achievements: &mut Vec<Achievement>,
    now: u64,
) -> (frame: FrameUpdate)
    requires
        promotes(old(achievement_queue)@, old(achievements)@, now) ==> old(
            achievement_queue,
        ).num_achieved_achievements < usize::MAX,
    ensures
        final(achievement_queue)@ == queue_after_frame(
            old(achievement_queue)@,
            old(achievements)@,
            now,
        ),
        final(achievements)@ == cards_after_frame(old(achievement_queue)@, old(achievements)@, now),
        frame.expired@ == expired_cards(old(achievements)@, now),
        frame.placements@ == placements(
            old(achievements)@,
            old(achievement_queue)@.promoted_count,
            now,
        ),
        frame.lowest_stack_position == lowest_stack_position(
            old(achievements)@,
            old(achievement_queue)@.promoted_count,
            now,
        ),
        match frame.spawned {
            Some(spawned) => {
                &&& promotes(old(achievement_queue)@, old(achievements)@, now)
                &&& spawned.card == promoted_card(old(achievement_queue)@, now)
                &&& spawned.text@ == old(achievement_queue)@.pending[0]
                &&& spawned.stack_position == -STACK_SLOT
            },
            None => !promotes(old(achievement_queue)@, old(achievements)@, now),
        },
        old(achievement_queue)@.promoted_count <= final(achievement_queue)@.promoted_count
            <= old(achievement_queue)@.promoted_count + 1,
        forall|i: int|
            0 <= i < final(achievements)@.len() ==> card_age(
                #[trigger] final(achievements)@[i],
                now,
            ) <= CARD_LIFETIME_MS,
        stack_wf(old(achievements)@, old(achievement_queue)@.promoted_count) ==> stack_wf(
            final(achievements)@,
            final(achievement_queue)@.promoted_count,
        ),
{
    let count: usize = achievement_queue.num_achieved_achievements;
    let ghost cards = achievements@;
    let ghost before = achievement_queue@;

    // Retire the cards that are too old, and find the age of the newest card.
    let mut kept: Vec<Achievement> = Vec::new();
    let mut expired: Vec<usize> = Vec::new();
    let mut shortest_lifetime: Option<u64> = None;
    let mut i: usize = 0;
    while i < achievements.len()
        invariant
            achievements@ == cards,
            i <= cards.len(),
            kept@ == surviving_cards(cards.take(i as int), now),
            expired@ == expired_cards(cards.take(i as int), now),
            match shortest_lifetime {
                Some(age) => newest_age(cards.take(i as int), count as nat, now) == Some(age as nat),
                None => newest_age(cards.take(i as int), count as nat, now) is None,
            },
        decreases cards.len() - i,
    {
        let card: Achievement = achievements[i];
        let age: u64 = age_of(&card, now);
        proof {
            lemma_surviving_step(cards, i as int, now);
            lemma_expired_step(cards, i as int, now);
            lemma_newest_step(cards, i as int, count as nat, now);
        }
        if age > CARD_LIFETIME_MS {
            expired.push(card.index);
        } else {
            kept.push(card);
        }
        if card.index == count {
            shortest_lifetime = Some(age);
        }
        i += 1;
    }
    assert(cards.take(cards.len() as int) =~= cards);

    // The newest card slides in during its first second.
    let lowest: i64 = match shortest_lifetime {
        None => 0,
        Some(age) => if age >= SLIDE_DURATION_MS {
            0
        } else {
            age as i64 - SLIDE_DURATION_MS as i64
        },
    };
    assert(lowest == lowest_stack_position(cards, count as nat, now));

    // Place the cards that stay.
    let mut placed: Vec<CardPlacement> = Vec::new();
    let mut j: usize = 0;
    while j < kept.len()
        invariant
            j <= kept.len(),
            -1000 <= lowest <= 0,
            placed@.len() == j,
            forall|k: int|
                0 <= k < j ==> placed@[k] == card_placement(
                    #[trigger] kept@[k],
                    lowest as int,
                    count as nat,
                ),
        decreases kept.len() - j,
    {
        let card: Achievement = kept[j];
        let position: i128 = lowest as i128 + STACK_SLOT as i128 * (count as i128
            - card.index as i128);
        placed.push(CardPlacement { index: card.index, stack_position: position });
        j += 1;
    }
    assert(placed@ =~= placements_of(kept@, lowest as int, count as nat));

    // Promote the oldest request once nothing is sliding in any more.
    let mut spawned: Option<SpawnedAchievement> = None;
    proof {
        lemma_surviving_cards(cards, count as nat, now);
    }
    if lowest >= 0 {
        if let Some(event) = achievement_queue.queue.pop_front() {
            if !achievement_queue.was_achievement_achieved {
                achievement_queue.was_achievement_achieved = true;
                achievement_queue.queue.push_back(
                    AchievementToBeAdded { text: META_ACHIEVEMENT_TEXT.to_owned() },
                );
            }
            achievement_queue.num_achieved_achievements += 1;
            let created = spawn_achievement(
                achievement_queue.num_achieved_achievements,
                event.text,
                now,
            );
            kept.push(created.card);
            spawned = Some(created);
            assert(achievement_queue@.pending =~= before.promote().pending);
        }
    }
    *achievements = kept;
    FrameUpdate { expired, placements: placed, lowest_stack_position: lowest, spawned }
}

impl Default for AchievementQueue {
    fn default() -> (queue: AchievementQueue)
        ensures
            queue@ == QueueView::empty(),
    {
        AchievementQueue::new()
    }
}

} // verus!
