use aca_gamejam_winner2023::achievements::{
    achievement_position, achievement_update, age_of, spawn_achievement, Achievement, AchievementQueue, CardPlacement,
    ACHIEVEMENT_CARD_HEIGHT, ACHIEVEMENT_CARD_WIDTH, CARD_LIFETIME_MS, META_ACHIEVEMENT_TEXT, SLIDE_DURATION_MS, STACK_SLOT,
};

fn pending_texts(queue: &AchievementQueue) -> Vec<String> {
    queue.queue.iter().map(|request| request.text.clone()).collect()
}

#[test]
fn new_queue_is_empty() {
    let queue = AchievementQueue::new();
    assert!(queue.queue.is_empty());
    assert_eq!(queue.pending_len(), 0);
    assert_eq!(queue.num_achieved_achievements, 0);
    assert!(!queue.was_dimmer_used);
    assert!(!queue.was_achievement_achieved);
    assert!(!queue.time_flies_achieved);
}

#[test]
fn default_queue_is_empty() {
    let queue = AchievementQueue::default();
    assert_eq!(queue.pending_len(), 0);
    assert_eq!(queue.num_achieved_achievements, 0);
    assert!(!queue.was_achievement_achieved);
}

#[test]
fn enqueue_appends_in_order() {
    let mut queue = AchievementQueue::new();
    queue.enqueue("first".to_string());
    queue.enqueue("second".to_string());
    queue.enqueue("first".to_string());
    assert_eq!(pending_texts(&queue), vec!["first", "second", "first"]);
    assert_eq!(queue.num_achieved_achievements, 0);
}

#[test]
fn enqueue_accepts_empty_text() {
    let mut queue = AchievementQueue::new();
    queue.enqueue(String::new());
    let mut cards = Vec::new();
    let frame = achievement_update(&mut queue, &mut cards, 10);
    let spawned = frame.spawned.expect("the empty request is promoted");
    assert_eq!(spawned.text, "");
    assert_eq!(cards.len(), 1);
}

#[test]
fn constants_have_their_values() {
    assert_eq!(ACHIEVEMENT_CARD_HEIGHT, 100);
    assert_eq!(ACHIEVEMENT_CARD_WIDTH, 300);
    assert_eq!(CARD_LIFETIME_MS, 5000);
    assert_eq!(SLIDE_DURATION_MS, 1000);
    assert_eq!(STACK_SLOT, 1000);
    assert_eq!(META_ACHIEVEMENT_TEXT, "Got it!");
}

#[test]
fn age_is_time_since_spawn() {
    let card = Achievement { spawn_time: 1_000, index: 1 };
    assert_eq!(age_of(&card, 1_000), 0);
    assert_eq!(age_of(&card, 4_250), 3_250);
    assert_eq!(age_of(&card, u64::MAX), u64::MAX - 1_000);
}

#[test]
fn age_before_spawn_is_zero() {
    let card = Achievement { spawn_time: 1_000, index: 1 };
    assert_eq!(age_of(&card, 999), 0);
    assert_eq!(age_of(&card, 0), 0);
}

#[test]
fn spawned_card_starts_one_slot_below() {
    let spawned = spawn_achievement(7, "Seven".to_string(), 123);
    assert_eq!(spawned.card, Achievement { spawn_time: 123, index: 7 });
    assert_eq!(spawned.text, "Seven");
    assert_eq!(spawned.stack_position, -1000);
}

#[test]
fn idle_frame_does_nothing() {
    let mut queue = AchievementQueue::new();
    let mut cards = Vec::new();
    let frame = achievement_update(&mut queue, &mut cards, 5);
    assert!(frame.expired.is_empty());
    assert!(frame.placements.is_empty());
    assert_eq!(frame.lowest_stack_position, 0);
    assert!(frame.spawned.is_none());
    assert!(cards.is_empty());
    assert_eq!(queue.num_achieved_achievements, 0);
    assert!(!queue.was_achievement_achieved);
}

#[test]
fn lights_on_slides_in_and_settles() {
    let mut queue = AchievementQueue::new();
    let mut cards = Vec::new();
    queue.enqueue("Lights on".to_string());

    let frame = achievement_update(&mut queue, &mut cards, 100);
    let spawned = frame.spawned.expect("the request is promoted in the first frame");
    assert_eq!(spawned.card, Achievement { spawn_time: 100, index: 1 });
    assert_eq!(spawned.text, "Lights on");
    assert_eq!(spawned.stack_position, -1000);
    assert_eq!(cards, vec![Achievement { spawn_time: 100, index: 1 }]);
    assert_eq!(queue.num_achieved_achievements, 1);

    // A quarter of a second later the card is three quarters of a slot below.
    let frame = achievement_update(&mut queue, &mut cards, 350);
    assert_eq!(frame.lowest_stack_position, -750);
    assert_eq!(frame.placements, vec![CardPlacement { index: 1, stack_position: -750 }]);
    assert!(frame.spawned.is_none());

    // Just before the second is over it is still sliding.
    let frame = achievement_update(&mut queue, &mut cards, 1_099);
    assert_eq!(frame.placements, vec![CardPlacement { index: 1, stack_position: -1 }]);
    assert!(frame.spawned.is_none());
    assert_eq!(pending_texts(&queue), vec!["Got it!"]);

    // After one second it rests in the bottom slot.
    let frame = achievement_update(&mut queue, &mut cards, 1_100);
    assert_eq!(frame.lowest_stack_position, 0);
    assert_eq!(frame.placements, vec![CardPlacement { index: 1, stack_position: 0 }]);
}

#[test]
fn three_requests_promote_one_per_frame() {
    let mut queue = AchievementQueue::new();
    queue.was_achievement_achieved = true;
    let mut cards = Vec::new();
    queue.enqueue("one".to_string());
    queue.enqueue("two".to_string());
    queue.enqueue("three".to_string());

    let frame = achievement_update(&mut queue, &mut cards, 0);
    assert_eq!(frame.spawned.unwrap().text, "one");
    assert_eq!(queue.num_achieved_achievements, 1);
    assert_eq!(pending_texts(&queue), vec!["two", "three"]);

    // While the first card slides in, nothing else is promoted.
    let frame = achievement_update(&mut queue, &mut cards, 500);
    assert!(frame.spawned.is_none());
    assert_eq!(queue.num_achieved_achievements, 1);

    let frame = achievement_update(&mut queue, &mut cards, 1_000);
    assert_eq!(frame.spawned.unwrap().text, "two");
    assert_eq!(queue.num_achieved_achievements, 2);

    let frame = achievement_update(&mut queue, &mut cards, 2_000);
    assert_eq!(frame.spawned.unwrap().text, "three");
    assert_eq!(queue.num_achieved_achievements, 3);
    assert!(queue.queue.is_empty());

    let frame = achievement_update(&mut queue, &mut cards, 3_000);
    assert!(frame.spawned.is_none());
    assert_eq!(
        frame.placements,
        vec![
            CardPlacement { index: 1, stack_position: 2_000 },
            CardPlacement { index: 2, stack_position: 1_000 },
            CardPlacement { index: 3, stack_position: 0 },
        ]
    );
    assert_eq!(cards.len(), 3);
}

#[test]
fn only_one_promotion_per_frame() {
    let mut queue = AchievementQueue::new();
    let mut cards = Vec::new();
    queue.enqueue("a".to_string());
    queue.enqueue("b".to_string());
    let frame = achievement_update(&mut queue, &mut cards, 0);
    assert!(frame.spawned.is_some());
    assert_eq!(cards.len(), 1);
    assert_eq!(queue.num_achieved_achievements, 1);
    assert_eq!(pending_texts(&queue), vec!["b", "Got it!"]);
}

#[test]
fn older_cards_move_up_while_newest_slides() {
    let mut queue = AchievementQueue::new();
    queue.was_achievement_achieved = true;
    queue.num_achieved_achievements = 2;
    let mut cards = vec![
        Achievement { spawn_time: 0, index: 1 },
        Achievement { spawn_time: 2_000, index: 2 },
    ];
    let frame = achievement_update(&mut queue, &mut cards, 2_400);
    assert_eq!(frame.lowest_stack_position, -600);
    assert_eq!(
        frame.placements,
        vec![
            CardPlacement { index: 1, stack_position: 400 },
            CardPlacement { index: 2, stack_position: -600 },
        ]
    );
}

#[test]
fn meta_achievement_is_requested_once() {
    let mut queue = AchievementQueue::new();
    let mut cards = Vec::new();
    queue.enqueue("Lights on".to_string());
    queue.enqueue("So colorful *_*".to_string());

    let frame = achievement_update(&mut queue, &mut cards, 0);
    assert_eq!(frame.spawned.unwrap().text, "Lights on");
    assert!(queue.was_achievement_achieved);
    // The request goes to the back, behind what was already pending.
    assert_eq!(pending_texts(&queue), vec!["So colorful *_*", "Got it!"]);

    let frame = achievement_update(&mut queue, &mut cards, 1_000);
    assert_eq!(frame.spawned.unwrap().text, "So colorful *_*");
    assert_eq!(pending_texts(&queue), vec!["Got it!"]);

    let frame = achievement_update(&mut queue, &mut cards, 2_000);
    assert_eq!(frame.spawned.unwrap().text, "Got it!");
    assert!(queue.queue.is_empty());
    assert!(queue.was_achievement_achieved);

    // Later achievements do not request it again.
    queue.enqueue("Time flies when you're having fun".to_string());
    let frame = achievement_update(&mut queue, &mut cards, 3_000);
    assert_eq!(frame.spawned.unwrap().text, "Time flies when you're having fun");
    assert!(queue.queue.is_empty());
    assert_eq!(queue.num_achieved_achievements, 4);
}

#[test]
fn single_first_request_is_followed_by_meta_achievement() {
    let mut queue = AchievementQueue::new();
    let mut cards = Vec::new();
    queue.enqueue("Lights on".to_string());
    achievement_update(&mut queue, &mut cards, 0);
    assert_eq!(pending_texts(&queue), vec!["Got it!"]);
    let frame = achievement_update(&mut queue, &mut cards, 1_000);
    let spawned = frame.spawned.unwrap();
    assert_eq!(spawned.text, "Got it!");
    assert_eq!(spawned.card.index, 2);
}

#[test]
fn card_expires_after_five_seconds() {
    let mut queue = AchievementQueue::new();
    queue.was_achievement_achieved = true;
    queue.num_achieved_achievements = 1;
    let mut cards = vec![Achievement { spawn_time: 1_000, index: 1 }];

    // Exactly at the end of its lifetime the card is still there.
    let frame = achievement_update(&mut queue, &mut cards, 6_000);
    assert!(frame.expired.is_empty());
    assert_eq!(frame.placements, vec![CardPlacement { index: 1, stack_position: 0 }]);
    assert_eq!(cards.len(), 1);

    let frame = achievement_update(&mut queue, &mut cards, 6_001);
    assert_eq!(frame.expired, vec![1]);
    assert!(frame.placements.is_empty());
    assert!(cards.is_empty());
    assert_eq!(queue.num_achieved_achievements, 1);
}

#[test]
fn expiry_does_not_wait_for_pending_requests() {
    let mut queue = AchievementQueue::new();
    queue.was_achievement_achieved = true;
    queue.num_achieved_achievements = 2;
    let mut cards = vec![
        Achievement { spawn_time: 0, index: 1 },
        Achievement { spawn_time: 4_500, index: 2 },
    ];
    queue.enqueue("next".to_string());
    // The newest card is still sliding, so nothing is promoted, but the old card goes.
    let frame = achievement_update(&mut queue, &mut cards, 5_001);
    assert_eq!(frame.expired, vec![1]);
    assert!(frame.spawned.is_none());
    assert_eq!(frame.placements, vec![CardPlacement { index: 2, stack_position: -499 }]);
    assert_eq!(cards, vec![Achievement { spawn_time: 4_500, index: 2 }]);
}

#[test]
fn expired_newest_card_allows_promotion_in_same_frame() {
    let mut queue = AchievementQueue::new();
    queue.was_achievement_achieved = true;
    queue.num_achieved_achievements = 1;
    let mut cards = vec![Achievement { spawn_time: 0, index: 1 }];
    queue.enqueue("late".to_string());
    let frame = achievement_update(&mut queue, &mut cards, 7_000);
    assert_eq!(frame.expired, vec![1]);
    assert_eq!(frame.lowest_stack_position, 0);
    assert_eq!(frame.spawned.unwrap().card, Achievement { spawn_time: 7_000, index: 2 });
    assert_eq!(cards, vec![Achievement { spawn_time: 7_000, index: 2 }]);
}

#[test]
fn clock_reading_before_spawn_counts_as_age_zero() {
    let mut queue = AchievementQueue::new();
    queue.was_achievement_achieved = true;
    queue.num_achieved_achievements = 1;
    let mut cards = vec![Achievement { spawn_time: 500, index: 1 }];
    let frame = achievement_update(&mut queue, &mut cards, 100);
    assert_eq!(frame.lowest_stack_position, -1000);
    assert_eq!(frame.placements, vec![CardPlacement { index: 1, stack_position: -1000 }]);
}

#[test]
fn promoted_count_never_decreases_and_grows_by_at_most_one() {
    let mut queue = AchievementQueue::new();
    let mut cards = Vec::new();
    for text in ["a", "b", "c", "d"] {
        queue.enqueue(text.to_string());
    }
    let mut now = 0;
    let mut last = queue.num_achieved_achievements;
    while now <= 12_000 {
        achievement_update(&mut queue, &mut cards, now);
        let count = queue.num_achieved_achievements;
        assert!(count == last || count == last + 1);
        last = count;
        now += 250;
    }
    assert_eq!(last, 5);
}

#[test]
fn no_card_outlives_its_lifetime() {
    let mut queue = AchievementQueue::new();
    let mut cards = Vec::new();
    for text in ["a", "b", "c", "d", "e", "f", "g"] {
        queue.enqueue(text.to_string());
    }
    let mut now = 0;
    while now <= 20_000 {
        achievement_update(&mut queue, &mut cards, now);
        for card in &cards {
            assert!(age_of(card, now) <= CARD_LIFETIME_MS);
        }
        now += 333;
    }
    assert!(cards.is_empty());
    assert_eq!(queue.num_achieved_achievements, 8);
}

#[test]
fn at_most_one_card_is_below_the_bottom_slot() {
    let mut queue = AchievementQueue::new();
    let mut cards = Vec::new();
    for text in ["a", "b", "c", "d"] {
        queue.enqueue(text.to_string());
    }
    let mut now = 0;
    while now <= 8_000 {
        let frame = achievement_update(&mut queue, &mut cards, now);
        let sliding = frame.placements.iter().filter(|p| p.stack_position < 0).count();
        assert!(sliding <= 1);
        for placement in &frame.placements {
            if placement.stack_position < 0 {
                assert_eq!(placement.index, queue.num_achieved_achievements - frame.spawned.is_some() as usize);
            }
        }
        now += 100;
    }
}

#[test]
fn promotion_order_is_enqueue_order() {
    let mut queue = AchievementQueue::new();
    let mut cards = Vec::new();
    let mut shown = Vec::new();
    let texts = ["a", "b", "c", "d", "e"];
    let mut next = 0;
    let mut now = 0;
    while now <= 10_000 {
        // Requests arrive while earlier ones are still being shown.
        if now % 700 == 0 && next < texts.len() {
            queue.enqueue(texts[next].to_string());
            next += 1;
        }
        if let Some(spawned) = achievement_update(&mut queue, &mut cards, now).spawned {
            shown.push(spawned.text);
        }
        now += 100;
    }
    // The first promotion leaves its own request behind what was pending then.
    assert_eq!(shown, vec!["a", "Got it!", "b", "c", "d", "e"]);
    shown.remove(1);
    assert_eq!(shown, texts);
}

#[test]
fn position_is_a_card_height_per_slot() {
    // Thousandths of a slot in, thousandths of a pixel out.
    assert_eq!(achievement_position(0), Some(0));
    assert_eq!(achievement_position(1_000), Some(100_000));
    assert_eq!(achievement_position(2_000), Some(200_000));
    assert_eq!(achievement_position(-1_000), Some(-100_000));
    assert_eq!(achievement_position(-750), Some(-75_000));
    assert_eq!(achievement_position(1), Some(100));
}

#[test]
fn position_at_the_limits_of_the_result() {
    assert_eq!(achievement_position(i128::MAX / 100), Some(i128::MAX / 100 * 100));
    assert_eq!(achievement_position(i128::MAX / 100 + 1), None);
    assert_eq!(achievement_position(i128::MAX), None);
    assert_eq!(achievement_position(i128::MIN), None);
    assert_eq!(achievement_position(i128::MIN / 100), Some(i128::MIN / 100 * 100));
    assert_eq!(achievement_position(i128::MIN / 100 - 1), None);
}

#[test]
fn placements_of_a_frame_have_a_position_on_screen() {
    let mut queue = AchievementQueue::new();
    queue.was_achievement_achieved = true;
    queue.num_achieved_achievements = usize::MAX;
    let mut cards = vec![
        Achievement { spawn_time: 0, index: 1 },
        Achievement { spawn_time: 0, index: usize::MAX },
    ];
    let frame = achievement_update(&mut queue, &mut cards, 10);
    assert_eq!(frame.placements.len(), 2);
    assert_eq!(
        frame.placements[0].stack_position,
        -990 + 1_000 * (usize::MAX as i128 - 1)
    );
    assert_eq!(frame.placements[1].stack_position, -990);
    for placement in &frame.placements {
        assert_eq!(
            achievement_position(placement.stack_position),
            Some(placement.stack_position * 100)
        );
    }
}

#[test]
fn full_count_is_kept_while_nothing_is_promoted() {
    let mut queue = AchievementQueue::new();
    queue.was_achievement_achieved = true;
    queue.num_achieved_achievements = usize::MAX;
    let mut cards = Vec::new();
    let frame = achievement_update(&mut queue, &mut cards, 10);
    assert!(frame.spawned.is_none());
    assert_eq!(queue.num_achieved_achievements, usize::MAX);
}

#[test]
fn cards_of_equal_number_follow_the_later_one() {
    let mut queue = AchievementQueue::new();
    queue.num_achieved_achievements = 3;
    let mut cards = vec![
        Achievement { spawn_time: 900, index: 3 },
        Achievement { spawn_time: 100, index: 3 },
    ];
    let frame = achievement_update(&mut queue, &mut cards, 1_000);
    // The later card in the list is 900 ms old.
    assert_eq!(frame.lowest_stack_position, -100);
}
