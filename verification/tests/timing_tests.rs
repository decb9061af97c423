use alter::timing::{
    band_range, draw_plan, plan_for_texts, presend_delay_ms, rand_between, remaining_typing_ms,
    timed_word_count, MAX_TIMED_WORDS, READING_WPM_MAX, READING_WPM_MIN, TYPING_WPM_MAX,
    TYPING_WPM_MIN,
};

#[test]
fn band_range_exact_values() {
    // 10 words at 80..=180 wpm: [10*60000/180, 10*60000/80] ms.
    let (lo, hi) = band_range(10, TYPING_WPM_MIN, TYPING_WPM_MAX);
    assert_eq!(lo, 3333);
    assert_eq!(hi, 7500);

    let (lo, hi) = band_range(10, READING_WPM_MIN, READING_WPM_MAX);
    assert_eq!(lo, 2400);
    assert_eq!(hi, 3333);
}

#[test]
fn band_range_zero_words() {
    let (lo, hi) = band_range(0, TYPING_WPM_MIN, TYPING_WPM_MAX);
    assert_eq!(lo, 0);
    assert_eq!(hi, 0);
}

#[test]
fn typing_delay_within_bounds_any_seed() {
    // For reply word count w, the drawn typing delay falls within
    // [w*60000/180, w*60000/80] inclusive, whatever the draw.
    for w in [1u64, 2, 7, 100, 1234] {
        for _ in 0..50 {
            let plan = draw_plan(3, w);
            assert!(plan.typing_ms >= w * 60000 / 180);
            assert!(plan.typing_ms <= w * 60000 / 80);
        }
    }
}

#[test]
fn reading_and_thinking_within_bounds() {
    for _ in 0..50 {
        let plan = draw_plan(25, 40);
        assert!(plan.reading_ms >= 25 * 60000 / 250);
        assert!(plan.reading_ms <= 25 * 60000 / 180);
        assert!(plan.thinking_ms >= 40 * 60000 / 3000);
        assert!(plan.thinking_ms <= 40 * 60000 / 1000);
    }
}

#[test]
fn presend_delay_is_reading_plus_thinking() {
    let plan = draw_plan(12, 30);
    let total = presend_delay_ms(&plan, 12, 30);
    assert_eq!(total, plan.reading_ms + plan.thinking_ms);
}

#[test]
fn largest_word_count_does_not_overflow() {
    let plan = draw_plan(MAX_TIMED_WORDS, MAX_TIMED_WORDS);
    assert!(plan.typing_ms >= MAX_TIMED_WORDS * 60000 / 180);
}

#[test]
fn timed_word_count_matches_word_count() {
    assert_eq!(timed_word_count("hello world"), 2);
    assert_eq!(timed_word_count(""), 1);
}

#[test]
fn plan_for_texts_stays_in_bands() {
    // "hello world" has 2 words; "a short answer here" has 4.
    let (plan, iw, rw) = plan_for_texts("hello world", "a short answer here");
    assert_eq!(iw, 2);
    assert_eq!(rw, 4);
    assert!(plan.typing_ms >= 4 * 60000 / 180);
    assert!(plan.typing_ms <= 4 * 60000 / 80);
    assert!(plan.reading_ms >= 2 * 60000 / 250);
    assert!(plan.reading_ms <= 2 * 60000 / 180);
    assert!(plan.thinking_ms >= 4 * 60000 / 3000);
    assert!(plan.thinking_ms <= 4 * 60000 / 1000);
}

#[test]
fn rand_between_within_bounds() {
    for _ in 0..100 {
        let r = rand_between(10, 20);
        assert!((10..=20).contains(&r));
    }
}

#[test]
fn rand_between_swapped_arguments() {
    for _ in 0..100 {
        let r = rand_between(20, 10);
        assert!((10..=20).contains(&r));
    }
}

#[test]
fn rand_between_degenerate_range() {
    assert_eq!(rand_between(7, 7), 7);
}

#[test]
fn draws_actually_vary() {
    // A draw over a wide range returns more than one distinct value across
    // attempts (astronomically unlikely to fail for a real uniform draw).
    let first = rand_between(0, u64::from(u32::MAX));
    let mut saw_other = false;
    for _ in 0..64 {
        if rand_between(0, u64::from(u32::MAX)) != first {
            saw_other = true;
            break;
        }
    }
    assert!(saw_other);
}

#[test]
fn remaining_typing_subtracts_elapsed() {
    assert_eq!(remaining_typing_ms(5000, 1200), 3800);
}

#[test]
fn remaining_typing_clamps_at_zero() {
    assert_eq!(remaining_typing_ms(5000, 9000), 0);
    assert_eq!(remaining_typing_ms(5000, 5000), 0);
}
