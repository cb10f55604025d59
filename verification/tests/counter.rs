use persistent_counter::counter::{Counter, CounterError};
use persistent_counter::date::Date;

fn date(year: i32, month: u32, day: u32) -> Date {
    Date::new(year, month, day).expect("valid date")
}

#[test]
fn fresh_image_loads_zero() {
    let counter = Counter::new(b"0").expect("valid content");
    assert_eq!(counter.get(), 0);
    assert_eq!(counter.content(), b"0".to_vec());
}

#[test]
fn loads_stored_value() {
    let counter = Counter::new(b"123").expect("valid content");
    assert_eq!(counter.get(), 123);
}

#[test]
fn leading_zeros_are_accepted() {
    let counter = Counter::new(b"007").expect("valid content");
    assert_eq!(counter.get(), 7);
}

#[test]
fn rejects_corrupt_content() {
    assert_eq!(Counter::new(b"").unwrap_err(), CounterError::InvalidContent);
    assert_eq!(Counter::new(b"12a").unwrap_err(), CounterError::InvalidContent);
    assert_eq!(Counter::new(b"-1").unwrap_err(), CounterError::InvalidContent);
    assert_eq!(Counter::new(b"1 ").unwrap_err(), CounterError::InvalidContent);
    assert_eq!(
        Counter::new(b"99999999999999999999999999").unwrap_err(),
        CounterError::InvalidContent
    );
}

#[test]
fn increase_adds_and_persists() {
    let mut counter = Counter::new(b"40").expect("valid content");
    assert_eq!(counter.increase(2), Ok(()));
    assert_eq!(counter.get(), 42);
    assert_eq!(counter.content(), b"42".to_vec());
    let reloaded = Counter::new(&counter.content()).expect("round trip");
    assert_eq!(reloaded.get(), 42);
}

#[test]
fn decrease_below_zero_fails() {
    let mut counter = Counter::new(b"3").expect("valid content");
    assert_eq!(counter.decrease(5), Err(CounterError::Underflow));
    assert_eq!(counter.get(), 3);
    assert_eq!(counter.content(), b"3".to_vec());
}

#[test]
fn increase_at_maximum_fails() {
    let max_image = usize::MAX.to_string().into_bytes();
    let mut counter = Counter::new(&max_image).expect("valid content");
    assert_eq!(counter.get(), usize::MAX);
    assert_eq!(counter.increase(1), Err(CounterError::Overflow));
    assert_eq!(counter.get(), usize::MAX);
    assert_eq!(counter.increase(0), Ok(()));
    assert_eq!(counter.get(), usize::MAX);
}

#[test]
fn restart_loads_last_persisted_value() {
    let mut counter = Counter::new(b"0").expect("valid content");
    assert_eq!(counter.increase(10), Ok(()));
    assert_eq!(counter.decrease(3), Ok(()));
    assert_eq!(counter.increase(500), Ok(()));
    let image = counter.content();
    let reloaded = Counter::new(&image).expect("round trip");
    assert_eq!(reloaded.get(), counter.get());
    assert_eq!(reloaded.get(), 507);
}

#[test]
fn update_one_month_later_adds_one() {
    let mut counter = Counter::new(b"0").expect("valid content");
    assert_eq!(counter.get(), 0);
    assert_eq!(counter.update(date(2023, 1, 15), date(2023, 2, 15)), Ok(()));
    assert_eq!(counter.get(), 1);
}

#[test]
fn update_from_december_crosses_year() {
    let mut counter = Counter::new(b"5").expect("valid content");
    assert_eq!(counter.update(date(2023, 12, 30), date(2024, 2, 11)), Ok(()));
    assert_eq!(counter.get(), 7);
}

#[test]
fn update_same_day_rewrites_without_change() {
    let mut counter = Counter::new(b"9").expect("valid content");
    assert_eq!(counter.update(date(2024, 7, 4), date(2024, 7, 4)), Ok(()));
    assert_eq!(counter.get(), 9);
    assert_eq!(counter.content(), b"9".to_vec());
}

#[test]
fn update_rejects_bad_dates() {
    let mut counter = Counter::new(b"8").expect("valid content");
    // Out of order.
    assert_eq!(
        counter.update(date(2024, 3, 1), date(2024, 2, 1)),
        Err(CounterError::InvalidDate)
    );
    // Months decrease across a year boundary without a December start.
    assert_eq!(
        counter.update(date(2023, 5, 1), date(2024, 2, 1)),
        Err(CounterError::InvalidDate)
    );
    assert_eq!(counter.get(), 8);
}

#[test]
fn update_overflow_leaves_value() {
    let max_image = usize::MAX.to_string().into_bytes();
    let mut counter = Counter::new(&max_image).expect("valid content");
    assert_eq!(
        counter.update(date(2023, 1, 1), date(2023, 2, 1)),
        Err(CounterError::Overflow)
    );
    assert_eq!(counter.get(), usize::MAX);
}

#[test]
fn increase_then_decrease_returns_to_zero() {
    let mut counter = Counter::new(b"0").expect("valid content");
    assert_eq!(counter.increase(5), Ok(()));
    assert_eq!(counter.get(), 5);
    assert_eq!(counter.decrease(5), Ok(()));
    assert_eq!(counter.get(), 0);
    assert_eq!(counter.content(), b"0".to_vec());
}

#[test]
fn update_from_millis_bounded_by_a_year() {
    // 2023-01-01 00:00:00 UTC: a January start can never be refused for month
    // order, so the tick must succeed and add at most eleven.
    let mut counter = Counter::new(b"0").expect("valid content");
    assert_eq!(counter.update_from_millis(1_672_531_200_000), Ok(()));
    assert!(counter.get() <= 11);
}
