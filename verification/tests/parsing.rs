use inquire::answer::Answer;
use inquire::backend::fake_backend;
use inquire::custom_type::parse_i64;
use inquire::dateselect::{CalendarDate, DatePrompt};
use inquire::editor::EditorPrompt;
use inquire::key::Key;
use inquire::prompt::{Outcome, Prompt};
use inquire::textutil::{contains_ci_exec, filtered_indices};
use inquire::validator::Validator;

fn chars(s: &str) -> Vec<char> {
    s.chars().collect()
}

#[test]
fn parse_i64_accepts_plain_decimals() {
    assert_eq!(parse_i64(&chars("0")), Some(0));
    assert_eq!(parse_i64(&chars("42")), Some(42));
    assert_eq!(parse_i64(&chars("-7")), Some(-7));
    assert_eq!(parse_i64(&chars("007")), Some(7));
}

#[test]
fn parse_i64_covers_the_full_range() {
    assert_eq!(parse_i64(&chars("9223372036854775807")), Some(i64::MAX));
    assert_eq!(parse_i64(&chars("-9223372036854775808")), Some(i64::MIN));
    assert_eq!(parse_i64(&chars("9223372036854775808")), None);
    assert_eq!(parse_i64(&chars("-9223372036854775809")), None);
    assert_eq!(parse_i64(&chars("99999999999999999999999")), None);
}

#[test]
fn parse_i64_rejects_malformed_input() {
    assert_eq!(parse_i64(&chars("")), None);
    assert_eq!(parse_i64(&chars("-")), None);
    assert_eq!(parse_i64(&chars("12a")), None);
    assert_eq!(parse_i64(&chars("a12")), None);
    assert_eq!(parse_i64(&chars("1 2")), None);
    assert_eq!(parse_i64(&chars("+3")), None);
}

#[test]
fn contains_ci_matches_substrings_ignoring_ascii_case() {
    assert!(contains_ci_exec(&chars("Banana"), &chars("NAN")));
    assert!(contains_ci_exec(&chars("banana"), &chars("")));
    assert!(contains_ci_exec(&chars("abc"), &chars("abc")));
    assert!(!contains_ci_exec(&chars("abc"), &chars("abcd")));
    assert!(!contains_ci_exec(&chars("apple"), &chars("an")));
}

#[test]
fn filtered_indices_keeps_set_positions_in_order() {
    let flags = vec![true, false, true, true, false];
    assert_eq!(filtered_indices(&flags), vec![0, 2, 3]);
    assert_eq!(filtered_indices(&Vec::new()), Vec::<usize>::new());
}

#[test]
fn editor_round_trip_validates_the_reloaded_text() {
    let mut e = EditorPrompt::new("notes?", "draft")
        .with_validators(vec![Validator::Required("write something".to_string())]);
    assert_eq!(e.text_to_edit(), "draft");
    e.reload("");
    assert_eq!(e.submit(), None);
    assert_eq!(e.error, Some("write something".to_string()));
    e.reload("final text");
    assert_eq!(e.submit(), Some("final text".to_string()));
}

#[test]
fn date_navigation_rolls_over_month_and_year() {
    let start = CalendarDate::new(2023, 12, 31).unwrap();
    let mut p = DatePrompt::new("when?", start);
    p.handle_key(Key::Right);
    assert_eq!(p.date, CalendarDate { year: 2024, month: 1, day: 1 });
    p.handle_key(Key::Left);
    assert_eq!(p.date, CalendarDate { year: 2023, month: 12, day: 31 });
    p.handle_key(Key::Down);
    assert_eq!(p.date, CalendarDate { year: 2024, month: 1, day: 7 });
    p.handle_key(Key::Up);
    assert_eq!(p.date, CalendarDate { year: 2023, month: 12, day: 31 });
}

#[test]
fn date_month_jump_clamps_the_day() {
    let start = CalendarDate::new(2024, 1, 31).unwrap();
    let mut p = DatePrompt::new("when?", start);
    p.handle_key(Key::PageDown);
    // 2024 is a leap year: January 31st clamps to February 29th.
    assert_eq!(p.date, CalendarDate { year: 2024, month: 2, day: 29 });
    p.handle_key(Key::PageUp);
    assert_eq!(p.date, CalendarDate { year: 2024, month: 1, day: 29 });
}

#[test]
fn date_submission_respects_bounds() {
    let start = CalendarDate::new(2024, 6, 1).unwrap();
    let lo = CalendarDate::new(2024, 6, 3).unwrap();
    // Two days forward are needed before the date passes the minimum.
    let mut backend = fake_backend(vec![Key::Enter, Key::Right, Key::Right, Key::Enter]);
    let mut prompt = Prompt::Date(DatePrompt::new("when?", start).with_min(lo));
    let result = prompt.prompt_with(&mut backend);
    assert_eq!(
        result,
        Ok(Outcome::Submitted(Answer::Date(CalendarDate { year: 2024, month: 6, day: 3 })))
    );
}

#[test]
fn invalid_date_numbers_are_rejected() {
    assert!(CalendarDate::new(2023, 2, 29).is_none());
    assert!(CalendarDate::new(2024, 2, 29).is_some());
    assert!(CalendarDate::new(2024, 13, 1).is_none());
    assert!(CalendarDate::new(2024, 0, 1).is_none());
    assert!(CalendarDate::new(0, 1, 1).is_none());
}
