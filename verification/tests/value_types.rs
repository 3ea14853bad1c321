use todos::app_error::AppError;
use todos::deadline::{OptionalDeadlineInput, USER_DATE_TIME_FORMAT};
use todos::result_limit::OptionalResultLimit;
use todos::title::{Title, MAX_TITLE_LEN};

fn assert_limit(actual: OptionalResultLimit, expected: u32) {
    assert_eq!(actual.validated().unwrap(), expected as usize);
}

#[test]
fn validated_should_return_the_same_value_when_it_is_within_range() {
    let n = 20;
    assert_limit(OptionalResultLimit::some(n), n);
}

#[test]
fn validated_should_return_default_when_it_is_not_provided() {
    assert_limit(OptionalResultLimit::none(), 10);
}

#[test]
fn validated_should_return_default_when_it_is_zero() {
    assert_limit(OptionalResultLimit::some(0), 10);
}

#[test]
fn validated_should_return_max_when_a_greater_value_is_provided() {
    assert_limit(OptionalResultLimit::some(101), 100);
}

#[test]
fn unix_time_should_succeed_with_none_when_input_is_none() {
    let deadline = OptionalDeadlineInput::none();
    let actual = deadline.unix_time().unwrap();
    assert_eq!(actual, None);
}

#[test]
fn unix_time_resolves_epoch_of_2022_01_01_09() {
    let deadline = OptionalDeadlineInput::some("2022-01-01 09");
    assert_eq!(deadline.unix_time().unwrap().unwrap(), 1_641_027_600);
}

#[test]
fn unix_time_resolves_epoch_origin() {
    let deadline = OptionalDeadlineInput::some("1970-01-01 00");
    assert_eq!(deadline.unix_time().unwrap().unwrap(), 0);
}

#[test]
fn unix_time_trims_its_input() {
    let deadline = OptionalDeadlineInput::some("  2222-12-31 23  ");
    assert_eq!(deadline.unix_time().unwrap().unwrap(), 7_983_874_800);
}

fn assert_parse_fails(input: &str) {
    let deadline = OptionalDeadlineInput::some(input);
    let expected = AppError::DateTimeParseError {
        input: input.to_string(),
        expected_format: USER_DATE_TIME_FORMAT.to_string(),
    };
    assert_eq!(deadline.unix_time().unwrap_err(), expected);
}

#[test]
fn unix_time_fails_on_text_that_is_not_a_date() {
    assert_parse_fails("abc");
}

#[test]
fn unix_time_fails_without_an_hour() {
    assert_parse_fails("2022-01-01");
}

#[test]
fn unix_time_fails_on_a_calendar_invalid_date() {
    assert_parse_fails("2021-02-29 01");
}

#[test]
fn unix_time_accepts_a_leap_day_in_a_leap_year() {
    let deadline = OptionalDeadlineInput::some("2020-02-29 01");
    assert_eq!(deadline.unix_time().unwrap().unwrap(), 1_582_938_000);
}

#[test]
fn unix_time_fails_on_hour_out_of_range() {
    assert_parse_fails("2022-01-01 24");
}

#[test]
fn title_validated_trims_and_returns_text() {
    let title = Title::new("  keep me  ".to_string());
    assert_eq!(title.validated().unwrap(), "keep me");
}

#[test]
fn title_validated_fails_when_blank() {
    let title = Title::new("   ".to_string());
    assert_eq!(title.validated().unwrap_err(), AppError::EmptyTodoTitle);
}

#[test]
fn title_validated_fails_when_over_the_maximum() {
    let text = "b".repeat(MAX_TITLE_LEN + 1);
    let title = Title::new(text.clone());
    let expected = AppError::TooLongTodoTitle {
        input: text,
        expected_len: MAX_TITLE_LEN,
    };
    assert_eq!(title.validated().unwrap_err(), expected);
}

#[test]
fn title_validated_accepts_exactly_the_maximum() {
    let text = "c".repeat(MAX_TITLE_LEN);
    let title = Title::new(text.clone());
    assert_eq!(title.validated().unwrap(), text);
}
