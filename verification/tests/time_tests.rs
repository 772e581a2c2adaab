use keep_tasks::calendar::{parse_field, parse_hhmm, push_time_char, Date, TimeOfDay};
use keep_tasks::text::trim;

fn tc(s: &str) -> Vec<char> {
    s.chars().collect()
}

#[test]
fn parse_accepts_strict_hhmm() {
    assert_eq!(parse_hhmm(&tc("09:30")), Some(TimeOfDay::new(9, 30)));
    assert_eq!(parse_hhmm(&tc("00:00")), Some(TimeOfDay::new(0, 0)));
    assert_eq!(parse_hhmm(&tc("23:59")), Some(TimeOfDay::new(23, 59)));
}

#[test]
fn parse_rejects_short_minute_field() {
    assert_eq!(parse_hhmm(&tc("13:5")), None);
}

#[test]
fn parse_rejects_malformed_literals() {
    assert_eq!(parse_hhmm(&tc("")), None);
    assert_eq!(parse_hhmm(&tc("9:30")), None);
    assert_eq!(parse_hhmm(&tc("24:00")), None);
    assert_eq!(parse_hhmm(&tc("12:60")), None);
    assert_eq!(parse_hhmm(&tc("ab:cd")), None);
    assert_eq!(parse_hhmm(&tc("12-30")), None);
    assert_eq!(parse_hhmm(&tc("123:0")), None);
}

#[test]
fn parse_field_trims_before_parsing() {
    assert_eq!(parse_field(&tc("  07:45 ")), Some(TimeOfDay::new(7, 45)));
    assert_eq!(parse_field(&tc("   ")), None);
    assert_eq!(parse_field(&tc(" 13:5 ")), None);
}

#[test]
fn render_is_the_inverse_of_parse() {
    let t = TimeOfDay::new(8, 5);
    let lit: String = t.render().iter().collect();
    assert_eq!(lit, "08:05");
    assert_eq!(parse_hhmm(&t.render()), Some(t));
    let u = TimeOfDay::new(23, 59);
    assert_eq!(parse_hhmm(&u.render()), Some(u));
}

#[test]
fn date_order_is_calendar_order() {
    let a = Date::new(2023, 12, 31);
    let b = Date::new(2024, 1, 1);
    let c = Date::new(2024, 1, 2);
    assert!(a.before(&b));
    assert!(b.before(&c));
    assert!(!c.before(&b));
    assert!(!b.before(&b));
}

#[test]
fn time_order_is_lexicographic() {
    let a = TimeOfDay::new(8, 30);
    let b = TimeOfDay::new(9, 0);
    assert!(a.le(&b));
    assert!(!b.le(&a));
    assert!(a.le(&a));
}

#[test]
fn push_time_char_filters_and_caps() {
    let mut field: Vec<char> = Vec::new();
    push_time_char(&mut field, '1');
    push_time_char(&mut field, 'x');
    push_time_char(&mut field, '2');
    push_time_char(&mut field, ':');
    push_time_char(&mut field, '3');
    push_time_char(&mut field, '0');
    assert_eq!(field, tc("12:30"));
    // a sixth acceptable character no longer fits
    push_time_char(&mut field, '9');
    assert_eq!(field, tc("12:30"));
}

#[test]
fn trim_strips_both_ends_only() {
    assert_eq!(trim(&tc("  a b  ")), tc("a b"));
    assert_eq!(trim(&tc("\t\n")), tc(""));
    assert_eq!(trim(&tc("x")), tc("x"));
    assert_eq!(trim(&tc("")), tc(""));
}
