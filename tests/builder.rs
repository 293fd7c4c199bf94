use scraper_setup::builder::{build, Answers, Field, Reason, ValidationError};
use scraper_setup::model::default_config;
use scraper_setup::text::{parse_cents, parse_uint, split_list, trim_range};

fn chars(s: &str) -> Vec<char> {
    s.chars().collect()
}

fn answers(min_price: &str, max_price: &str, min_rooms: &str, max_rooms: &str, locations: &str) -> Answers {
    Answers {
        category: "mietwohnungen".to_string(),
        min_price: min_price.to_string(),
        max_price: max_price.to_string(),
        min_rooms: min_rooms.to_string(),
        max_rooms: max_rooms.to_string(),
        locations: locations.to_string(),
        notify: false,
        api_token: String::new(),
        chat_id: String::new(),
    }
}

fn err(field: Field, reason: Reason) -> ValidationError {
    ValidationError { field, reason }
}

#[test]
fn locations_are_trimmed_and_split() {
    let v = split_list(&chars(" A , B ,C "));
    assert_eq!(v, vec!["A".to_string(), "B".to_string(), "C".to_string()]);
}

#[test]
fn empty_pieces_are_dropped() {
    let v = split_list(&chars(",, Wien ,\t, Graz,"));
    assert_eq!(v, vec!["Wien".to_string(), "Graz".to_string()]);
}

#[test]
fn separators_only_is_an_empty_list() {
    assert!(split_list(&chars(" , ,, \t ")).is_empty());
    let r = build(&answers("500", "1200", "2", "5", " , ,, "), &default_config().scraper);
    assert_eq!(r.unwrap_err(), err(Field::Locations, Reason::Empty));
}

#[test]
fn trim_uses_unicode_whitespace() {
    assert_eq!(trim_range(&chars("\u{3000} Wien\u{a0}\n"), 0, 8), "Wien");
}

#[test]
fn ordered_prices_and_rooms_are_accepted() {
    let base = default_config();
    let (c, s) = build(&answers("500", "1200.5", "2", "5", "Wien, Graz"), &base.scraper).unwrap();
    assert_eq!(c.search.category, "mietwohnungen");
    assert_eq!(c.search.filters.min_price, 50000);
    assert_eq!(c.search.filters.max_price, 120050);
    assert_eq!(c.search.filters.min_rooms, 2);
    assert_eq!(c.search.filters.max_rooms, 5);
    assert_eq!(c.search.locations, vec!["Wien".to_string(), "Graz".to_string()]);
    assert_eq!(c.scraper.interval, 180_000);
    assert_eq!(c.scraper.max_retries, 3);
    assert_eq!(c.scraper.retry_delay, 30_000);
    assert_eq!(c.scraper.user_agent, base.scraper.user_agent);
    assert!(s.telegram.is_none());
}

#[test]
fn equal_bounds_are_accepted() {
    let r = build(&answers("700.25", "700.25", "3", "3", "Wien"), &default_config().scraper);
    let (c, _) = r.unwrap();
    assert_eq!(c.search.filters.min_price, 70025);
    assert_eq!(c.search.filters.max_price, 70025);
}

#[test]
fn price_out_of_order_names_the_prices() {
    let r = build(&answers("1300", "1200", "2", "5", "Wien"), &default_config().scraper);
    assert_eq!(r.unwrap_err(), err(Field::Price, Reason::OutOfOrder));
}

#[test]
fn rooms_out_of_order_names_the_rooms() {
    let r = build(&answers("500", "1200", "6", "5", "Wien"), &default_config().scraper);
    assert_eq!(r.unwrap_err(), err(Field::Rooms, Reason::OutOfOrder));
}

#[test]
fn price_order_is_checked_before_rooms() {
    let r = build(&answers("1300", "1200", "6", "5", "Wien"), &default_config().scraper);
    assert_eq!(r.unwrap_err(), err(Field::Price, Reason::OutOfOrder));
}

#[test]
fn locations_are_checked_before_order() {
    let r = build(&answers("1300", "1200", "6", "5", ","), &default_config().scraper);
    assert_eq!(r.unwrap_err(), err(Field::Locations, Reason::Empty));
}

#[test]
fn unreadable_numbers_are_refused() {
    let base = default_config();
    assert_eq!(build(&answers("abc", "1200", "2", "5", "W"), &base.scraper).unwrap_err(), err(Field::MinPrice, Reason::NotANumber));
    assert_eq!(build(&answers("500", "12.345", "2", "5", "W"), &base.scraper).unwrap_err(), err(Field::MaxPrice, Reason::NotANumber));
    assert_eq!(build(&answers("500", "1200", "-1", "5", "W"), &base.scraper).unwrap_err(), err(Field::MinRooms, Reason::NotANumber));
    assert_eq!(build(&answers("500", "1200", "2", "256", "W"), &base.scraper).unwrap_err(), err(Field::MaxRooms, Reason::NotANumber));
    assert_eq!(build(&answers("", "1200", "2", "5", "W"), &base.scraper).unwrap_err(), err(Field::MinPrice, Reason::NotANumber));
}

#[test]
fn blank_category_is_refused() {
    let mut a = answers("500", "1200", "2", "5", "Wien");
    a.category = "  ".to_string();
    assert_eq!(build(&a, &default_config().scraper).unwrap_err(), err(Field::Category, Reason::Empty));
}

#[test]
fn notifications_need_both_credentials() {
    let base = default_config();
    let mut a = answers("500", "1200", "2", "5", "Wien");
    a.notify = true;
    a.chat_id = "42".to_string();
    assert_eq!(build(&a, &base.scraper).unwrap_err(), err(Field::ApiToken, Reason::Empty));
    a.api_token = "SECRET-REDACTED".to_string();
    a.chat_id = " ".to_string();
    assert_eq!(build(&a, &base.scraper).unwrap_err(), err(Field::ChatId, Reason::Empty));
    a.chat_id = "42".to_string();
    let (_, s) = build(&a, &base.scraper).unwrap();
    let t = s.telegram.unwrap();
    assert_eq!(t.api_token, "SECRET-REDACTED");
    assert_eq!(t.chat_id, "42");
}

#[test]
fn declined_notifications_carry_no_credentials() {
    let mut a = answers("500", "1200", "2", "5", "Wien");
    a.api_token = "ignored".to_string();
    let (_, s) = build(&a, &default_config().scraper).unwrap();
    assert!(s.telegram.is_none());
}

#[test]
fn numbers_parse_exactly() {
    assert_eq!(parse_cents(&chars("499.9"), 0, 5), Some(49990));
    assert_eq!(parse_cents(&chars("499.95"), 0, 6), Some(49995));
    assert_eq!(parse_cents(&chars("0"), 0, 1), Some(0));
    assert_eq!(parse_cents(&chars(".5"), 0, 2), None);
    assert_eq!(parse_cents(&chars("5."), 0, 2), None);
    assert_eq!(parse_cents(&chars("184467440737095516.15"), 0, 21), Some(18446744073709551615));
    assert_eq!(parse_cents(&chars("184467440737095516.16"), 0, 21), None);
    assert_eq!(parse_uint(&chars("255"), 0, 3, 255), Some(255));
    assert_eq!(parse_uint(&chars("0255"), 0, 4, 255), Some(255));
    assert_eq!(parse_uint(&chars("256"), 0, 3, 255), None);
    assert_eq!(parse_uint(&chars("99999999999999999999"), 0, 20, u64::MAX), None);
}

#[test]
fn baseline_defaults() {
    let c = default_config();
    assert_eq!(c.search.category, "mietwohnungen");
    assert_eq!(c.search.filters.min_price, 50000);
    assert_eq!(c.search.filters.max_price, 120000);
    assert_eq!(c.search.locations.len(), 3);
    assert_eq!(c.search.locations[0], "Wien, 02. Bezirk, Leopoldstadt");
}
