//! Turning the operator's answers into a validated configuration.
use vstd::prelude::*;
use crate::model::{Config, Credentials, Filters, ScraperConfig, SearchConfig, Secrets};
use crate::text::{
    blank, cents_of, lemma_separators_give_nothing, white, chars_of, lemma_entries_not_blank, list_entries, split_list, texts, trim_bounds, trim, uint_of,
    parse_cents, parse_uint,
};

verus! {

/// The field that a validation error is about.
#[derive(Clone, Copy, Debug, PartialEq, Eq, Structural)]
pub enum Field {
    Category,
    MinPrice,
    MaxPrice,
    MinRooms,
    MaxRooms,
    Locations,
    /// The two price bounds together.
    Price,
    /// The two room counts together.
    Rooms,
    ApiToken,
    ChatId,
}

#[derive(Clone, Copy, Debug, PartialEq, Eq, Structural)]
pub enum Reason {
    /// Nothing but whitespace was given.
    Empty,
    /// The text is not a number of the field's type.
    NotANumber,
    /// The lower bound exceeds the upper bound.
    OutOfOrder,
}

#[derive(Clone, Copy, Debug, PartialEq, Eq, Structural)]
pub struct ValidationError {
    pub field: Field,
    pub reason: Reason,
}

/// What the operator answered, one text per prompt, and whether
/// notifications were asked for.
#[derive(Clone, Debug)]
pub struct Answers {
    pub category: String,
    pub min_price: String,
    pub max_price: String,
    pub min_rooms: String,
    pub max_rooms: String,
    pub locations: String,
    pub notify: bool,
    pub api_token: String,
    pub chat_id: String,
}

pub open spec fn err(field: Field, reason: Reason) -> Option<ValidationError> {
    Some(ValidationError { field, reason })
}

/// The first rule that the answers break, checked in order: the category,
/// each number, the location list, the price order, the room order, and the
/// credentials when notifications were asked for.
pub open spec fn first_error(a: Answers) -> Option<ValidationError> {
    if blank(a.category@) {
        err(Field::Category, Reason::Empty)
    } else if cents_of(a.min_price@) is None {
        err(Field::MinPrice, Reason::NotANumber)
    } else if cents_of(a.max_price@) is None {
        err(Field::MaxPrice, Reason::NotANumber)
    } else if uint_of(a.min_rooms@, 255) is None {
        err(Field::MinRooms, Reason::NotANumber)
    } else if uint_of(a.max_rooms@, 255) is None {
        err(Field::MaxRooms, Reason::NotANumber)
    } else if list_entries(a.locations@).len() == 0 {
        err(Field::Locations, Reason::Empty)
    } else if cents_of(a.min_price@).unwrap() > cents_of(a.max_price@).unwrap() {
        err(Field::Price, Reason::OutOfOrder)
    } else if uint_of(a.min_rooms@, 255).unwrap() > uint_of(a.max_rooms@, 255).unwrap() {
        err(Field::Rooms, Reason::OutOfOrder)
    } else if a.notify && blank(a.api_token@) {
        err(Field::ApiToken, Reason::Empty)
    } else if a.notify && blank(a.chat_id@) {
        err(Field::ChatId, Reason::Empty)
    } else {
        None
    }
}

/// The configuration that valid answers describe, the scraper settings
/// taken from the baseline.
pub open spec fn built_from(a: Answers, baseline: ScraperConfig, c: Config, s: Secrets) -> bool {
    &&& c.search.category@ == a.category@
    &&& c.search.filters.min_price as nat == cents_of(a.min_price@).unwrap()
    &&& c.search.filters.max_price as nat == cents_of(a.max_price@).unwrap()
    &&& c.search.filters.min_rooms as nat == uint_of(a.min_rooms@, 255).unwrap()
    &&& c.search.filters.max_rooms as nat == uint_of(a.max_rooms@, 255).unwrap()
    &&& texts(c.search.locations@) == list_entries(a.locations@)
    &&& c.scraper.interval == baseline.interval
    &&& c.scraper.max_retries == baseline.max_retries
    &&& c.scraper.retry_delay == baseline.retry_delay
    &&& c.scraper.user_agent@ == baseline.user_agent@
    &&& if a.notify {
        s.telegram matches Some(t) && t.api_token@ == a.api_token@ && t.chat_id@ == a.chat_id@
    } else {
        s.telegram is None
    }
}

/// Answers whose every field reads as its type, with at least one location.
pub open spec fn readable(a: Answers) -> bool {
    &&& !blank(a.category@)
    &&& cents_of(a.min_price@) is Some
    &&& cents_of(a.max_price@) is Some
    &&& uint_of(a.min_rooms@, 255) is Some
    &&& uint_of(a.max_rooms@, 255) is Some
    &&& list_entries(a.locations@).len() > 0
}

/// Credentials given whenever notifications were asked for.
pub open spec fn credentials_given(a: Answers) -> bool {
    a.notify ==> !blank(a.api_token@) && !blank(a.chat_id@)
}

/// Of readable answers, a minimum price above the maximum is refused with an
/// error naming the price bounds; ordered prices and ordered room counts are
/// accepted.
pub proof fn lemma_price_order(a: Answers)
    requires
        readable(a),
        credentials_given(a),
    ensures
        cents_of(a.min_price@).unwrap() > cents_of(a.max_price@).unwrap()
            ==> first_error(a) == err(Field::Price, Reason::OutOfOrder),
        cents_of(a.min_price@).unwrap() <= cents_of(a.max_price@).unwrap()
            && uint_of(a.min_rooms@, 255).unwrap() <= uint_of(a.max_rooms@, 255).unwrap()
            ==> first_error(a) is None,
{
}

/// Of readable answers with ordered prices, a minimum room count above the
/// maximum is refused with an error naming the room counts.
pub proof fn lemma_room_order(a: Answers)
    requires
        readable(a),
        cents_of(a.min_price@).unwrap() <= cents_of(a.max_price@).unwrap(),
    ensures
        uint_of(a.min_rooms@, 255).unwrap() > uint_of(a.max_rooms@, 255).unwrap()
            ==> first_error(a) == err(Field::Rooms, Reason::OutOfOrder),
{
}

/// A location answer of nothing but commas and whitespace is refused as an
/// empty list, once the fields before it read.
pub proof fn lemma_separators_only(a: Answers)
    requires
        !blank(a.category@),
        cents_of(a.min_price@) is Some,
        cents_of(a.max_price@) is Some,
        uint_of(a.min_rooms@, 255) is Some,
        uint_of(a.max_rooms@, 255) is Some,
        forall|i: int| 0 <= i < a.locations@.len() ==> #[trigger] a.locations@[i] == ',' || white(a.locations@[i]),
    ensures
        first_error(a) == err(Field::Locations, Reason::Empty),
{
    lemma_separators_give_nothing(a.locations@);
}

fn is_blank(s: &String) -> (r: bool)
    ensures
        r == blank(s@),
{
    let cs = chars_of(s.as_str());
    let (a, b) = trim_bounds(&cs, 0, cs.len());
    proof {
        assert(cs@.subrange(0, cs@.len() as int) =~= cs@);
    }
    a == b
}

fn cents_field(s: &String) -> (r: Option<u64>)
    ensures
        r matches Some(v) ==> cents_of(s@) == Some(v as nat),
        r is None ==> cents_of(s@) is None,
{
    let cs = chars_of(s.as_str());
    proof {
        assert(cs@.subrange(0, cs@.len() as int) =~= cs@);
    }
    parse_cents(&cs, 0, cs.len())
}

fn rooms_field(s: &String) -> (r: Option<u8>)
    ensures
        r matches Some(v) ==> uint_of(s@, 255) == Some(v as nat),
        r is None ==> uint_of(s@, 255) is None,
{
    let cs = chars_of(s.as_str());
    proof {
        assert(cs@.subrange(0, cs@.len() as int) =~= cs@);
    }
    match parse_uint(&cs, 0, cs.len(), 255) {
        Some(v) => Some(v as u8),
        None => None,
    }
}

/// Validates the answers and builds the configuration and secrets, failing on
/// the first rule broken; nothing is clamped or repaired.
pub fn build(a: &Answers, baseline: &ScraperConfig) -> (r: Result<(Config, Secrets), ValidationError>)
    requires
        baseline.wf(),
    ensures
        match r {
            Ok((c, s)) => first_error(*a) is None && built_from(*a, *baseline, c, s) && c.wf()
                && s.wf(),
            Err(e) => first_error(*a) == Some(e),
        },
{
    if is_blank(&a.category) {
        return Err(ValidationError { field: Field::Category, reason: Reason::Empty });
    }
    let min_price = match cents_field(&a.min_price) {
        Some(v) => v,
        None => { return Err(ValidationError { field: Field::MinPrice, reason: Reason::NotANumber }); },
    };
    let max_price = match cents_field(&a.max_price) {
        Some(v) => v,
        None => { return Err(ValidationError { field: Field::MaxPrice, reason: Reason::NotANumber }); },
    };
    let min_rooms = match rooms_field(&a.min_rooms) {
        Some(v) => v,
        None => { return Err(ValidationError { field: Field::MinRooms, reason: Reason::NotANumber }); },
    };
    let max_rooms = match rooms_field(&a.max_rooms) {
        Some(v) => v,
        None => { return Err(ValidationError { field: Field::MaxRooms, reason: Reason::NotANumber }); },
    };
    let locations = split_list(&chars_of(a.locations.as_str()));
    if locations.len() == 0 {
        return Err(ValidationError { field: Field::Locations, reason: Reason::Empty });
    }
    if min_price > max_price {
        return Err(ValidationError { field: Field::Price, reason: Reason::OutOfOrder });
    }
    if min_rooms > max_rooms {
        return Err(ValidationError { field: Field::Rooms, reason: Reason::OutOfOrder });
    }
    let telegram = if a.notify {
        if is_blank(&a.api_token) {
            return Err(ValidationError { field: Field::ApiToken, reason: Reason::Empty });
        }
        if is_blank(&a.chat_id) {
            return Err(ValidationError { field: Field::ChatId, reason: Reason::Empty });
        }
        Some(Credentials { api_token: a.api_token.clone(), chat_id: a.chat_id.clone() })
    } else {
        None
    };
    proof {
        lemma_entries_not_blank(a.locations@);
    }
    let config = Config {
        search: SearchConfig {
            category: a.category.clone(),
            filters: Filters { min_price, max_price, min_rooms, max_rooms },
            locations,
        },
        scraper: ScraperConfig {
            interval: baseline.interval,
            max_retries: baseline.max_retries,
            retry_delay: baseline.retry_delay,
            user_agent: baseline.user_agent.clone(),
        },
    };
    Ok((config, Secrets { telegram }))
}

} // verus!
