//! The configuration and secrets that an install writes, and their invariants.
use vstd::prelude::*;
use crate::text::{blank, lemma_not_blank, texts};

verus! {

/// Price bounds in hundredths of the currency unit, and room counts.
#[derive(Clone, Copy, Debug, PartialEq, Eq, Structural)]
pub struct Filters {
    pub min_price: u64,
    pub max_price: u64,
    pub min_rooms: u8,
    pub max_rooms: u8,
}

#[derive(Clone, Debug)]
pub struct SearchConfig {
    pub category: String,
    pub filters: Filters,
    pub locations: Vec<String>,
}

#[derive(Clone, Debug)]
pub struct ScraperConfig {
    /// Milliseconds between work cycles.
    pub interval: u64,
    pub max_retries: u8,
    /// Milliseconds to wait before a retry.
    pub retry_delay: u64,
    pub user_agent: String,
}

#[derive(Clone, Debug)]
pub struct Config {
    pub search: SearchConfig,
    pub scraper: ScraperConfig,
}

/// Notification credentials: a token and a destination, always together.
#[derive(Clone, Debug)]
pub struct Credentials {
    pub api_token: String,
    pub chat_id: String,
}

#[derive(Clone, Debug)]
pub struct Secrets {
    pub telegram: Option<Credentials>,
}

impl Filters {
    pub open spec fn wf(&self) -> bool {
        self.min_price <= self.max_price && self.min_rooms <= self.max_rooms
    }
}

impl ScraperConfig {
    pub open spec fn wf(&self) -> bool {
        self.interval > 0 && self.user_agent@.len() > 0
    }
}

impl Config {
    /// The invariant of a configuration that may be persisted.
    pub open spec fn wf(&self) -> bool {
        &&& !blank(self.search.category@)
        &&& self.search.filters.wf()
        &&& self.search.locations@.len() >= 1
        &&& forall|i: int| 0 <= i < self.search.locations@.len()
            ==> !blank(#[trigger] texts(self.search.locations@)[i])
        &&& self.scraper.wf()
    }
}

impl Secrets {
    pub open spec fn wf(&self) -> bool {
        self.telegram matches Some(c) ==> !blank(c.api_token@) && !blank(c.chat_id@)
    }
}

/// The built-in baseline: the defaults offered at each prompt and the
/// scraper settings that are not asked for.
pub fn default_config() -> (r: Config)
    ensures
        r.wf(),
        r.search.filters == (Filters { min_price: 50000, max_price: 120000, min_rooms: 2, max_rooms: 5 }),
        r.search.category@ == "mietwohnungen"@,
        texts(r.search.locations@) == seq![
            "Wien, 02. Bezirk, Leopoldstadt"@,
            "Wien, 03. Bezirk, Landstraße"@,
            "Wien, 04. Bezirk, Wieden"@,
        ],
        r.scraper.user_agent@
            == "Mozilla/5.0 (X11; Linux x86_64) AppleWebKit/537.36 (KHTML, like Gecko) Chrome/121.0.0.0"@,
        r.scraper.interval == 180_000,
        r.scraper.max_retries == 3,
        r.scraper.retry_delay == 30_000,
{
    let category = "mietwohnungen".to_owned();
    let mut locations: Vec<String> = Vec::new();
    locations.push("Wien, 02. Bezirk, Leopoldstadt".to_owned());
    locations.push("Wien, 03. Bezirk, Landstraße".to_owned());
    locations.push("Wien, 04. Bezirk, Wieden".to_owned());
    let user_agent = "Mozilla/5.0 (X11; Linux x86_64) AppleWebKit/537.36 (KHTML, like Gecko) Chrome/121.0.0.0".to_owned();
    proof {
        reveal_strlit("mietwohnungen");
        reveal_strlit("Wien, 02. Bezirk, Leopoldstadt");
        reveal_strlit("Wien, 03. Bezirk, Landstraße");
        reveal_strlit("Wien, 04. Bezirk, Wieden");
        reveal_strlit("Mozilla/5.0 (X11; Linux x86_64) AppleWebKit/537.36 (KHTML, like Gecko) Chrome/121.0.0.0");
        lemma_not_blank(category@);
        assert(texts(locations@)[0] == locations@[0]@);
        assert(texts(locations@)[1] == locations@[1]@);
        assert(texts(locations@)[2] == locations@[2]@);
        lemma_not_blank(locations@[0]@);
        lemma_not_blank(locations@[1]@);
        lemma_not_blank(locations@[2]@);
        assert(texts(locations@) =~= seq![
            "Wien, 02. Bezirk, Leopoldstadt"@,
            "Wien, 03. Bezirk, Landstraße"@,
            "Wien, 04. Bezirk, Wieden"@,
        ]);
    }
    Config {
        search: SearchConfig {
            category,
            filters: Filters { min_price: 50000, max_price: 120000, min_rooms: 2, max_rooms: 5 },
            locations,
        },
        scraper: ScraperConfig { interval: 180_000, max_retries: 3, retry_delay: 30_000, user_agent },
    }
}

} // verus!
