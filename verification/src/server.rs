//! The server inventory: the catalogue of countries, the seeded servers of
//! each, the ranking of servers by score, and the lists of favourite and
//! recently used servers.
//!
//! A score is kept as an exact fraction, so that ranking never depends on
//! rounding.

use vstd::prelude::*;
use crate::VpnError;
use crate::text::{
    decimal, differs_from, insert_text, lemma_text_lt_strict_total, push_decimal, push_text,
    remove_text, str_eq, text_less, text_lt, texts, chars_of, copy_list,
};

verus! {

/// A country of the fixed catalogue.
#[derive(Debug, Clone, Copy, PartialEq, Eq, Hash, Structural)]
pub enum Country {
    UnitedStates,
    UnitedKingdom,
    Canada,
    Germany,
    France,
    Netherlands,
    Switzerland,
    Sweden,
    Japan,
    Singapore,
    Australia,
    Brazil,
    India,
    SouthKorea,
    Spain,
    Italy,
    Norway,
    Denmark,
    Finland,
    Poland,
    Turkey,
    UnitedArabEmirates,
    SouthAfrica,
    Mexico,
    Argentina,
}

impl Country {
    /// The two-letter code of the country.
    pub open spec fn code_text(self) -> Seq<char> {
        match self {
            Country::UnitedStates => "US"@,
            Country::UnitedKingdom => "GB"@,
            Country::Canada => "CA"@,
            Country::Germany => "DE"@,
            Country::France => "FR"@,
            Country::Netherlands => "NL"@,
            Country::Switzerland => "CH"@,
            Country::Sweden => "SE"@,
            Country::Japan => "JP"@,
            Country::Singapore => "SG"@,
            Country::Australia => "AU"@,
            Country::Brazil => "BR"@,
            Country::India => "IN"@,
            Country::SouthKorea => "KR"@,
            Country::Spain => "ES"@,
            Country::Italy => "IT"@,
            Country::Norway => "NO"@,
            Country::Denmark => "DK"@,
            Country::Finland => "FI"@,
            Country::Poland => "PL"@,
            Country::Turkey => "TR"@,
            Country::UnitedArabEmirates => "AE"@,
            Country::SouthAfrica => "ZA"@,
            Country::Mexico => "MX"@,
            Country::Argentina => "AR"@,
        }
    }

    /// The display name of the country.
    pub open spec fn name_text(self) -> Seq<char> {
        match self {
            Country::UnitedStates => "United States"@,
            Country::UnitedKingdom => "United Kingdom"@,
            Country::Canada => "Canada"@,
            Country::Germany => "Germany"@,
            Country::France => "France"@,
            Country::Netherlands => "Netherlands"@,
            Country::Switzerland => "Switzerland"@,
            Country::Sweden => "Sweden"@,
            Country::Japan => "Japan"@,
            Country::Singapore => "Singapore"@,
            Country::Australia => "Australia"@,
            Country::Brazil => "Brazil"@,
            Country::India => "India"@,
            Country::SouthKorea => "South Korea"@,
            Country::Spain => "Spain"@,
            Country::Italy => "Italy"@,
            Country::Norway => "Norway"@,
            Country::Denmark => "Denmark"@,
            Country::Finland => "Finland"@,
            Country::Poland => "Poland"@,
            Country::Turkey => "Turkey"@,
            Country::UnitedArabEmirates => "United Arab Emirates"@,
            Country::SouthAfrica => "South Africa"@,
            Country::Mexico => "Mexico"@,
            Country::Argentina => "Argentina"@,
        }
    }

    /// The flag glyph of the country.
    pub open spec fn flag_text(self) -> Seq<char> {
        match self {
            Country::UnitedStates => "🇺🇸"@,
            Country::UnitedKingdom => "🇬🇧"@,
            Country::Canada => "🇨🇦"@,
            Country::Germany => "🇩🇪"@,
            Country::France => "🇫🇷"@,
            Country::Netherlands => "🇳🇱"@,
            Country::Switzerland => "🇨🇭"@,
            Country::Sweden => "🇸🇪"@,
            Country::Japan => "🇯🇵"@,
            Country::Singapore => "🇸🇬"@,
            Country::Australia => "🇦🇺"@,
            Country::Brazil => "🇧🇷"@,
            Country::India => "🇮🇳"@,
            Country::SouthKorea => "🇰🇷"@,
            Country::Spain => "🇪🇸"@,
            Country::Italy => "🇮🇹"@,
            Country::Norway => "🇳🇴"@,
            Country::Denmark => "🇩🇰"@,
            Country::Finland => "🇫🇮"@,
            Country::Poland => "🇵🇱"@,
            Country::Turkey => "🇹🇷"@,
            Country::UnitedArabEmirates => "🇦🇪"@,
            Country::SouthAfrica => "🇿🇦"@,
            Country::Mexico => "🇲🇽"@,
            Country::Argentina => "🇦🇷"@,
        }
    }

    /// The place of the country in the catalogue, counted from zero.
    pub open spec fn index(self) -> nat {
        match self {
            Country::UnitedStates => 0,
            Country::UnitedKingdom => 1,
            Country::Canada => 2,
            Country::Germany => 3,
            Country::France => 4,
            Country::Netherlands => 5,
            Country::Switzerland => 6,
            Country::Sweden => 7,
            Country::Japan => 8,
            Country::Singapore => 9,
            Country::Australia => 10,
            Country::Brazil => 11,
            Country::India => 12,
            Country::SouthKorea => 13,
            Country::Spain => 14,
            Country::Italy => 15,
            Country::Norway => 16,
            Country::Denmark => 17,
            Country::Finland => 18,
            Country::Poland => 19,
            Country::Turkey => 20,
            Country::UnitedArabEmirates => 21,
            Country::SouthAfrica => 22,
            Country::Mexico => 23,
            Country::Argentina => 24,
        }
    }

    /// The catalogue of countries, in its fixed order.
    pub open spec fn catalogue() -> Seq<Country> {
        seq![
            Country::UnitedStates,
            Country::UnitedKingdom,
            Country::Canada,
            Country::Germany,
            Country::France,
            Country::Netherlands,
            Country::Switzerland,
            Country::Sweden,
            Country::Japan,
            Country::Singapore,
            Country::Australia,
            Country::Brazil,
            Country::India,
            Country::SouthKorea,
            Country::Spain,
            Country::Italy,
            Country::Norway,
            Country::Denmark,
            Country::Finland,
            Country::Poland,
            Country::Turkey,
            Country::UnitedArabEmirates,
            Country::SouthAfrica,
            Country::Mexico,
            Country::Argentina,
        ]
    }

    /// The cities of the country that hold a server, in seed order.
    pub open spec fn cities(self) -> Seq<Seq<char>> {
        match self {
            Country::UnitedStates => seq!["New York"@, "Los Angeles"@, "Chicago"@, "Miami"@, "Seattle"@],
            Country::UnitedKingdom => seq!["London"@, "Manchester"@, "Edinburgh"@],
            Country::Canada => seq!["Toronto"@, "Montreal"@, "Vancouver"@],
            Country::Germany => seq!["Frankfurt"@, "Berlin"@, "Munich"@],
            Country::France => seq!["Paris"@, "Marseille"@, "Lyon"@],
            Country::Netherlands => seq!["Amsterdam"@, "Rotterdam"@],
            Country::Switzerland => seq!["Zurich"@, "Geneva"@],
            Country::Sweden => seq!["Stockholm"@, "Gothenburg"@],
            Country::Japan => seq!["Tokyo"@, "Osaka"@, "Kyoto"@],
            Country::Singapore => seq!["Singapore"@],
            Country::Australia => seq!["Sydney"@, "Melbourne"@, "Brisbane"@],
            Country::Brazil => seq!["Sao Paulo"@, "Rio de Janeiro"@],
            Country::India => seq!["Mumbai"@, "Delhi"@, "Bangalore"@],
            Country::SouthKorea => seq!["Seoul"@, "Busan"@],
            Country::Spain => seq!["Madrid"@, "Barcelona"@],
            Country::Italy => seq!["Rome"@, "Milan"@],
            Country::Norway => seq!["Oslo"@],
            Country::Denmark => seq!["Copenhagen"@],
            Country::Finland => seq!["Helsinki"@],
            Country::Poland => seq!["Warsaw"@, "Krakow"@],
            Country::Turkey => seq!["Istanbul"@, "Ankara"@],
            Country::UnitedArabEmirates => seq!["Dubai"@, "Abu Dhabi"@],
            Country::SouthAfrica => seq!["Johannesburg"@, "Cape Town"@],
            Country::Mexico => seq!["Mexico City"@, "Guadalajara"@],
            Country::Argentina => seq!["Buenos Aires"@, "Cordoba"@],
        }
    }

    /// The two-letter code of the country.
    pub fn code(&self) -> (r: &'static str)
        ensures
            r@ == self.code_text(),
    {
        match self {
            Country::UnitedStates => "US",
            Country::UnitedKingdom => "GB",
            Country::Canada => "CA",
            Country::Germany => "DE",
            Country::France => "FR",
            Country::Netherlands => "NL",
            Country::Switzerland => "CH",
            Country::Sweden => "SE",
            Country::Japan => "JP",
            Country::Singapore => "SG",
            Country::Australia => "AU",
            Country::Brazil => "BR",
            Country::India => "IN",
            Country::SouthKorea => "KR",
            Country::Spain => "ES",
            Country::Italy => "IT",
            Country::Norway => "NO",
            Country::Denmark => "DK",
            Country::Finland => "FI",
            Country::Poland => "PL",
            Country::Turkey => "TR",
            Country::UnitedArabEmirates => "AE",
            Country::SouthAfrica => "ZA",
            Country::Mexico => "MX",
            Country::Argentina => "AR",
        }
    }

    /// The display name of the country.
    pub fn name(&self) -> (r: &'static str)
        ensures
            r@ == self.name_text(),
    {
        match self {
            Country::UnitedStates => "United States",
            Country::UnitedKingdom => "United Kingdom",
            Country::Canada => "Canada",
            Country::Germany => "Germany",
            Country::France => "France",
            Country::Netherlands => "Netherlands",
            Country::Switzerland => "Switzerland",
            Country::Sweden => "Sweden",
            Country::Japan => "Japan",
            Country::Singapore => "Singapore",
            Country::Australia => "Australia",
            Country::Brazil => "Brazil",
            Country::India => "India",
            Country::SouthKorea => "South Korea",
            Country::Spain => "Spain",
            Country::Italy => "Italy",
            Country::Norway => "Norway",
            Country::Denmark => "Denmark",
            Country::Finland => "Finland",
            Country::Poland => "Poland",
            Country::Turkey => "Turkey",
            Country::UnitedArabEmirates => "United Arab Emirates",
            Country::SouthAfrica => "South Africa",
            Country::Mexico => "Mexico",
            Country::Argentina => "Argentina",
        }
    }

    /// The flag glyph of the country.
    pub fn flag_emoji(&self) -> (r: &'static str)
        ensures
            r@ == self.flag_text(),
    {
        match self {
            Country::UnitedStates => "🇺🇸",
            Country::UnitedKingdom => "🇬🇧",
            Country::Canada => "🇨🇦",
            Country::Germany => "🇩🇪",
            Country::France => "🇫🇷",
            Country::Netherlands => "🇳🇱",
            Country::Switzerland => "🇨🇭",
            Country::Sweden => "🇸🇪",
            Country::Japan => "🇯🇵",
            Country::Singapore => "🇸🇬",
            Country::Australia => "🇦🇺",
            Country::Brazil => "🇧🇷",
            Country::India => "🇮🇳",
            Country::SouthKorea => "🇰🇷",
            Country::Spain => "🇪🇸",
            Country::Italy => "🇮🇹",
            Country::Norway => "🇳🇴",
            Country::Denmark => "🇩🇰",
            Country::Finland => "🇫🇮",
            Country::Poland => "🇵🇱",
            Country::Turkey => "🇹🇷",
            Country::UnitedArabEmirates => "🇦🇪",
            Country::SouthAfrica => "🇿🇦",
            Country::Mexico => "🇲🇽",
            Country::Argentina => "🇦🇷",
        }
    }

    /// The place of the country in the catalogue, counted from zero.
    pub fn ordinal(&self) -> (r: usize)
        ensures
            r == self.index(),
            r < 25,
            Self::catalogue()[r as int] == *self,
    {
        match self {
            Country::UnitedStates => 0,
            Country::UnitedKingdom => 1,
            Country::Canada => 2,
            Country::Germany => 3,
            Country::France => 4,
            Country::Netherlands => 5,
            Country::Switzerland => 6,
            Country::Sweden => 7,
            Country::Japan => 8,
            Country::Singapore => 9,
            Country::Australia => 10,
            Country::Brazil => 11,
            Country::India => 12,
            Country::SouthKorea => 13,
            Country::Spain => 14,
            Country::Italy => 15,
            Country::Norway => 16,
            Country::Denmark => 17,
            Country::Finland => 18,
            Country::Poland => 19,
            Country::Turkey => 20,
            Country::UnitedArabEmirates => 21,
            Country::SouthAfrica => 22,
            Country::Mexico => 23,
            Country::Argentina => 24,
        }
    }

    /// Every country of the catalogue, in its fixed order.
    pub fn all() -> (r: Vec<Country>)
        ensures
            r@ == Self::catalogue(),
    {
        let mut v: Vec<Country> = Vec::new();
        v.push(Country::UnitedStates);
        v.push(Country::UnitedKingdom);
        v.push(Country::Canada);
        v.push(Country::Germany);
        v.push(Country::France);
        v.push(Country::Netherlands);
        v.push(Country::Switzerland);
        v.push(Country::Sweden);
        v.push(Country::Japan);
        v.push(Country::Singapore);
        v.push(Country::Australia);
        v.push(Country::Brazil);
        v.push(Country::India);
        v.push(Country::SouthKorea);
        v.push(Country::Spain);
        v.push(Country::Italy);
        v.push(Country::Norway);
        v.push(Country::Denmark);
        v.push(Country::Finland);
        v.push(Country::Poland);
        v.push(Country::Turkey);
        v.push(Country::UnitedArabEmirates);
        v.push(Country::SouthAfrica);
        v.push(Country::Mexico);
        v.push(Country::Argentina);
        assert(v@ =~= Self::catalogue());
        v
    }

    /// The cities of the country that hold a server, in seed order.
    pub fn city_names(&self) -> (r: Vec<&'static str>)
        ensures
            r.len() == self.cities().len(),
            forall|i: int| 0 <= i < r.len() ==> (#[trigger] r[i])@ == self.cities()[i],
            1 <= r.len() <= 5,
    {
        let mut v: Vec<&'static str> = Vec::new();
        match self {
            Country::UnitedStates => {
                v.push("New York");
                v.push("Los Angeles");
                v.push("Chicago");
                v.push("Miami");
                v.push("Seattle");
            },
            Country::UnitedKingdom => {
                v.push("London");
                v.push("Manchester");
                v.push("Edinburgh");
            },
            Country::Canada => {
                v.push("Toronto");
                v.push("Montreal");
                v.push("Vancouver");
            },
            Country::Germany => {
                v.push("Frankfurt");
                v.push("Berlin");
                v.push("Munich");
            },
            Country::France => {
                v.push("Paris");
                v.push("Marseille");
                v.push("Lyon");
            },
            Country::Netherlands => {
                v.push("Amsterdam");
                v.push("Rotterdam");
            },
            Country::Switzerland => {
                v.push("Zurich");
                v.push("Geneva");
            },
            Country::Sweden => {
                v.push("Stockholm");
                v.push("Gothenburg");
            },
            Country::Japan => {
                v.push("Tokyo");
                v.push("Osaka");
                v.push("Kyoto");
            },
            Country::Singapore => {
                v.push("Singapore");
            },
            Country::Australia => {
                v.push("Sydney");
                v.push("Melbourne");
                v.push("Brisbane");
            },
            Country::Brazil => {
                v.push("Sao Paulo");
                v.push("Rio de Janeiro");
            },
            Country::India => {
                v.push("Mumbai");
                v.push("Delhi");
                v.push("Bangalore");
            },
            Country::SouthKorea => {
                v.push("Seoul");
                v.push("Busan");
            },
            Country::Spain => {
                v.push("Madrid");
                v.push("Barcelona");
            },
            Country::Italy => {
                v.push("Rome");
                v.push("Milan");
            },
            Country::Norway => {
                v.push("Oslo");
            },
            Country::Denmark => {
                v.push("Copenhagen");
            },
            Country::Finland => {
                v.push("Helsinki");
            },
            Country::Poland => {
                v.push("Warsaw");
                v.push("Krakow");
            },
            Country::Turkey => {
                v.push("Istanbul");
                v.push("Ankara");
            },
            Country::UnitedArabEmirates => {
                v.push("Dubai");
                v.push("Abu Dhabi");
            },
            Country::SouthAfrica => {
                v.push("Johannesburg");
                v.push("Cape Town");
            },
            Country::Mexico => {
                v.push("Mexico City");
                v.push("Guadalajara");
            },
            Country::Argentina => {
                v.push("Buenos Aires");
                v.push("Cordoba");
            },
        }
        v
    }
}

/// Every country stands in the catalogue at its own index.
pub proof fn lemma_country_index(c: Country)
    ensures
        c.index() < 25,
        Country::catalogue().len() == 25,
        Country::catalogue()[c.index() as int] == c,
{
}

/// Where a server stands. Latitude and longitude are in millionths of a
/// degree.
#[derive(Debug)]
pub struct ServerLocation {
    pub city: String,
    pub country: Country,
    pub latitude: i32,
    pub longitude: i32,
}

impl Clone for ServerLocation {
    fn clone(&self) -> (r: Self)
        ensures
            r == *self,
    {
        ServerLocation {
            city: self.city.clone(),
            country: self.country,
            latitude: self.latitude,
            longitude: self.longitude,
        }
    }
}

/// A candidate endpoint. `load` is a percentage, `latency` is in
/// milliseconds, `bandwidth` in megabits per second.
#[derive(Debug)]
pub struct VpnServer {
    pub id: String,
    pub name: String,
    pub location: ServerLocation,
    pub host: String,
    pub port: u16,
    pub load: u8,
    pub latency: u32,
    pub bandwidth: u64,
    pub is_premium: bool,
    pub supports_p2p: bool,
    pub supports_streaming: bool,
    pub online: bool,
}

impl Clone for VpnServer {
    fn clone(&self) -> (r: Self)
        ensures
            r == *self,
    {
        VpnServer {
            id: self.id.clone(),
            name: self.name.clone(),
            location: self.location.clone(),
            host: self.host.clone(),
            port: self.port,
            load: self.load,
            latency: self.latency,
            bandwidth: self.bandwidth,
            is_premium: self.is_premium,
            supports_p2p: self.supports_p2p,
            supports_streaming: self.supports_streaming,
            online: self.online,
        }
    }
}

/// A score as the exact fraction `numerator / denominator`.
#[derive(Debug, Clone, Copy, PartialEq, Eq, Structural)]
pub struct Score {
    pub numerator: i64,
    pub denominator: i64,
}

impl Score {
    /// `self < other`, for fractions with positive denominators.
    pub open spec fn below(self, other: Score) -> bool {
        self.numerator * other.denominator < other.numerator * self.denominator
    }

    /// `self == other` as fractions.
    pub open spec fn level(self, other: Score) -> bool {
        self.numerator * other.denominator == other.numerator * self.denominator
    }

    pub fn is_below(&self, other: &Score) -> (r: bool)
        ensures
            r == self.below(*other),
    {
        wide_product(self.numerator, other.denominator) < wide_product(
            other.numerator,
            self.denominator,
        )
    }

    pub fn is_level(&self, other: &Score) -> (r: bool)
        ensures
            r == self.level(*other),
    {
        wide_product(self.numerator, other.denominator) == wide_product(
            other.numerator,
            self.denominator,
        )
    }
}

/// The product of two 64-bit numbers, which always fits in 128 bits.
fn wide_product(a: i64, b: i64) -> (r: i128)
    ensures
        r == a * b,
{
    assert(-0x4000_0000_0000_0000_0000_0000_0000_0000 <= a * b
        <= 0x4000_0000_0000_0000_0000_0000_0000_0000) by (nonlinear_arith)
        requires
            -0x8000_0000_0000_0000 <= a < 0x8000_0000_0000_0000,
            -0x8000_0000_0000_0000 <= b < 0x8000_0000_0000_0000,
    ;
    (a as i128) * (b as i128)
}

impl VpnServer {
    /// A server is available when it is online and loaded below 95 percent.
    pub open spec fn available(self) -> bool {
        self.online && self.load < 95
    }

    /// The bandwidth that counts towards the score: at most 1000.
    pub open spec fn counted_bandwidth(self) -> int {
        if self.bandwidth < 1000 {
            self.bandwidth as int
        } else {
            1000
        }
    }

    /// The score `100 * (0.4 * L + 0.4 * T + 0.2 * B)` with
    /// `L = (100 - load) / 100`, `T = 1 / (1 + latency / 100)` and
    /// `B = min(1, bandwidth / 1000)`, brought to the common denominator
    /// `50 * (100 + latency)`.
    pub open spec fn score_of(self) -> Score {
        Score {
            numerator: ((20 * (100 - self.load) + self.counted_bandwidth()) * (100 + self.latency)
                + 200_000) as i64,
            denominator: (50 * (100 + self.latency)) as i64,
        }
    }

    /// The score in thousandths, rounded down.
    pub open spec fn thousandths_of(self) -> int {
        (self.score_of().numerator * 1000) / (self.score_of().denominator as int)
    }

    pub fn is_available(&self) -> (r: bool)
        ensures
            r == self.available(),
    {
        self.online && self.load < 95
    }

    pub fn score(&self) -> (r: Score)
        ensures
            r == self.score_of(),
            r.denominator > 0,
            r.numerator == (20 * (100 - self.load) + self.counted_bandwidth()) * (100
                + self.latency) + 200_000,
            r.denominator == 50 * (100 + self.latency),
            -14_000_000_000_000 <= r.numerator <= 14_000_000_000_000,
    {
        let load: i64 = self.load as i64;
        let d: i64 = 100 + self.latency as i64;
        let bw: i64 = if self.bandwidth < 1000 {
            self.bandwidth as i64
        } else {
            1000
        };
        let k: i64 = 20 * (100 - load) + bw;
        assert(-3100 * d <= k * d <= 3000 * d) by (nonlinear_arith)
            requires
                -3100 <= k <= 3000,
                d >= 0,
        ;
        Score { numerator: k * d + 200_000, denominator: 50 * d }
    }

    /// The score in thousandths, rounded down.
    pub fn score_thousandths(&self) -> (r: i64)
        ensures
            r == self.thousandths_of(),
    {
        let s = self.score();
        let n: i64 = s.numerator * 1000;
        let d: i64 = s.denominator;
        if n >= 0 {
            n / d
        } else {
            let m: i64 = -n;
            let q: i64 = (m + d - 1) / d;
            assert((n as int) / (d as int) == -(((-n) + d - 1) / (d as int))) by (nonlinear_arith)
                requires
                    d > 0,
                    n < 0,
            ;
            -q
        }
    }

    /// Whether this server ranks strictly above `other`.
    pub fn ranks_above(&self, other: &VpnServer) -> (r: bool)
        ensures
            r == outranks(*self, *other),
    {
        let mine = self.score();
        let theirs = other.score();
        if theirs.is_below(&mine) {
            true
        } else if mine.is_level(&theirs) {
            text_less(self.id.as_str(), other.id.as_str())
        } else {
            false
        }
    }
}

/// `a` ranks strictly above `b`: its score is higher, or the scores are
/// level and its id comes first in lexicographic order.
pub open spec fn outranks(a: VpnServer, b: VpnServer) -> bool {
    b.score_of().below(a.score_of()) || (a.score_of().level(b.score_of()) && text_lt(a.id@, b.id@))
}

/// Fractions with positive denominators are ordered like numbers.
pub proof fn lemma_score_order(a: Score, b: Score, c: Score)
    requires
        a.denominator > 0,
        b.denominator > 0,
        c.denominator > 0,
    ensures
        !a.below(a),
        a.level(a),
        a.level(b) == b.level(a),
        a.below(b) || b.below(a) || a.level(b),
        !(a.below(b) && b.below(a)),
        !(a.below(b) && a.level(b)),
        a.below(b) && b.below(c) ==> a.below(c),
        a.below(b) && b.level(c) ==> a.below(c),
        a.level(b) && b.below(c) ==> a.below(c),
        a.level(b) && b.level(c) ==> a.level(c),
{
    let (an, ad) = (a.numerator as int, a.denominator as int);
    let (bn, bd) = (b.numerator as int, b.denominator as int);
    let (cn, cd) = (c.numerator as int, c.denominator as int);
    assert(an * bd < bn * ad && bn * cd <= cn * bd ==> an * cd < cn * ad) by (nonlinear_arith)
        requires
            ad > 0,
            bd > 0,
            cd > 0,
    ;
    assert(an * bd <= bn * ad && bn * cd < cn * bd ==> an * cd < cn * ad) by (nonlinear_arith)
        requires
            ad > 0,
            bd > 0,
            cd > 0,
    ;
    assert(an * bd == bn * ad && bn * cd == cn * bd ==> an * cd == cn * ad) by (nonlinear_arith)
        requires
            ad > 0,
            bd > 0,
            cd > 0,
    ;
    assert(an * bd == bn * ad <==> bn * ad == an * bd);
}

/// The ranking is a strict total order on servers with different ids: no
/// server ranks above itself, of two servers with different ids exactly one
/// ranks above the other, and the ranking is transitive.
pub proof fn lemma_outranks_strict_total(a: VpnServer, b: VpnServer, c: VpnServer)
    ensures
        !outranks(a, a),
        !(outranks(a, b) && outranks(b, a)),
        a.id@ != b.id@ ==> outranks(a, b) || outranks(b, a),
        outranks(a, b) && outranks(b, c) ==> outranks(a, c),
{
    lemma_score_order(a.score_of(), b.score_of(), c.score_of());
    lemma_score_order(b.score_of(), a.score_of(), c.score_of());
    lemma_score_order(c.score_of(), b.score_of(), a.score_of());
    lemma_text_lt_strict_total(a.id@, b.id@, c.id@);
    lemma_text_lt_strict_total(b.id@, a.id@, c.id@);
}

/// `lead` is the fastest of the servers in `seen`: absent when none of them
/// is available, else an available one of them that no available one
/// outranks.
pub open spec fn leads(lead: Option<&VpnServer>, seen: Seq<VpnServer>) -> bool {
    match lead {
        None => forall|i: int| 0 <= i < seen.len() ==> !(#[trigger] seen[i]).available(),
        Some(s) => seen.contains(*s) && s.available() && forall|i: int|
            0 <= i < seen.len() && (#[trigger] seen[i]).available() ==> !outranks(seen[i], *s),
    }
}

/// Carries the lead over one more list of servers.
fn extend_lead<'a>(
    list: &'a Vec<VpnServer>,
    lead: Option<&'a VpnServer>,
    Ghost(earlier): Ghost<Seq<VpnServer>>,
) -> (r: Option<&'a VpnServer>)
    requires
        leads(lead, earlier),
    ensures
        leads(r, earlier + list@),
{
    let mut best = lead;
    let mut k: usize = 0;
    assert(earlier + list@.take(0) =~= earlier);
    while k < list.len()
        invariant
            k <= list.len(),
            leads(best, earlier + list@.take(k as int)),
        decreases list.len() - k,
    {
        let cand = &list[k];
        let ghost seen = earlier + list@.take(k as int);
        let ghost next = earlier + list@.take(k + 1);
        proof {
            assert(next =~= seen.push(*cand));
            assert(next[seen.len() as int] == *cand);
            lemma_outranks_strict_total(*cand, *cand, *cand);
        }
        if cand.is_available() {
            match best {
                None => {
                    best = Some(cand);
                },
                Some(s) => {
                    if cand.ranks_above(s) {
                        proof {
                            assert forall|i: int|
                                0 <= i < next.len() && (#[trigger] next[i]).available() implies !outranks(
                                next[i],
                                *cand,
                            ) by {
                                if i < seen.len() {
                                    assert(next[i] == seen[i]);
                                    lemma_outranks_strict_total(seen[i], *cand, *s);
                                }
                            }
                        }
                        best = Some(cand);
                    } else {
                        proof {
                            let j = choose|j: int| 0 <= j < seen.len() && seen[j] == *s;
                            assert(next[j] == *s);
                        }
                    }
                },
            }
        } else {
            proof {
                match best {
                    None => {},
                    Some(s) => {
                        let j = choose|j: int| 0 <= j < seen.len() && seen[j] == *s;
                        assert(next[j] == *s);
                    },
                }
            }
        }
        k += 1;
    }
    assert(list@.take(list.len() as int) =~= list@);
    best
}

/// The fastest available server of a list: absent when none is available,
/// else the available server that no available server of the list outranks.
pub fn fastest_of(servers: &Vec<VpnServer>) -> (r: Option<&VpnServer>)
    ensures
        leads(r, servers@),
{
    let r = extend_lead(servers, None, Ghost(Seq::empty()));
    assert(Seq::<VpnServer>::empty() + servers@ =~= servers@);
    r
}

/// Whether `pick` is the choice among the servers of `pool`, of which those
/// of the wanted country are `group`: by id where an id is given, else the
/// fastest of the country where a country is given, else the fastest of all.
pub open spec fn selected(
    pool: Seq<VpnServer>,
    group: Seq<VpnServer>,
    id: Option<&str>,
    country: Option<&Country>,
    pick: Option<&VpnServer>,
) -> bool {
    match id {
        Some(text) => match pick {
            Some(s) => find_in(pool, text@) == Some(*s),
            None => find_in(pool, text@) is None,
        },
        None => if country is Some {
            leads(pick, group)
        } else {
            leads(pick, pool)
        },
    }
}

/// The letter of a host label that stands for `c`: capital letters of the
/// basic alphabet become small ones, a space becomes a hyphen.
pub open spec fn label_char(c: char) -> char {
    if 'A' <= c <= 'Z' {
        ((c as u8) + 32) as u8 as char
    } else if c == ' ' {
        '-'
    } else {
        c
    }
}

/// The host label of a city name.
pub open spec fn host_label(city: Seq<char>) -> Seq<char> {
    Seq::new(city.len(), |i: int| label_char(city[i]))
}

/// Appends the host label of `city` to `out`.
fn push_host_label(out: &mut String, city: &str)
    ensures
        final(out)@ == old(out)@ + host_label(city@),
{
    let v = chars_of(city);
    let mut i: usize = 0;
    assert(old(out)@ + host_label(city@).take(0) =~= old(out)@);
    while i < v.len()
        invariant
            i <= v.len(),
            v@ == city@,
            out@ == old(out)@ + host_label(city@).take(i as int),
        decreases v.len() - i,
    {
        let c: char = v[i];
        let l: char = if c >= 'A' && c <= 'Z' {
            ((c as u8) + 32) as char
        } else if c == ' ' {
            '-'
        } else {
            c
        };
        out.push(l);
        assert(host_label(city@).take(i + 1) =~= host_label(city@).take(i as int).push(l));
        assert(out@ =~= old(out)@ + host_label(city@).take(i + 1));
        i += 1;
    }
    assert(host_label(city@).take(v.len() as int) =~= host_label(city@));
}

/// The `k`-th seeded server of country `c`, counted from zero.
pub open spec fn seeded(s: VpnServer, c: Country, k: nat) -> bool {
    &&& k < c.cities().len()
    &&& s.id@ == c.code_text().push('-') + decimal(k + 1)
    &&& s.name@ == c.cities()[k as int].push(' ').push('#') + decimal(k + 1)
    &&& s.location.city@ == c.cities()[k as int]
    &&& s.location.country == c
    &&& s.location.latitude == 0
    &&& s.location.longitude == 0
    &&& s.host@ == host_label(c.cities()[k as int]) + ".vpn.server.com"@
    &&& s.port == 443
    &&& s.load == (k * 7) % 90
    &&& s.latency == (k * 13 + 20) % 150
    &&& s.bandwidth == 1000 + k * 100
    &&& s.is_premium == (k % 3 == 0)
    &&& s.supports_p2p == (k % 2 == 0)
    &&& s.supports_streaming
    &&& s.online
}

/// The seeded servers of country `c`: one for each of its cities, in order.
pub open spec fn seeded_group(g: Seq<VpnServer>, c: Country) -> bool {
    g.len() == c.cities().len() && forall|k: int|
        0 <= k < g.len() ==> seeded(#[trigger] g[k], c, k as nat)
}

/// Every country code has two letters, and different countries have
/// different codes.
pub proof fn lemma_codes_differ(a: Country, b: Country)
    ensures
        a.code_text().len() == 2,
        a != b ==> a.code_text() != b.code_text(),
{
    reveal_strlit("US");
    reveal_strlit("GB");
    reveal_strlit("CA");
    reveal_strlit("DE");
    reveal_strlit("FR");
    reveal_strlit("NL");
    reveal_strlit("CH");
    reveal_strlit("SE");
    reveal_strlit("JP");
    reveal_strlit("SG");
    reveal_strlit("AU");
    reveal_strlit("BR");
    reveal_strlit("IN");
    reveal_strlit("KR");
    reveal_strlit("ES");
    reveal_strlit("IT");
    reveal_strlit("NO");
    reveal_strlit("DK");
    reveal_strlit("FI");
    reveal_strlit("PL");
    reveal_strlit("TR");
    reveal_strlit("AE");
    reveal_strlit("ZA");
    reveal_strlit("MX");
    reveal_strlit("AR");
    if a != b {
        assert(a.code_text()[0] != b.code_text()[0] || a.code_text()[1] != b.code_text()[1]);
    }
}

/// The seeded servers all have ids of their own: two of them that differ in
/// country or in place have different ids.
pub proof fn lemma_seeded_ids_differ(
    x: VpnServer,
    cx: Country,
    kx: nat,
    y: VpnServer,
    cy: Country,
    ky: nat,
)
    requires
        seeded(x, cx, kx),
        seeded(y, cy, ky),
        x.id@ == y.id@,
    ensures
        cx == cy,
        kx == ky,
{
    lemma_codes_differ(cx, cy);
    lemma_codes_differ(cy, cx);
    let hx = cx.code_text().push('-');
    let hy = cy.code_text().push('-');
    let tx = decimal(kx + 1);
    let ty = decimal(ky + 1);
    assert(x.id@ == hx + tx);
    assert(y.id@ == hy + ty);
    assert(hx.len() == 3 && hy.len() == 3);
    assert((hx + tx).subrange(0, 2) =~= cx.code_text());
    assert((hy + ty).subrange(0, 2) =~= cy.code_text());
    assert((hx + tx).subrange(3, (hx + tx).len() as int) =~= tx);
    assert((hy + ty).subrange(3, (hy + ty).len() as int) =~= ty);
    crate::text::lemma_decimal_injective(kx + 1, ky + 1);
}

/// Of servers with ids of their own, only one can be the fastest: two
/// servers that both lead a pool have the same id.
pub proof fn lemma_fastest_is_one(x: &VpnServer, y: &VpnServer, pool: Seq<VpnServer>)
    requires
        leads(Some(x), pool),
        leads(Some(y), pool),
    ensures
        x.id@ == y.id@,
{
    let i = choose|i: int| 0 <= i < pool.len() && pool[i] == *x;
    let j = choose|j: int| 0 <= j < pool.len() && pool[j] == *y;
    assert(!outranks(pool[i], *y));
    assert(!outranks(pool[j], *x));
    lemma_outranks_strict_total(*x, *y, *x);
}

/// The first server of `pool` from position `i` on that has the id `id`.
pub open spec fn find_from(pool: Seq<VpnServer>, id: Seq<char>, i: int) -> Option<VpnServer>
    decreases pool.len() - i,
{
    if i < 0 || i >= pool.len() {
        None
    } else if pool[i].id@ == id {
        Some(pool[i])
    } else {
        find_from(pool, id, i + 1)
    }
}

/// The first server of `pool` that has the id `id`.
pub open spec fn find_in(pool: Seq<VpnServer>, id: Seq<char>) -> Option<VpnServer> {
    find_from(pool, id, 0)
}

/// The lookup by id in `pool`, as a function of the id.
pub open spec fn resolver(pool: Seq<VpnServer>) -> spec_fn(Seq<char>) -> Option<VpnServer> {
    |id: Seq<char>| find_in(pool, id)
}

/// The servers that a list of references points to.
pub open spec fn targets(v: Seq<&VpnServer>) -> Seq<VpnServer> {
    Seq::new(v.len(), |i: int| *v[i])
}

/// A lookup finds the server at position `at` when no earlier server has
/// the id, and nothing when no server has it.
pub proof fn lemma_find_from(pool: Seq<VpnServer>, id: Seq<char>, i: int, at: int)
    requires
        0 <= i <= at <= pool.len(),
        forall|j: int| i <= j < at ==> (#[trigger] pool[j]).id@ != id,
        at < pool.len() ==> pool[at].id@ == id,
    ensures
        at < pool.len() ==> find_from(pool, id, i) == Some(pool[at]),
        at == pool.len() ==> find_from(pool, id, i) is None,
    decreases at - i,
{
    if i < at {
        lemma_find_from(pool, id, i + 1, at);
    }
}

/// The favourites after `id` is added: unchanged when it is among them
/// already, else with `id` at the end.
pub open spec fn with_favorite(list: Seq<Seq<char>>, id: Seq<char>) -> Seq<Seq<char>> {
    if list.contains(id) {
        list
    } else {
        list.push(id)
    }
}

/// The favourites after `id` is removed.
pub open spec fn without_favorite(list: Seq<Seq<char>>, id: Seq<char>) -> Seq<Seq<char>> {
    list.filter(differs_from(id))
}

/// The recently used ids after `id` is used: `id` first, then the others
/// in their order, ten in all at most.
pub open spec fn with_recent(list: Seq<Seq<char>>, id: Seq<char>) -> Seq<Seq<char>> {
    let moved = seq![id] + list.filter(differs_from(id));
    if moved.len() > 10 {
        moved.take(10)
    } else {
        moved
    }
}

/// Adding a favourite twice is the same as adding it once, and removing an
/// id that is not a favourite changes nothing.
pub proof fn lemma_favorites(list: Seq<Seq<char>>, id: Seq<char>)
    ensures
        with_favorite(with_favorite(list, id), id) == with_favorite(list, id),
        with_favorite(list, id).contains(id),
        !list.contains(id) ==> without_favorite(list, id) == list,
        !without_favorite(list, id).contains(id),
        list.no_duplicates() ==> with_favorite(list, id).no_duplicates(),
        list.no_duplicates() ==> without_favorite(list, id).no_duplicates(),
{
    broadcast use vstd::seq_lib::group_filter_ensures;

    if !list.contains(id) {
        assert(list.push(id)[list.len() as int] == id);
        crate::text::lemma_filter_keeps_all(list, differs_from(id));
    }
    if list.no_duplicates() {
        crate::text::lemma_filter_no_duplicates(list, differs_from(id));
    }
    let gone = without_favorite(list, id);
    if gone.contains(id) {
        let i = choose|i: int| 0 <= i < gone.len() && gone[i] == id;
        list.lemma_filter_pred(differs_from(id), i);
    }
}

/// Using a server puts its id first in the recent list, keeps every id at
/// most once and the list at ten entries at most; an id that was in the
/// list before is moved, not repeated.
pub proof fn lemma_recent(list: Seq<Seq<char>>, id: Seq<char>)
    requires
        list.no_duplicates(),
        list.len() <= 10,
    ensures
        with_recent(list, id).len() <= 10,
        with_recent(list, id)[0] == id,
        with_recent(list, id).no_duplicates(),
        list.contains(id) ==> with_recent(list, id).len() == list.len(),
        forall|i: int| 1 <= i < with_recent(list, id).len() ==> with_recent(list, id)[i] != id,
{
    broadcast use vstd::seq_lib::group_filter_ensures;

    let rest = list.filter(differs_from(id));
    let moved = seq![id] + rest;
    crate::text::lemma_filter_no_duplicates(list, differs_from(id));
    assert forall|i: int| 0 <= i < rest.len() implies rest[i] != id by {
        list.lemma_filter_pred(differs_from(id), i);
    }
    assert forall|i: int, j: int| 0 <= i < moved.len() && 0 <= j < moved.len() && i != j implies moved[i]
        != moved[j] by {
        if i > 0 && j > 0 {
            assert(rest[i - 1] != rest[j - 1]);
        } else if i > 0 {
            assert(rest[i - 1] != id);
        } else {
            assert(rest[j - 1] != id);
        }
    }
    if list.contains(id) {
        lemma_filter_drops_one(list, id);
    }
}

/// Removing a text from a list that holds it exactly once shortens the list
/// by one.
pub proof fn lemma_filter_drops_one(list: Seq<Seq<char>>, id: Seq<char>)
    requires
        list.no_duplicates(),
        list.contains(id),
    ensures
        list.filter(differs_from(id)).len() == list.len() - 1,
    decreases list.len(),
{
    reveal(Seq::filter);
    let front = list.drop_last();
    if list.last() == id {
        assert forall|i: int| 0 <= i < front.len() implies differs_from(id)(
            #[trigger] front[i],
        ) by {
            assert(list[i] != list[list.len() - 1]);
        }
        crate::text::lemma_filter_keeps_all(front, differs_from(id));
    } else {
        let i = choose|i: int| 0 <= i < list.len() && list[i] == id;
        assert(front[i] == id);
        lemma_filter_drops_one(front, id);
    }
}

/// The recent list after `id` is used.
fn recent_after(list: &Vec<String>, id: String) -> (r: Vec<String>)
    ensures
        texts(r@) == with_recent(texts(list@), id@),
{
    let ghost keep = differs_from(id@);
    let ghost all = texts(list@);
    let mut rest: Vec<String> = Vec::new();
    let mut i: usize = 0;
    assert(texts(list@.take(0)) =~= Seq::<Seq<char>>::empty());
    while i < list.len()
        invariant
            i <= list.len(),
            keep == differs_from(id@),
            texts(rest@) == texts(list@.take(i as int)).filter(keep),
        decreases list.len() - i,
    {
        let ghost done = texts(list@.take(i as int));
        proof {
            assert(texts(list@.take(i + 1)) =~= done.push(list@[i as int]@));
            done.lemma_filter_push(list@[i as int]@, keep);
        }
        if !str_eq(list[i].as_str(), id.as_str()) {
            let ghost prev = rest@;
            rest.push(list[i].clone());
            assert(texts(rest@) =~= texts(prev).push(list@[i as int]@));
        }
        i += 1;
    }
    assert(list@.take(list.len() as int) == list@);
    let mut out: Vec<String> = Vec::new();
    let ghost head = id@;
    out.push(id);
    let mut k: usize = 0;
    assert(texts(out@) =~= (seq![head] + texts(rest@)).take(1));
    while k < rest.len() && k < 9
        invariant
            k <= rest.len(),
            k <= 9,
            texts(out@) == (seq![head] + texts(rest@)).take(k + 1),
        decreases rest.len() - k,
    {
        let ghost prev = out@;
        out.push(rest[k].clone());
        assert(texts(out@) =~= texts(prev).push(rest@[k as int]@));
        assert(texts(out@) =~= (seq![head] + texts(rest@)).take(k + 2));
        k += 1;
    }
    proof {
        let moved = seq![head] + texts(rest@);
        if moved.len() <= 10 {
            assert(moved.take(moved.len() as int) =~= moved);
        }
    }
    out
}

/// The server inventory with the lists of favourite and recently used
/// servers. The lists hold ids, not servers: an id that no server has simply
/// resolves to nothing.
pub struct ServerManager {
    groups: Vec<Vec<VpnServer>>,
    favorites: Vec<String>,
    recent: Vec<String>,
}

impl ServerManager {
    #[verifier::type_invariant]
    pub closed spec fn wf(self) -> bool {
        &&& self.groups.len() == 25
        &&& texts(self.favorites@).no_duplicates()
        &&& texts(self.recent@).no_duplicates()
        &&& self.recent.len() <= 10
    }

    /// The servers of a country, in seed order.
    pub closed spec fn group(&self, c: Country) -> Seq<VpnServer> {
        self.groups@[c.index() as int]@
    }

    /// Every server, country by country in catalogue order.
    pub open spec fn catalogue(&self) -> Seq<VpnServer> {
        Seq::new(25, |i: int| self.group(Country::catalogue()[i])).flatten()
    }

    /// The ids of the favourite servers, oldest first.
    pub closed spec fn favorites(&self) -> Seq<Seq<char>> {
        texts(self.favorites@)
    }

    /// The ids of the recently used servers, latest first.
    pub closed spec fn recent(&self) -> Seq<Seq<char>> {
        texts(self.recent@)
    }

    /// The servers of the first `n` countries.
    spec fn upto(&self, n: int) -> Seq<VpnServer> {
        Seq::new(25, |i: int| self.group(Country::catalogue()[i])).take(n).flatten()
    }

    proof fn lemma_upto(&self, n: int)
        requires
            self.wf(),
            0 <= n < 25,
        ensures
            self.upto(n + 1) == self.upto(n) + self.groups@[n]@,
            self.upto(0) == Seq::<VpnServer>::empty(),
            self.upto(25) == self.catalogue(),
    {
        let rows = Seq::new(25, |i: int| self.group(Country::catalogue()[i]));
        lemma_country_index(Country::catalogue()[n]);
        assert(Country::catalogue()[n].index() == n);
        assert(rows.take(n + 1) =~= rows.take(n).push(self.groups@[n]@));
        rows.take(n).lemma_flatten_push(self.groups@[n]@);
        assert(rows.take(0) =~= Seq::<Seq<VpnServer>>::empty());
        assert(rows.take(25) =~= rows);
    }

    /// The seeded inventory, with no favourites and no recent servers.
    pub fn new() -> (r: Self)
        ensures
            forall|c: Country| seeded_group(#[trigger] r.group(c), c),
            r.favorites() == Seq::<Seq<char>>::empty(),
            r.recent() == Seq::<Seq<char>>::empty(),
    {
        let countries = Country::all();
        let mut groups: Vec<Vec<VpnServer>> = Vec::new();
        let mut i: usize = 0;
        while i < countries.len()
            invariant
                i <= countries.len(),
                countries@ == Country::catalogue(),
                groups.len() == i,
                forall|g: int|
                    0 <= g < i ==> seeded_group((#[trigger] groups@[g])@, Country::catalogue()[g]),
            decreases countries.len() - i,
        {
            let servers = Self::generate_servers_for_country(&countries[i]);
            groups.push(servers);
            i += 1;
        }
        let r = ServerManager { groups, favorites: Vec::new(), recent: Vec::new() };
        proof {
            assert forall|c: Country| seeded_group(#[trigger] r.group(c), c) by {
                lemma_country_index(c);
            }
            assert(texts(r.favorites@) =~= Seq::<Seq<char>>::empty());
            assert(texts(r.recent@) =~= Seq::<Seq<char>>::empty());
        }
        r
    }

    /// The cities of a country that hold a server, in seed order.
    pub fn get_cities_for_country(country: &Country) -> (r: Vec<String>)
        ensures
            texts(r@) == country.cities(),
            1 <= r.len() <= 5,
    {
        let names = country.city_names();
        let mut out: Vec<String> = Vec::new();
        let mut i: usize = 0;
        while i < names.len()
            invariant
                i <= names.len(),
                names.len() == country.cities().len(),
                forall|k: int| 0 <= k < names.len() ==> (#[trigger] names[k])@ == country.cities()[k],
                texts(out@) == country.cities().take(i as int),
            decreases names.len() - i,
        {
            let ghost before = texts(out@);
            out.push(names[i].to_string());
            assert(texts(out@) =~= before.push(country.cities()[i as int]));
            assert(texts(out@) =~= country.cities().take(i + 1));
            i += 1;
        }
        assert(country.cities().take(names.len() as int) =~= country.cities());
        out
    }

    /// The servers a country is seeded with: one for each of its cities.
    pub fn generate_servers_for_country(country: &Country) -> (r: Vec<VpnServer>)
        ensures
            seeded_group(r@, *country),
    {
        let cities = Self::get_cities_for_country(country);
        proof {
            assert(forall|i: int| 0 <= i < cities.len() ==> (#[trigger] cities[i])@ == texts(
                cities@,
            )[i]);
        }
        let mut out: Vec<VpnServer> = Vec::new();
        let mut k: usize = 0;
        while k < cities.len()
            invariant
                k <= cities.len(),
                cities.len() == country.cities().len(),
                cities.len() <= 5,
                forall|i: int| 0 <= i < cities.len() ==> (#[trigger] cities[i])@ == country.cities()[i],
                out.len() == k,
                forall|j: int| 0 <= j < k ==> seeded(#[trigger] out@[j], *country, j as nat),
            decreases cities.len() - k,
        {
            let city: &str = cities[k].as_str();
            let n: u64 = (k + 1) as u64;
            let mut id = String::new();
            push_text(&mut id, country.code());
            id.push('-');
            push_decimal(&mut id, n);
            let mut name = String::new();
            push_text(&mut name, city);
            name.push(' ');
            name.push('#');
            push_decimal(&mut name, n);
            let mut host = String::new();
            push_host_label(&mut host, city);
            push_text(&mut host, ".vpn.server.com");
            let mut city_name = String::new();
            push_text(&mut city_name, city);
            proof {
                assert(id@ =~= country.code_text().push('-') + decimal((k + 1) as nat));
                assert(name@ =~= country.cities()[k as int].push(' ').push('#') + decimal(
                    (k + 1) as nat,
                ));
                assert(host@ =~= host_label(country.cities()[k as int]) + ".vpn.server.com"@);
                assert(city_name@ =~= country.cities()[k as int]);
            }
            let server = VpnServer {
                id,
                name,
                location: ServerLocation {
                    city: city_name,
                    country: *country,
                    latitude: 0,
                    longitude: 0,
                },
                host,
                port: 443,
                load: ((k * 7) % 90) as u8,
                latency: ((k * 13 + 20) % 150) as u32,
                bandwidth: 1000 + (k as u64) * 100,
                is_premium: k % 3 == 0,
                supports_p2p: k % 2 == 0,
                supports_streaming: true,
                online: true,
            };
            out.push(server);
            k += 1;
        }
        out
    }

    /// The servers of a country, in seed order.
    pub fn get_servers_by_country(&self, country: &Country) -> (r: Option<&Vec<VpnServer>>)
        ensures
            r matches Some(v) && v@ == self.group(*country),
    {
        proof {
            use_type_invariant(self);
        }
        Some(&self.groups[country.ordinal()])
    }

    /// Every server, country by country in catalogue order.
    pub fn get_all_servers(&self) -> (r: Vec<&VpnServer>)
        ensures
            targets(r@) == self.catalogue(),
    {
        proof {
            use_type_invariant(self);
        }
        let mut out: Vec<&VpnServer> = Vec::new();
        let mut g: usize = 0;
        proof {
            self.lemma_upto(0);
            assert(targets(out@) =~= self.upto(0));
        }
        while g < 25
            invariant
                g <= 25,
                self.wf(),
                targets(out@) == self.upto(g as int),
            decreases 25 - g,
        {
            let group = &self.groups[g];
            let mut k: usize = 0;
            assert(self.upto(g as int) + group@.take(0) =~= self.upto(g as int));
            while k < group.len()
                invariant
                    k <= group.len(),
                    targets(out@) == self.upto(g as int) + group@.take(k as int),
                decreases group.len() - k,
            {
                let ghost prev = out@;
                out.push(&group[k]);
                assert(targets(out@) =~= targets(prev).push(group@[k as int]));
                assert(targets(out@) =~= self.upto(g as int) + group@.take(k + 1));
                k += 1;
            }
            proof {
                assert(group@.take(group.len() as int) =~= group@);
                self.lemma_upto(g as int);
            }
            g += 1;
        }
        proof {
            self.lemma_upto(24);
        }
        out
    }

    /// The fastest available server of the whole inventory: absent when no
    /// server is available, else the available server that no other
    /// available server outranks.
    pub fn get_fastest_server(&self) -> (r: Option<&VpnServer>)
        ensures
            leads(r, self.catalogue()),
    {
        proof {
            use_type_invariant(self);
            self.lemma_upto(0);
        }
        let mut best: Option<&VpnServer> = None;
        let mut g: usize = 0;
        while g < 25
            invariant
                g <= 25,
                self.wf(),
                leads(best, self.upto(g as int)),
            decreases 25 - g,
        {
            best = extend_lead(&self.groups[g], best, Ghost(self.upto(g as int)));
            proof {
                self.lemma_upto(g as int);
            }
            g += 1;
        }
        proof {
            self.lemma_upto(24);
        }
        best
    }

    /// The fastest available server of a country.
    pub fn get_fastest_in_country(&self, country: &Country) -> (r: Option<&VpnServer>)
        ensures
            leads(r, self.group(*country)),
    {
        proof {
            use_type_invariant(self);
        }
        fastest_of(&self.groups[country.ordinal()])
    }

    /// The server to connect to: the one with the given id where an id is
    /// given, else the fastest of the given country where a country is
    /// given, else the fastest of all. Where there is none, the error says
    /// that no server is available.
    pub fn select_server(&self, id: Option<&str>, country: Option<&Country>) -> (r: Result<
        &VpnServer,
        VpnError,
    >)
        ensures
            match r {
                Ok(s) => selected(self.catalogue(), self.group_of(country), id, country, Some(s)),
                Err(e) => {
                    &&& selected(self.catalogue(), self.group_of(country), id, country, None)
                    &&& e matches VpnError::ServerUnavailable(m)
                    &&& m@ == "No available servers found"@
                },
            },
    {
        let found: Option<&VpnServer> = match id {
            Some(text) => self.find_server_by_id(text),
            None => match country {
                Some(c) => self.get_fastest_in_country(c),
                None => self.get_fastest_server(),
            },
        };
        match found {
            Some(s) => Ok(s),
            None => Err(VpnError::ServerUnavailable("No available servers found".to_string())),
        }
    }

    /// The servers of the country, where one is given.
    pub open spec fn group_of(&self, country: Option<&Country>) -> Seq<VpnServer> {
        match country {
            Some(c) => self.group(*c),
            None => Seq::empty(),
        }
    }

    /// Marks a server as a favourite. Marking it again changes nothing.
    pub fn add_favorite(&mut self, server_id: String)
        ensures
            final(self).favorites() == with_favorite(old(self).favorites(), server_id@),
            final(self).recent() == old(self).recent(),
            forall|c: Country| #[trigger] final(self).group(c) == old(self).group(c),
    {
        proof {
            use_type_invariant(&*self);
        }
        let ghost before = self.favorites@;
        let mut list = copy_list(&self.favorites);
        insert_text(&mut list, server_id);
        proof {
            if !texts(before).contains(server_id@) {
                assert(texts(list@) =~= texts(before).push(server_id@));
            }
        }
        self.favorites = list;
    }

    /// Takes a server out of the favourites. An id that is not among them
    /// changes nothing.
    pub fn remove_favorite(&mut self, server_id: &str)
        ensures
            final(self).favorites() == without_favorite(old(self).favorites(), server_id@),
            final(self).recent() == old(self).recent(),
            forall|c: Country| #[trigger] final(self).group(c) == old(self).group(c),
    {
        proof {
            use_type_invariant(&*self);
        }
        let mut list = copy_list(&self.favorites);
        remove_text(&mut list, server_id);
        self.favorites = list;
    }

    /// Records that a server was used: its id moves to the front of the
    /// recent list, which keeps its ten latest entries.
    pub fn add_recent(&mut self, server_id: String)
        ensures
            final(self).recent() == with_recent(old(self).recent(), server_id@),
            final(self).favorites() == old(self).favorites(),
            forall|c: Country| #[trigger] final(self).group(c) == old(self).group(c),
    {
        proof {
            use_type_invariant(&*self);
            lemma_recent(texts(self.recent@), server_id@);
        }
        let next = recent_after(&self.recent, server_id);
        self.recent = next;
    }

    /// The server with the given id: the first one in catalogue order.
    pub fn find_server_by_id(&self, id: &str) -> (r: Option<&VpnServer>)
        ensures
            match r {
                Some(s) => find_in(self.catalogue(), id@) == Some(*s),
                None => find_in(self.catalogue(), id@) is None,
            },
    {
        proof {
            use_type_invariant(self);
            self.lemma_upto(0);
        }
        let mut g: usize = 0;
        while g < 25
            invariant
                g <= 25,
                self.wf(),
                forall|j: int| 0 <= j < self.upto(g as int).len() ==> (#[trigger] self.upto(
                    g as int,
                )[j]).id@ != id@,
            decreases 25 - g,
        {
            let group = &self.groups[g];
            let ghost done = self.upto(g as int);
            let mut k: usize = 0;
            while k < group.len()
                invariant
                    k <= group.len(),
                    g < 25,
                    self.wf(),
                    group@ == self.groups@[g as int]@,
                    done == self.upto(g as int),
                    forall|j: int| 0 <= j < done.len() ==> (#[trigger] done[j]).id@ != id@,
                    forall|j: int| 0 <= j < k ==> (#[trigger] group@[j]).id@ != id@,
                decreases group.len() - k,
            {
                if str_eq(group[k].id.as_str(), id) {
                    proof {
                        self.lemma_upto(g as int);
                        self.lemma_rest(g as int + 1);
                        let pool = self.catalogue();
                        let at = done.len() + k;
                        let upto_next = self.upto(g + 1);
                        assert(upto_next[at] == group@[k as int]);
                        assert forall|j: int| 0 <= j < at implies (#[trigger] pool[j]).id@
                            != id@ by {
                            assert(pool[j] == upto_next[j]);
                            if j < done.len() {
                                assert(upto_next[j] == done[j]);
                            } else {
                                assert(upto_next[j] == group@[j - done.len()]);
                            }
                        }
                        assert(pool[at] == upto_next[at]);
                        lemma_find_from(pool, id@, 0, at);
                    }
                    return Some(&group[k]);
                }
                k += 1;
            }
            proof {
                self.lemma_upto(g as int);
                let next = self.upto(g + 1);
                assert forall|j: int| 0 <= j < next.len() implies (#[trigger] next[j]).id@
                    != id@ by {
                    if j < done.len() {
                        assert(next[j] == done[j]);
                    } else {
                        assert(next[j] == group@[j - done.len()]);
                    }
                }
            }
            g += 1;
        }
        proof {
            self.lemma_upto(24);
            lemma_find_from(self.catalogue(), id@, 0, self.catalogue().len() as int);
        }
        None
    }

    /// The servers of the first `n` countries open the catalogue.
    proof fn lemma_rest(&self, n: int)
        requires
            self.wf(),
            0 <= n <= 25,
        ensures
            self.upto(n).len() <= self.catalogue().len(),
            forall|j: int| 0 <= j < self.upto(n).len() ==> self.catalogue()[j] == self.upto(n)[j],
        decreases 25 - n,
    {
        if n < 25 {
            self.lemma_upto(n);
            self.lemma_rest(n + 1);
            assert forall|j: int| 0 <= j < self.upto(n).len() implies self.catalogue()[j]
                == self.upto(n)[j] by {
                assert(self.upto(n + 1)[j] == self.upto(n)[j]);
            }
        } else {
            self.lemma_upto(24);
        }
    }

    /// The servers that the given ids resolve to, in the order of the ids.
    fn resolve(&self, ids: &Vec<String>) -> (r: Vec<&VpnServer>)
        ensures
            targets(r@) == texts(ids@).filter_map(resolver(self.catalogue())),
    {
        let ghost f = resolver(self.catalogue());
        let mut out: Vec<&VpnServer> = Vec::new();
        let mut i: usize = 0;
        assert(texts(ids@.take(0)) =~= Seq::<Seq<char>>::empty());
        assert(targets(out@) =~= Seq::<VpnServer>::empty());
        while i < ids.len()
            invariant
                i <= ids.len(),
                f == resolver(self.catalogue()),
                targets(out@) == texts(ids@.take(i as int)).filter_map(f),
            decreases ids.len() - i,
        {
            let ghost done = texts(ids@.take(i as int));
            let ghost next = texts(ids@.take(i + 1));
            proof {
                assert(next =~= done.push(ids@[i as int]@));
                assert(next.drop_last() =~= done);
                assert(next.last() == ids@[i as int]@);
            }
            let ghost prev = out@;
            match self.find_server_by_id(ids[i].as_str()) {
                Some(s) => {
                    out.push(s);
                    assert(targets(out@) =~= targets(prev) + seq![*s]);
                },
                None => {},
            }
            i += 1;
        }
        assert(ids@.take(ids.len() as int) == ids@);
        out
    }

    /// The favourite servers that the inventory still holds, oldest first.
    pub fn get_favorites(&self) -> (r: Vec<&VpnServer>)
        ensures
            targets(r@) == self.favorites().filter_map(resolver(self.catalogue())),
    {
        self.resolve(&self.favorites)
    }

    /// The recently used servers that the inventory still holds, latest
    /// first.
    pub fn get_recent(&self) -> (r: Vec<&VpnServer>)
        ensures
            targets(r@) == self.recent().filter_map(resolver(self.catalogue())),
    {
        self.resolve(&self.recent)
    }
}

} // verus!
