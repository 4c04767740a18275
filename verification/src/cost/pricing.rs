//! What a call cost, as dated data rather than a constant.

use crate::cost::usage::{or_zero, Usage, UsageCoverage};
use crate::error::outcome;
use crate::json::{toml_parsed, trees, Json, Tree};
use crate::model::ModelId;
use crate::order::Table;
use crate::text::{
    all_digits, blank, chars_of, decimal, decimal_reads_back, decimal_text,
    digits_bound_their_number, digits_only, find_char, fixed, fixed_reads_back, fixed_text,
    followed_by, integer, integer_of, is_blank, is_digit, nat_of, number_of, quote, quoted,
    signed_decimal, signed_text, slice_of, ten_to, ten_to_grows, trim, trim_end, trim_start,
    trimmed, trimmed_is_no_longer, until, until_bounds, until_is,
};
use vstd::prelude::*;

verus! {

/// An amount of money, in millionths of the currency unit.
///
/// Integers all the way down. Token prices have six significant decimal places and a binary
/// float cannot hold `0.1` exactly, so a total built by adding floats drifts. Millionths of
/// a dollar hold every published price without rounding.
#[derive(Debug, Clone, Copy, PartialEq, Eq, PartialOrd, Ord, Structural)]
pub struct Micros(pub i64);

impl Default for Micros {
    fn default() -> (amount: Micros)
        ensures
            amount == Micros(0),
    {
        Micros(0)
    }
}

/// An integer cut down to what 64 bits can hold.
pub open spec fn clamped(n: int) -> i64 {
    if n > i64::MAX {
        i64::MAX
    } else if n < i64::MIN {
        i64::MIN
    } else {
        n as i64
    }
}

/// A quotient rounded toward zero.
pub open spec fn truncated(n: int, by: int) -> int {
    if n >= 0 {
        n / by
    } else {
        -((-n) / by)
    }
}

/// An integer cut down to what 64 bits can hold.
pub fn clamp(n: i128) -> (cut: i64)
    ensures
        cut == clamped(n as int),
{
    if n > 9_223_372_036_854_775_807 {
        9_223_372_036_854_775_807
    } else if n < -9_223_372_036_854_775_808 {
        -9_223_372_036_854_775_808
    } else {
        n as i64
    }
}

/// What some millionths come to at a price per million, rounded toward zero and cut down to
/// what 64 bits can hold.
pub open spec fn part_cost(tokens: int, per_million: i64) -> i64 {
    truncated(clamped(tokens * per_million) as int, 1_000_000) as i64
}

/// What this many tokens cost at a price per million.
pub(crate) fn cost_of(tokens: i64, per_million: i64) -> (cost: i64)
    requires
        tokens >= 0,
    ensures
        cost == part_cost(tokens as int, per_million),
{
    proof {
        assert(-0x8000_0000_0000_0000_0000_0000_0000_0000 <= tokens * per_million
            <= 0x7fff_ffff_ffff_ffff_ffff_ffff_ffff_ffff) by (nonlinear_arith)
            requires
                0 <= tokens <= i64::MAX,
                i64::MIN <= per_million <= i64::MAX,
        ;
    }
    let product: i64 = clamp(tokens as i128 * per_million as i128);
    let size: i128 = product as i128;
    if size >= 0 {
        (size / 1_000_000) as i64
    } else {
        (0 - (0 - size) / 1_000_000) as i64
    }
}

/// An amount as a price list writes it, in millionths, or why it is not one.
pub open spec fn amount_in(text: Seq<char>) -> Result<int, Seq<char>> {
    let t = trimmed(text);
    let negative = t.len() > 0 && t[0] == '-';
    let digits = if negative {
        t.skip(1)
    } else {
        t
    };
    let dot = until(digits, '.');
    let whole = digits.take(dot);
    let fraction = if dot < digits.len() {
        digits.skip(dot + 1)
    } else {
        Seq::empty()
    };
    if whole.len() == 0 || !all_digits(whole) || !all_digits(fraction) {
        Err(quoted(t) + " is not a decimal number"@)
    } else if fraction.len() > 6 {
        Err(
            quoted(t)
                + " has more than six decimal places. A price written to seven is one copied from a different unit, and rounding it would look correct"@,
        )
    } else {
        let millionths = nat_of(whole + fraction + zeros((6 - fraction.len()) as nat)) as int;
        if millionths > i64::MAX {
            Err(quoted(t) + " is too large to hold"@)
        } else if negative {
            Ok(-millionths)
        } else {
            Ok(millionths)
        }
    }
}

/// This many zeros.
pub open spec fn zeros(count: nat) -> Seq<char> {
    Seq::new(count, |i: int| '0')
}

/// An amount in millionths written out with six decimal places.
pub open spec fn written(millionths: int) -> Seq<char> {
    let size = if millionths < 0 {
        (-millionths) as nat
    } else {
        millionths as nat
    };
    let digits = decimal(size / 1_000_000) + seq!['.'] + fixed(size % 1_000_000, 6);
    if millionths < 0 {
        seq!['-'] + digits
    } else {
        digits
    }
}

/// What a reading of an amount gave.
pub open spec fn amount_read(read: Result<Micros, String>) -> Result<int, Seq<char>> {
    match read {
        Ok(amount) => Ok(amount.0 as int),
        Err(why) => Err(why@),
    }
}

impl Micros {
    /// Reads an amount written the way a price list writes it, such as `15.00` or `0.30`.
    ///
    /// Anything but a decimal number is refused with a message. More than six decimal
    /// places is an error rather than a rounding, because a price with seven places is one
    /// somebody copied from a different unit and the rounded version would look right.
    pub fn parse(text: &str) -> (read: Result<Micros, String>)
        ensures
            amount_read(read) == amount_in(text@),
    {
        let text = trim(text);
        let chars = chars_of(text.as_str());
        let negative = chars.len() > 0 && chars[0] == '-';
        let start: usize = if negative {
            1
        } else {
            0
        };
        let ghost digits = chars@.skip(start as int);
        assert(chars@.skip(0) == chars@);
        let dot = find_char(&chars, start, '.');
        let end = chars.len();
        let fraction: usize = if dot < end {
            dot + 1
        } else {
            end
        };
        assert(chars@.subrange(start as int, dot as int) == digits.take(dot - start));
        if dot < end {
            assert(chars@.subrange(fraction as int, end as int) == digits.skip(dot - start + 1));
        } else {
            assert(chars@.subrange(fraction as int, end as int) == Seq::<char>::empty());
        }
        if dot == start || !digits_only(&chars, start, dot) || !digits_only(
            &chars,
            fraction,
            end,
        ) {
            return Err(quote(text.as_str()).concat(" is not a decimal number"));
        }
        if end - fraction > 6 {
            return Err(
                quote(text.as_str()).concat(
                    " has more than six decimal places. A price written to seven is one copied from a different unit, and rounding it would look correct",
                ),
            );
        }
        let mut all = slice_of(&chars, start, dot);
        let ghost whole = all@;
        let mut i: usize = fraction;
        while i < end
            invariant
                fraction <= i <= end == chars.len(),
                all@ == whole + chars@.subrange(fraction as int, i as int),
            decreases end - i,
        {
            all.push(chars[i]);
            i += 1;
        }
        let ghost unpadded = all@;
        let mut places: usize = end - fraction;
        while places < 6
            invariant
                end - fraction <= places <= 6,
                fraction <= end,
                all@ == unpadded + zeros((places - (end - fraction)) as nat),
            decreases 6 - places,
        {
            all.push('0');
            places += 1;
        }
        assert(all_digits(all@)) by {
            assert(all_digits(chars@.subrange(start as int, dot as int)));
            assert(all_digits(chars@.subrange(fraction as int, end as int)));
        }
        match number_of(&all, 9_223_372_036_854_775_807) {
            Some(n) => Ok(
                Micros(
                    if negative {
                        -(n as i64)
                    } else {
                        n as i64
                    },
                ),
            ),
            None => Err(quote(text.as_str()).concat(" is too large to hold")),
        }
    }

    /// The amount, written out with six decimal places.
    ///
    /// Six rather than two. Rounding a per call cost to cents turns most calls into zero,
    /// and a column of zeros adds up to nothing.
    pub fn exact(self) -> (text: String)
        ensures
            text@ == written(self.0 as int),
    {
        let size: u64 = if self.0 < 0 {
            (0 - self.0 as i128) as u64
        } else {
            self.0 as u64
        };
        let mut text = String::new();
        if self.0 < 0 {
            text.append("-");
        }
        text.append(decimal_text((size / 1_000_000) as u128).as_str());
        text.append(".");
        text.append(fixed_text(size % 1_000_000, 6).as_str());
        proof {
            reveal_strlit("-");
            reveal_strlit(".");
            assert("-"@ == seq!['-']);
            assert("."@ == seq!['.']);
            assert(text@ == written(self.0 as int));
        }
        text
    }

    /// The amount, written out with six decimal places.
    pub fn to_string(&self) -> (text: String)
        ensures
            text@ == written(self.0 as int),
    {
        self.exact()
    }
}

impl std::ops::Add for Micros {
    type Output = Micros;

    fn add(self, other: Micros) -> (sum: Micros)
        ensures
            sum == Micros(clamped(self.0 + other.0)),
    {
        Micros(clamp(self.0 as i128 + other.0 as i128))
    }
}

impl vstd::std_specs::ops::AddSpecImpl for Micros {
    open spec fn obeys_add_spec() -> bool {
        true
    }

    open spec fn add_req(self, other: Micros) -> bool {
        true
    }

    open spec fn add_spec(self, other: Micros) -> Micros {
        Micros(clamped(self.0 + other.0))
    }
}

/// An amount written out reads back as the same amount. The least of all amounts is left out:
/// its size is one more than the largest there is, so it is refused as too large.
pub proof fn an_amount_reads_back(amount: i64)
    requires
        amount > i64::MIN,
    ensures
        amount_in(written(amount as int)) == Ok::<int, Seq<char>>(amount as int),
{
    let n = amount as int;
    let size = if n < 0 {
        (-n) as nat
    } else {
        n as nat
    };
    let q = size / 1_000_000;
    let r = size % 1_000_000;
    let text = written(n);
    let digits = decimal(q) + seq!['.'] + fixed(r, 6);
    decimal_reads_back(q);
    assert(ten_to(6) == 1_000_000) by {
        reveal_with_fuel(ten_to, 7);
    }
    fixed_reads_back(decimal(q), r, 6);
    assert(is_digit(decimal(q)[0]));
    assert(is_digit(fixed(r, 6)[5]));
    assert(text.last() == fixed(r, 6)[5]);
    assert(text[0] == '-' || text[0] == decimal(q)[0]);
    assert(trim_start(text) == text);
    assert(trim_end(text) == text);
    if n < 0 {
        assert(text.skip(1) == digits);
    } else {
        assert(text == digits);
    }
    let dot = decimal(q).len() as int;
    assert forall|i: int| 0 <= i < dot implies #[trigger] digits[i] != '.' by {
        assert(digits[i] == decimal(q)[i]);
        assert(is_digit(decimal(q)[i]));
    }
    until_is(digits, '.', dot);
    assert(digits.take(dot) == decimal(q));
    assert(digits.skip(dot + 1) == fixed(r, 6));
    assert(decimal(q) + fixed(r, 6) + zeros(0) == decimal(q) + fixed(r, 6));
    assert(nat_of(decimal(q) + fixed(r, 6)) == q * 1_000_000 + r);
}

/// What one model costs, per million tokens.
#[derive(Debug, Clone, Copy, PartialEq, Eq, Structural)]
pub struct Rate {
    /// Uncached prompt tokens.
    pub input: Micros,
    /// Prompt tokens served from cache.
    pub cache_read: Micros,
    /// Prompt tokens written to cache.
    pub cache_write: Micros,
    /// Tokens produced.
    pub output: Micros,
}

impl Default for Rate {
    fn default() -> (rate: Rate)
        ensures
            rate == (Rate {
                input: Micros(0),
                cache_read: Micros(0),
                cache_write: Micros(0),
                output: Micros(0),
            }),
    {
        Rate {
            input: Micros(0),
            cache_read: Micros(0),
            cache_write: Micros(0),
            output: Micros(0),
        }
    }
}


impl DeepView for Rate {
    type V = Rate;

    open spec fn deep_view(&self) -> Rate {
        *self
    }
}

/// A priced table, and where its numbers came from.
///
/// Prices change on the vendor's schedule. A table with no date on it is a table nobody can
/// audit, so every book carries when it took effect and when a person last checked it.
#[derive(Debug, Clone, PartialEq)]
pub struct PriceBook {
    /// A name for this edition, recorded beside anything it priced.
    pub id: String,
    /// Which vendor these prices are for.
    pub provider: String,
    /// The date these prices took effect, as `YYYY-MM-DD`.
    pub effective_from: String,
    /// Where the numbers came from. A published page, an invoice, a contract.
    pub source: String,
    /// When a person last checked them, as `YYYY-MM-DD`.
    pub verified_at: String,
    /// The date after which these numbers are known to be wrong, as `YYYY-MM-DD`.
    ///
    /// Not for a book that might have drifted; that is what [`PriceBook::age`] is for. This
    /// is for a book that has been told when it stops being right: an introductory rate the
    /// vendor has already published an end date for, a contract that runs out, a quarter's
    /// negotiated pricing. `None` when nothing said.
    pub expires_on: Option<String>,
    /// The currency, as an ISO code such as `USD`.
    pub currency: String,
    /// Rates by model name.
    pub rates: Table<Rate>,
}

/// What a [`PriceBook`] holds.
#[verifier::ext_equal]
pub struct Book {
    pub id: Seq<char>,
    pub provider: Seq<char>,
    pub effective_from: Seq<char>,
    pub source: Seq<char>,
    pub verified_at: Seq<char>,
    pub expires_on: Option<Seq<char>>,
    pub currency: Seq<char>,
    pub rates: Map<Seq<char>, Rate>,
}

impl DeepView for PriceBook {
    type V = Book;

    open spec fn deep_view(&self) -> Book {
        Book {
            id: self.id@,
            provider: self.provider@,
            effective_from: self.effective_from@,
            source: self.source@,
            verified_at: self.verified_at@,
            expires_on: self.expires_on.deep_view(),
            currency: self.currency@,
            rates: self.rates@,
        }
    }
}

/// A cost, and how much of it rests on numbers that were actually reported.
#[derive(Debug, Clone, PartialEq, Eq)]
pub struct Priced {
    /// The amount.
    pub amount: Micros,
    /// What the amount is denominated in, copied from the book that priced it.
    ///
    /// An ISO code such as `USD`. [`Micros`] is a bare integer and two of them add whatever
    /// they are: without this field a ledger holding one call priced in dollars and one in
    /// euros would produce a number that is neither.
    pub currency: String,
    /// Which price book edition produced it.
    pub book: String,
    /// How complete the usage behind it was.
    ///
    /// A cost from partial usage understates the bill. Carrying the coverage means a total
    /// can say so instead of looking exact.
    pub coverage: UsageCoverage,
}

/// What a [`Priced`] holds.
#[verifier::ext_equal]
pub struct Cost {
    pub amount: Micros,
    pub currency: Seq<char>,
    pub book: Seq<char>,
    pub coverage: UsageCoverage,
}

impl DeepView for Priced {
    type V = Cost;

    open spec fn deep_view(&self) -> Cost {
        Cost {
            amount: self.amount,
            currency: self.currency@,
            book: self.book@,
            coverage: self.coverage,
        }
    }
}

/// Why a price book should be checked again before anything is billed against it.
///
/// A reason rather than a boolean: "this table is stale" and "this table expired eleven days
/// ago" call for different things, and a program that cannot tell them apart cannot act on
/// either.
#[derive(Debug, Clone, PartialEq, Eq)]
pub enum Recheck {
    /// Past the date the book itself said its numbers stop being right.
    ///
    /// The one that is not a judgement call. Somebody published an end date and it has
    /// passed, so every figure this book produces from here is wrong by whatever changed.
    Expired {
        /// The date the book named, as `YYYY-MM-DD`.
        on: String,
        /// How long ago that was, in days.
        days_ago: i64,
    },
    /// Nobody has checked these numbers in longer than the rule allows.
    Aged {
        /// Days since [`PriceBook::verified_at`].
        days: i64,
    },
    /// A date on this book cannot be read, so its age is unknowable.
    ///
    /// Reported rather than ignored. A book whose date is `"soon"` is a book that would
    /// otherwise never age, and never ageing is exactly the failure the dates exist to stop.
    Undatable {
        /// Which field could not be read.
        field: &'static str,
    },
}

/// What a [`Recheck`] says.
#[verifier::ext_equal]
pub enum Reason {
    Expired { on: Seq<char>, days_ago: int },
    Aged { days: int },
    Undatable { field: Seq<char> },
}

impl DeepView for Recheck {
    type V = Reason;

    open spec fn deep_view(&self) -> Reason {
        match *self {
            Recheck::Expired { on, days_ago } => Reason::Expired {
                on: on@,
                days_ago: days_ago as int,
            },
            Recheck::Aged { days } => Reason::Aged { days: days as int },
            Recheck::Undatable { field } => Reason::Undatable { field: field@ },
        }
    }
}

impl Reason {
    /// The reason in one line.
    pub open spec fn line(self) -> Seq<char> {
        match self {
            Reason::Expired { on, days_ago } => "expired on "@ + on + ", "@ + signed_decimal(
                days_ago,
            ) + " days ago"@,
            Reason::Aged { days } => "last checked "@ + signed_decimal(days) + " days ago"@,
            Reason::Undatable { field } => field + " is not a date this can read"@,
        }
    }
}

impl Recheck {
    /// The reason in one line, for a person to read.
    pub fn to_string(&self) -> (line: String)
        ensures
            line@ == self.deep_view().line(),
    {
        match self {
            Recheck::Expired { on, days_ago } => followed_by("expired on ", on).concat(
                ", ",
            ).concat(signed_text(*days_ago).as_str()).concat(" days ago"),
            Recheck::Aged { days } => followed_by(
                "last checked ",
                signed_text(*days).as_str(),
            ).concat(" days ago"),
            Recheck::Undatable { field } => followed_by(field, " is not a date this can read"),
        }
    }
}

/// The days from 1970-01-01 to a date of the civil calendar.
///
/// The year is counted from March, which puts the leap day at its end: a year has 365 days,
/// one more in every fourth, one less in every hundredth and one more in every four hundredth,
/// and the months from March on have 31, 30, 31, 30, 31, 31, 30, 31, 30, 31 and 31 days.
pub open spec fn day_count(year: int, month: int, day: int) -> int {
    let y = if month <= 2 {
        year - 1
    } else {
        year
    };
    365 * y + y / 4 - y / 100 + y / 400 + (153 * ((month + 9) % 12) + 2) / 5 + day - 1 - 719_468
}

/// The day number of a text that gives a date as year, month and day with hyphens between.
pub open spec fn day_of(text: Seq<char>) -> Option<int> {
    let t = trimmed(text);
    let a = until(t, '-');
    let rest = t.skip(a + 1);
    let b = until(rest, '-');
    if a >= t.len() || b >= rest.len() {
        None
    } else {
        match (integer_of(t.take(a)), integer_of(rest.take(b)), integer_of(rest.skip(b + 1))) {
            (Some(year), Some(month), Some(day)) => if 1 <= month <= 12 && 1 <= day <= 31 {
                Some(day_count(year, month, day))
            } else {
                None
            },
            _ => None,
        }
    }
}

/// Whether the day of a text can be counted in 64 bits. Only a year far beyond any calendar
/// has one that cannot.
pub open spec fn countable(text: Seq<char>) -> bool {
    day_of(text) matches Some(day) ==> day + 719_468 <= i64::MAX
}

/// Whether the days of two texts are so close that 64 bits can count the days between them.
pub open spec fn comparable(a: Seq<char>, b: Seq<char>) -> bool {
    match (day_of(a), day_of(b)) {
        (Some(a), Some(b)) => i64::MIN <= a - b <= i64::MAX,
        _ => true,
    }
}

/// A date whose text is short is not far from the start of counting.
proof fn a_short_date_is_near(text: Seq<char>)
    requires
        text.len() <= 16,
    ensures
        day_of(text) matches Some(day) ==> -719_900 <= day <= 4_000_000_000_000_000_000,
{
    if day_of(text) is Some {
        let t = trimmed(text);
        trimmed_is_no_longer(text);
        let a = until(t, '-');
        until_bounds(t, '-');
        let year = t.take(a);
        let signed = year.len() > 0 && (year[0] == '-' || year[0] == '+');
        let digits = if signed {
            year.skip(1)
        } else {
            year
        };
        if year.len() > 0 {
            assert(t[0] != '-');
            assert(year[0] == t[0]);
        }
        digits_bound_their_number(digits);
        ten_to_grows(digits.len(), 16);
        assert(ten_to(16) == 10_000_000_000_000_000) by {
            reveal_with_fuel(ten_to, 17);
        }
    }
}

/// Dates whose texts are short, as every date with a year of four digits is, can be counted and
/// compared.
pub proof fn short_dates_are_countable(a: Seq<char>, b: Seq<char>)
    requires
        a.len() <= 16,
        b.len() <= 16,
    ensures
        countable(a),
        countable(b),
        comparable(a, b),
{
    a_short_date_is_near(a);
    a_short_date_is_near(b);
}

/// Whether a year has a leap day.
pub open spec fn is_leap(year: int) -> bool {
    year % 4 == 0 && (year % 100 != 0 || year % 400 == 0)
}

/// How many days a month has.
pub open spec fn month_length(year: int, month: int) -> int {
    if month == 2 {
        if is_leap(year) {
            29
        } else {
            28
        }
    } else if month == 4 || month == 6 || month == 9 || month == 11 {
        30
    } else {
        31
    }
}

/// One year further there is one more fourth year exactly where the year is one.
proof fn fourth_years(year: int)
    ensures
        year / 4 - (year - 1) / 4 == (if year % 4 == 0 {
            1int
        } else {
            0
        }),
{
}

/// One year further there is one more hundredth year exactly where the year is one.
proof fn hundredth_years(year: int)
    ensures
        year / 100 - (year - 1) / 100 == (if year % 100 == 0 {
            1int
        } else {
            0
        }),
{
}

/// One year further there is one more four hundredth year exactly where the year is one.
proof fn four_hundredth_years(year: int)
    ensures
        year / 400 - (year - 1) / 400 == (if year % 400 == 0 {
            1int
        } else {
            0
        }),
{
}

/// A four hundredth year is a hundredth, and a hundredth is a fourth.
proof fn hundredths_are_fourths(year: int)
    ensures
        year % 400 == 0 ==> year % 100 == 0,
        year % 100 == 0 ==> year % 4 == 0,
{
    if year % 400 == 0 {
        assert(year == 100 * (4 * (year / 400)));
    }
    if year % 100 == 0 {
        assert(year == 4 * (25 * (year / 100)));
    }
}

/// The day number of a date: the first day is 1970-01-01, each day of a month follows the one
/// before it, and the first of a month follows the last of the month before, in leap years
/// and others.
pub proof fn days_follow_each_other(year: int, month: int, day: int)
    requires
        1 <= month <= 12,
    ensures
        day_count(1970, 1, 1) == 0,
        day_count(year, month, day + 1) == day_count(year, month, day) + 1,
        month < 12 ==> day_count(year, month + 1, 1) == day_count(
            year,
            month,
            month_length(year, month),
        ) + 1,
        month == 12 ==> day_count(year + 1, 1, 1) == day_count(year, 12, 31) + 1,
{
    if month == 2 {
        fourth_years(year);
        hundredth_years(year);
        four_hundredth_years(year);
        hundredths_are_fourths(year);
    }
}

/// Whole years in eras of four hundred count the same days as year by year.
proof fn eras_count_the_same(year: int, era: int, year_of_era: int)
    requires
        year == era * 400 + year_of_era,
        0 <= year_of_era < 400,
    ensures
        era * 146_097 + year_of_era * 365 + year_of_era / 4 - year_of_era / 100 == 365 * year + year
            / 4 - year / 100 + year / 400,
{
    assert(year / 4 == era * 100 + year_of_era / 4);
    assert(year / 100 == era * 4 + year_of_era / 100);
    assert(year / 400 == era);
}

/// The days from 1970-01-01 to a date.
fn count_days(year: i64, month: i64, day: i64) -> (count: i64)
    requires
        year >= 0,
        1 <= month <= 12,
        1 <= day <= 31,
        day_count(year as int, month as int, day as int) + 719_468 <= i64::MAX,
    ensures
        count == day_count(year as int, month as int, day as int),
        -719_528 <= count,
{
    // March is treated as the first month, which puts the leap day at the end of the year
    // and removes every special case from the arithmetic below.
    let shifted_year: i128 = if month <= 2 {
        year as i128 - 1
    } else {
        year as i128
    };
    let era: i128 = if shifted_year >= 0 {
        shifted_year / 400
    } else {
        -1
    };
    let year_of_era: i128 = shifted_year - era * 400;
    let shifted_month: i128 = (month as i128 + 9) % 12;
    let day_of_year: i128 = (153 * shifted_month + 2) / 5 + day as i128 - 1;
    let day_of_era: i128 = year_of_era * 365 + year_of_era / 4 - year_of_era / 100 + day_of_year;
    let count: i128 = era * 146_097 + day_of_era - 719_468;
    proof {
        eras_count_the_same(shifted_year as int, era as int, year_of_era as int);
    }
    count as i64
}

/// A `YYYY-MM-DD` date as a day number, so two of them can be subtracted.
///
/// Days since 1970-01-01. `None` for anything that is not three numbers in that shape.
#[verifier::spinoff_prover]
#[verifier::rlimit(40)]
pub fn day_number(text: &str) -> (day: Option<i64>)
    requires
        countable(text@),
    ensures
        day is Some <==> day_of(text@) is Some,
        day matches Some(day) ==> day_of(text@) == Some(day as int),
        day matches Some(day) ==> -719_528 <= day,
{
    let chars = chars_of(trim(text).as_str());
    let a = find_char(&chars, 0, '-');
    assert(chars@.skip(0) == chars@);
    if a >= chars.len() {
        return None;
    }
    let b = find_char(&chars, a + 1, '-');
    if b >= chars.len() {
        return None;
    }
    let ghost rest = chars@.skip(a as int + 1);
    assert(chars@.subrange(0, a as int) == chars@.take(a as int));
    assert(chars@.subrange(a as int + 1, b as int) == rest.take(b - a - 1));
    assert(chars@.subrange(b as int + 1, chars.len() as int) == rest.skip(b - a));
    let year: i64 = match integer(&slice_of(&chars, 0, a)) {
        Some(year) => year,
        None => {
            return None;
        },
    };
    let month: i64 = match integer(&slice_of(&chars, a + 1, b)) {
        Some(month) => month,
        None => {
            return None;
        },
    };
    let day: i64 = match integer(&slice_of(&chars, b + 1, chars.len())) {
        Some(day) => day,
        None => {
            return None;
        },
    };
    if month < 1 || month > 12 || day < 1 || day > 31 {
        return None;
    }
    proof {
        // No hyphen stands before the first one, so the year has no minus sign.
        crate::text::until_bounds(chars@, '-');
        if a > 0 {
            assert(chars@.take(a as int)[0] == chars@[0]);
        }
        assert(year >= 0);
    }
    Some(count_days(year, month, day))
}

impl Book {
    /// Whether this book should be checked again, and why.
    pub open spec fn recheck(self, today: Seq<char>) -> Option<Reason> {
        match day_of(today) {
            None => Some(Reason::Undatable { field: "today"@ }),
            Some(now) => match self.expires_on {
                Some(expires) => match day_of(expires) {
                    None => Some(Reason::Undatable { field: "expires_on"@ }),
                    Some(end) => if now > end {
                        Some(Reason::Expired { on: expires, days_ago: now - end })
                    } else {
                        self.aged(now)
                    },
                },
                None => self.aged(now),
            },
        }
    }

    /// Whether the answer does not go by when a person checked this book: today is no date, or
    /// when the book expires is none, or it has expired.
    pub open spec fn settled(self, today: Seq<char>) -> bool {
        match day_of(today) {
            None => true,
            Some(now) => match self.expires_on {
                Some(expires) => match day_of(expires) {
                    None => true,
                    Some(end) => now > end,
                },
                None => false,
            },
        }
    }

    /// Whether it is too long since a person checked this book.
    pub open spec fn aged(self, now: int) -> Option<Reason> {
        match day_of(self.verified_at) {
            None => Some(Reason::Undatable { field: "verified_at"@ }),
            Some(checked) => if now - checked >= 90 {
                Some(Reason::Aged { days: now - checked })
            } else {
                None
            },
        }
    }

    /// What a call cost: nothing is said where there is no rate for the model or nothing was
    /// reported of the tokens.
    pub open spec fn price(self, model: Seq<char>, usage: Usage) -> Option<Cost> {
        if !self.rates.contains_key(model) || usage.covers() == UsageCoverage::Absent {
            None
        } else {
            Some(
                Cost {
                    amount: Micros(amount_of(self.rates[model], usage)),
                    currency: self.currency,
                    book: self.id,
                    coverage: usage.covers(),
                },
            )
        }
    }
}

/// A token count cut down to what 64 bits with a sign can hold, zero where there is none.
pub open spec fn counted(tokens: Option<u64>) -> int {
    if or_zero(tokens) > i64::MAX {
        i64::MAX as int
    } else {
        or_zero(tokens)
    }
}

/// What a usage comes to at a rate: each part for itself, added up in turn.
pub open spec fn amount_of(rate: Rate, usage: Usage) -> i64 {
    clamped(
        clamped(
            clamped(
                part_cost(counted(usage.input_tokens), rate.input.0) + part_cost(
                    counted(usage.cache_read_tokens),
                    rate.cache_read.0,
                ),
            ) + part_cost(counted(usage.cache_write_tokens), rate.cache_write.0),
        ) + part_cost(counted(usage.output_tokens), rate.output.0),
    )
}

/// What some tokens cost at a price per million.
fn part(tokens: Option<u64>, per_million: Micros) -> (cost: i64)
    ensures
        cost == part_cost(counted(tokens), per_million.0),
{
    let tokens: u64 = tokens.unwrap_or(0);
    let tokens: i64 = if tokens > 9_223_372_036_854_775_807 {
        9_223_372_036_854_775_807
    } else {
        tokens as i64
    };
    cost_of(tokens, per_million.0)
}

/// A text that a document must give under this name.
pub open spec fn required_text(tree: Tree, name: Seq<char>) -> Result<Seq<char>, Seq<char>> {
    match tree.text_at(name) {
        Some(text) => Ok(text),
        None => Err("no text is given for "@ + name),
    }
}

/// A text that a document may give under this name.
pub open spec fn optional_text(tree: Tree, name: Seq<char>) -> Result<
    Option<Seq<char>>,
    Seq<char>,
> {
    match tree.get(name) {
        None => Ok(None),
        Some(value) => match value.as_str() {
            Some(text) => Ok(Some(text)),
            None => Err("no text is given for "@ + name),
        },
    }
}

/// An amount that a document may give under this name, and must where it is required.
pub open spec fn amount_at(tree: Tree, name: Seq<char>, required: bool) -> Result<
    int,
    Seq<char>,
> {
    match tree.get(name) {
        None => if required {
            Err("no text is given for "@ + name)
        } else {
            Ok(0)
        },
        Some(value) => match value.as_str() {
            Some(text) => amount_in(text),
            None => Err("no text is given for "@ + name),
        },
    }
}

/// A row with one more member, where the list it was written as has an item in this place.
pub open spec fn placed(row: Tree, name: Seq<char>, items: Seq<Tree>, place: int) -> Tree {
    if place < items.len() {
        row.with(name, items[place])
    } else {
        row
    }
}

/// A row of a price file by the names of its members. One that is written as a list gives them
/// in this order, and what follows them is not read.
pub open spec fn row_by_name(row: Tree) -> Tree {
    match row {
        Tree::Array(items) => {
            let named = placed(Tree::empty_object(), "model"@, items, 0);
            let named = placed(named, "input"@, items, 1);
            let named = placed(named, "output"@, items, 2);
            let named = placed(named, "cache_read"@, items, 3);
            placed(named, "cache_write"@, items, 4)
        },
        other => other,
    }
}

/// One row of a price file: a model and its rate.
pub open spec fn row_in(tree: Tree) -> Result<(Seq<char>, Rate), Seq<char>> {
    members_in(row_by_name(tree))
}

/// One row of a price file, by the names of its members.
pub open spec fn members_in(tree: Tree) -> Result<(Seq<char>, Rate), Seq<char>> {
    match (
        required_text(tree, "model"@),
        amount_at(tree, "input"@, true),
        amount_at(tree, "output"@, true),
        amount_at(tree, "cache_read"@, false),
        amount_at(tree, "cache_write"@, false),
    ) {
        (Err(why), _, _, _, _) => Err(why),
        (_, Err(why), _, _, _) => Err(why),
        (_, _, Err(why), _, _) => Err(why),
        (_, _, _, Err(why), _) => Err(why),
        (_, _, _, _, Err(why)) => Err(why),
        (Ok(model), Ok(input), Ok(output), Ok(read), Ok(write)) => Ok(
            (
                model,
                Rate {
                    input: Micros(input as i64),
                    cache_read: Micros(read as i64),
                    cache_write: Micros(write as i64),
                    output: Micros(output as i64),
                },
            ),
        ),
    }
}

/// The rows of a price file, in order. The first that cannot be read refuses them all.
pub open spec fn rows_in(rows: Seq<Tree>) -> Result<Seq<(Seq<char>, Rate)>, Seq<char>>
    decreases rows.len(),
{
    if rows.len() == 0 {
        Ok(Seq::empty())
    } else {
        match (rows_in(rows.drop_last()), row_in(rows.last())) {
            (Err(why), _) => Err(why),
            (_, Err(why)) => Err(why),
            (Ok(first), Ok(row)) => Ok(first.push(row)),
        }
    }
}

/// Rates by model. A model that is listed twice refuses them all.
pub open spec fn rates_of(rows: Seq<(Seq<char>, Rate)>) -> Result<Map<Seq<char>, Rate>, Seq<char>>
    decreases rows.len(),
{
    if rows.len() == 0 {
        Ok(Map::empty())
    } else {
        match rates_of(rows.drop_last()) {
            Err(why) => Err(why),
            Ok(rates) => if rates.contains_key(rows.last().0) {
                Err(
                    rows.last().0
                        + " is priced twice. One row would silently overrule the other"@,
                )
            } else {
                Ok(rates.insert(rows.last().0, rows.last().1))
            },
        }
    }
}

/// The rates that a document gives under `price`: none where it has no such member.
pub open spec fn rates_in(tree: Tree) -> Result<Map<Seq<char>, Rate>, Seq<char>> {
    match tree.get("price"@) {
        None => Ok(Map::empty()),
        Some(value) => match value.as_array() {
            None => Err("price is not a list"@),
            Some(rows) => match rows_in(rows) {
                Err(why) => Err(why),
                Ok(rows) => rates_of(rows),
            },
        },
    }
}

/// A price book as a document gives it, before its fields are looked at.
pub open spec fn unchecked_book(tree: Tree) -> Result<Book, Seq<char>> {
    match (
        required_text(tree, "id"@),
        required_text(tree, "provider"@),
        required_text(tree, "effective_from"@),
        required_text(tree, "source"@),
        required_text(tree, "verified_at"@),
        optional_text(tree, "expires_on"@),
        required_text(tree, "currency"@),
        rates_in(tree),
    ) {
        (Err(why), _, _, _, _, _, _, _) => Err(why),
        (_, Err(why), _, _, _, _, _, _) => Err(why),
        (_, _, Err(why), _, _, _, _, _) => Err(why),
        (_, _, _, Err(why), _, _, _, _) => Err(why),
        (_, _, _, _, Err(why), _, _, _) => Err(why),
        (_, _, _, _, _, Err(why), _, _) => Err(why),
        (_, _, _, _, _, _, Err(why), _) => Err(why),
        (_, _, _, _, _, _, _, Err(why)) => Err(why),
        (
            Ok(id),
            Ok(provider),
            Ok(effective_from),
            Ok(source),
            Ok(verified_at),
            Ok(expires_on),
            Ok(currency),
            Ok(rates),
        ) => Ok(
            Book {
                id,
                provider,
                effective_from,
                source,
                verified_at,
                expires_on,
                currency,
                rates,
            },
        ),
    }
}

/// The message for a field that makes a book auditable and is blank.
pub open spec fn blank_field(field: Seq<char>) -> Seq<char> {
    field
        + " is blank. A price nobody can date or trace is a number nobody can check"@
}

/// A price book that can be audited: none of the fields that say where it came from is blank.
pub open spec fn checked_book(book: Book) -> Result<Book, Seq<char>> {
    if is_blank(book.id) {
        Err(blank_field("id"@))
    } else if is_blank(book.provider) {
        Err(blank_field("provider"@))
    } else if is_blank(book.effective_from) {
        Err(blank_field("effective_from"@))
    } else if is_blank(book.source) {
        Err(blank_field("source"@))
    } else if is_blank(book.verified_at) {
        Err(blank_field("verified_at"@))
    } else if is_blank(book.currency) {
        Err(blank_field("currency"@))
    } else {
        Ok(book)
    }
}

/// A price book as a document gives it.
pub open spec fn book_in(tree: Tree) -> Result<Book, Seq<char>> {
    match unchecked_book(tree) {
        Err(why) => Err(why),
        Ok(book) => checked_book(book),
    }
}

/// Reads a text that a document must give under this name.
pub(crate) fn read_required(json: &Json, name: &str) -> (read: Result<String, String>)
    ensures
        outcome(read) == required_text(json.tree(), name@),
{
    match json.text_at(name) {
        Some(text) => Ok(text.to_owned()),
        None => Err(followed_by("no text is given for ", name)),
    }
}

/// Reads a text that a document may give under this name.
fn read_optional(json: &Json, name: &str) -> (read: Result<Option<String>, String>)
    ensures
        outcome(read) == optional_text(json.tree(), name@),
{
    match json.get(name) {
        None => Ok(None),
        Some(value) => match value.as_str() {
            Some(text) => Ok(Some(text.to_owned())),
            None => Err(followed_by("no text is given for ", name)),
        },
    }
}

/// Reads an amount that a document may give under this name.
fn read_amount(json: &Json, name: &str, required: bool) -> (read: Result<Micros, String>)
    ensures
        amount_read(read) == amount_at(json.tree(), name@, required),
{
    match json.get(name) {
        None => if required {
            Err(followed_by("no text is given for ", name))
        } else {
            Ok(Micros(0))
        },
        Some(value) => match value.as_str() {
            Some(text) => Micros::parse(text),
            None => Err(followed_by("no text is given for ", name)),
        },
    }
}

/// Puts one more member into a row, where the list it was written as has an item in this place.
pub(crate) fn place(row: Json, name: &str, items: &Vec<Json>, at: usize) -> (named: Json)
    ensures
        named.tree() == placed(row.tree(), name@, trees(items@), at as int),
{
    if at < items.len() {
        row.with(name, items[at].clone())
    } else {
        row
    }
}

/// Names the members of a row that is written as a list.
fn name_members(items: &Vec<Json>) -> (named: Json)
    ensures
        named.tree() == row_by_name(Tree::Array(trees(items@))),
{
    let named = place(Json::object(), "model", items, 0);
    let named = place(named, "input", items, 1);
    let named = place(named, "output", items, 2);
    let named = place(named, "cache_read", items, 3);
    place(named, "cache_write", items, 4)
}

/// Reads one row of a price file.
fn read_row(json: &Json) -> (read: Result<(String, Rate), String>)
    ensures
        outcome(read) == row_in(json.tree()),
{
    match json {
        Json::Array(items) => read_members(&name_members(items)),
        _ => read_members(json),
    }
}

/// Reads one row of a price file by the names of its members.
fn read_members(json: &Json) -> (read: Result<(String, Rate), String>)
    ensures
        outcome(read) == members_in(json.tree()),
{
    let model = match read_required(json, "model") {
        Ok(model) => model,
        Err(why) => {
            return Err(why);
        },
    };
    let input = match read_amount(json, "input", true) {
        Ok(amount) => amount,
        Err(why) => {
            return Err(why);
        },
    };
    let output = match read_amount(json, "output", true) {
        Ok(amount) => amount,
        Err(why) => {
            return Err(why);
        },
    };
    let cache_read = match read_amount(json, "cache_read", false) {
        Ok(amount) => amount,
        Err(why) => {
            return Err(why);
        },
    };
    let cache_write = match read_amount(json, "cache_write", false) {
        Ok(amount) => amount,
        Err(why) => {
            return Err(why);
        },
    };
    Ok((model, Rate { input, cache_read, cache_write, output }))
}

/// Reads the rows of a price file.
fn read_rows(rows: &Vec<Json>) -> (read: Result<Vec<(String, Rate)>, String>)
    ensures
        outcome(read) == rows_in(trees(rows@)),
{
    let mut found: Vec<(String, Rate)> = Vec::new();
    let mut i: usize = 0;
    assert(trees(rows@).take(0) == Seq::<Tree>::empty());
    assert(found.deep_view() == Seq::<(Seq<char>, Rate)>::empty());
    while i < rows.len()
        invariant
            i <= rows.len(),
            rows_in(trees(rows@).take(i as int)) == Ok::<Seq<(Seq<char>, Rate)>, Seq<char>>(
                found.deep_view(),
            ),
        decreases rows.len() - i,
    {
        let ghost some = trees(rows@).take(i + 1);
        assert(some.drop_last() == trees(rows@).take(i as int));
        assert(some.last() == rows[i as int].tree());
        let ghost before = found.deep_view();
        match read_row(&rows[i]) {
            Ok(row) => {
                found.push(row);
                assert(found.deep_view() == before.push(row.deep_view()));
            },
            Err(why) => {
                proof {
                    rows_fail_together(trees(rows@), i + 1);
                }
                return Err(why);
            },
        }
        i += 1;
    }
    assert(trees(rows@).take(i as int) == trees(rows@));
    Ok(found)
}

/// Rows of which the first few cannot be read cannot be read for the same reason.
proof fn rows_fail_together(rows: Seq<Tree>, i: int)
    requires
        0 <= i <= rows.len(),
        rows_in(rows.take(i)) is Err,
    ensures
        rows_in(rows) == rows_in(rows.take(i)),
    decreases rows.len() - i,
{
    if i < rows.len() {
        assert(rows.take(i + 1).drop_last() == rows.take(i));
        rows_fail_together(rows, i + 1);
    } else {
        assert(rows.take(i) == rows);
    }
}

/// Rows of which the first few list a model twice are refused for the same reason.
proof fn rates_fail_together(rows: Seq<(Seq<char>, Rate)>, i: int)
    requires
        0 <= i <= rows.len(),
        rates_of(rows.take(i)) is Err,
    ensures
        rates_of(rows) == rates_of(rows.take(i)),
    decreases rows.len() - i,
{
    if i < rows.len() {
        assert(rows.take(i + 1).drop_last() == rows.take(i));
        rates_fail_together(rows, i + 1);
    } else {
        assert(rows.take(i) == rows);
    }
}

/// What a reading of rates gave.
pub open spec fn rates_read(read: Result<Table<Rate>, String>) -> Result<
    Map<Seq<char>, Rate>,
    Seq<char>,
> {
    match read {
        Ok(rates) => Ok(rates@),
        Err(why) => Err(why@),
    }
}

/// Puts rows into a table by model.
fn table_of(rows: &Vec<(String, Rate)>) -> (read: Result<Table<Rate>, String>)
    ensures
        rates_read(read) == rates_of(rows.deep_view()),
{
    let mut rates: Table<Rate> = Table::new();
    let mut i: usize = 0;
    assert(rows.deep_view().take(0) == Seq::<(Seq<char>, Rate)>::empty());
    while i < rows.len()
        invariant
            i <= rows.len(),
            rates_of(rows.deep_view().take(i as int)) == Ok::<Map<Seq<char>, Rate>, Seq<char>>(
                rates@,
            ),
        decreases rows.len() - i,
    {
        let ghost some = rows.deep_view().take(i + 1);
        assert(some.drop_last() == rows.deep_view().take(i as int));
        assert(some.last() == rows[i as int].deep_view());
        if rates.get(rows[i].0.as_str()).is_some() {
            proof {
                rates_fail_together(rows.deep_view(), i + 1);
            }
            return Err(
                followed_by(
                    rows[i].0.as_str(),
                    " is priced twice. One row would silently overrule the other",
                ),
            );
        }
        rates.insert(rows[i].0.clone(), rows[i].1);
        i += 1;
    }
    assert(rows.deep_view().take(i as int) == rows.deep_view());
    Ok(rates)
}

/// Reads the rates that a document gives under `price`.
fn read_rates(json: &Json) -> (read: Result<Table<Rate>, String>)
    ensures
        rates_read(read) == rates_in(json.tree()),
{
    match json.get("price") {
        None => Ok(Table::new()),
        Some(value) => match value.as_array() {
            None => Err("price is not a list".to_owned()),
            Some(rows) => match read_rows(rows) {
                Err(why) => Err(why),
                Ok(rows) => table_of(&rows),
            },
        },
    }
}

impl PriceBook {
    /// How long a price table may go unchecked before it says so: 90 days.
    ///
    /// A rule rather than a guess dressed as one. Vendors change prices on their own
    /// schedule and none of them tell this crate, so any number here is arbitrary. What
    /// makes it useful is that it is written down, it is one number, and
    /// [`PriceBook::needs_rechecking`] applies it for you.
    pub const RECHECK_AFTER_DAYS: i64 = 90;

    /// How many days since a person last checked these numbers, as of `today`.
    ///
    /// `today` is an argument because this crate does not read a clock. Every date in a
    /// table is already `YYYY-MM-DD` text, so the comparison is between two things of the
    /// same kind.
    ///
    /// `None` when one of the two is not a date this can read. Negative when
    /// the book is dated in the future, which is a table somebody typed wrong.
    pub fn age(&self, today: &str) -> (days: Option<i64>)
        requires
            countable(today@),
            countable(self.verified_at@),
            comparable(today@, self.verified_at@),
        ensures
            days is Some <==> day_of(today@) is Some && day_of(self.verified_at@) is Some,
            days matches Some(days) ==> days == day_of(today@)->0 - day_of(self.verified_at@)->0,
    {
        match (day_number(today), day_number(self.verified_at.as_str())) {
            (Some(now), Some(checked)) => Some(now - checked),
            _ => None,
        }
    }

    /// Whether this book should be checked again, and why.
    ///
    /// `None` means it is inside its own expiry and inside [`PriceBook::RECHECK_AFTER_DAYS`].
    /// Anything else is a [`Recheck`] naming the reason.
    ///
    /// # What this is for
    ///
    /// Silent staleness. A price that is quietly six months old produces a confident bill
    /// that is wrong by whatever the vendor changed, and nothing downstream can tell,
    /// because the arithmetic is correct and the number has the right number of decimal
    /// places.
    pub fn needs_rechecking(&self, today: &str) -> (why: Option<Recheck>)
        requires
            countable(today@),
            day_of(today@) is Some ==> (self.expires_on matches Some(expires) ==> countable(
                expires@,
            ) && comparable(today@, expires@)),
            !self.deep_view().settled(today@) ==> countable(self.verified_at@) && comparable(
                today@,
                self.verified_at@,
            ),
        ensures
            why.deep_view() == self.deep_view().recheck(today@),
    {
        let now: i64 = match day_number(today) {
            Some(now) => now,
            None => {
                return Some(Recheck::Undatable { field: "today" });
            },
        };
        // Expiry first. A book that said when it stops being right has settled the question,
        // and reporting its age instead would be reporting the weaker of two facts.
        if let Some(expires) = &self.expires_on {
            match day_number(expires.as_str()) {
                None => {
                    return Some(Recheck::Undatable { field: "expires_on" });
                },
                Some(end) => {
                    if now > end {
                        return Some(
                            Recheck::Expired { on: expires.clone(), days_ago: now - end },
                        );
                    }
                },
            }
        }
        match day_number(self.verified_at.as_str()) {
            None => Some(Recheck::Undatable { field: "verified_at" }),
            Some(checked) => {
                let days: i64 = now - checked;
                if days >= Self::RECHECK_AFTER_DAYS {
                    Some(Recheck::Aged { days })
                } else {
                    None
                }
            },
        }
    }

    /// Reads a price book from a document.
    ///
    /// A field that is missing or not text is refused, and so is a row that does not name a
    /// model and its prices, a model that is priced twice, and a blank in a field that makes
    /// the book auditable.
    pub fn read(json: &Json) -> (read: Result<PriceBook, String>)
        ensures
            outcome(read) == book_in(json.tree()),
    {
        let id = match read_required(json, "id") {
            Ok(text) => text,
            Err(why) => {
                return Err(why);
            },
        };
        let provider = match read_required(json, "provider") {
            Ok(text) => text,
            Err(why) => {
                return Err(why);
            },
        };
        let effective_from = match read_required(json, "effective_from") {
            Ok(text) => text,
            Err(why) => {
                return Err(why);
            },
        };
        let source = match read_required(json, "source") {
            Ok(text) => text,
            Err(why) => {
                return Err(why);
            },
        };
        let verified_at = match read_required(json, "verified_at") {
            Ok(text) => text,
            Err(why) => {
                return Err(why);
            },
        };
        let expires_on = match read_optional(json, "expires_on") {
            Ok(text) => text,
            Err(why) => {
                return Err(why);
            },
        };
        let currency = match read_required(json, "currency") {
            Ok(text) => text,
            Err(why) => {
                return Err(why);
            },
        };
        let rates = match read_rates(json) {
            Ok(rates) => rates,
            Err(why) => {
                return Err(why);
            },
        };
        if let Some(field) = blank_among(
            &id,
            &provider,
            &effective_from,
            &source,
            &verified_at,
            &currency,
        ) {
            return Err(
                followed_by(
                    field,
                    " is blank. A price nobody can date or trace is a number nobody can check",
                ),
            );
        }
        Ok(
            PriceBook {
                id,
                provider,
                effective_from,
                source,
                verified_at,
                expires_on,
                currency,
                rates,
            },
        )
    }

    /// Reads a price book from TOML.
    ///
    /// The message says why where the document cannot be parsed, or where
    /// [`PriceBook::read`] refuses it. A book with no source and no date is a set of numbers
    /// somebody typed, and there is no way to check it later.
    pub fn parse(text: &str) -> (read: Result<PriceBook, String>)
        ensures
            outcome(read) == (match toml_parsed(text@) {
                Ok(tree) => book_in(tree),
                Err(why) => Err(why),
            }),
    {
        match Json::parse_toml(text) {
            Ok(json) => Self::read(&json),
            Err(why) => Err(why),
        }
    }

    /// The rate for a model, if this book has one.
    pub fn rate(&self, model: &ModelId) -> (rate: Option<&Rate>)
        ensures
            rate is Some <==> self.deep_view().rates.contains_key(model@),
            rate matches Some(rate) ==> *rate == self.deep_view().rates[model@],
    {
        self.rates.get(model.as_str())
    }

    /// What a call cost.
    ///
    /// Returns `None` when this book has no rate for the model, or when the provider
    /// reported no usage at all. Both are honest answers, and both are better than a zero
    /// that adds into a total as though the call were free.
    pub fn price(&self, model: &ModelId, usage: &Usage) -> (priced: Option<Priced>)
        ensures
            priced.deep_view() == self.deep_view().price(model@, *usage),
    {
        let rate: Rate = match self.rate(model) {
            Some(rate) => *rate,
            None => {
                return None;
            },
        };
        let coverage = usage.coverage();
        if coverage == UsageCoverage::Absent {
            return None;
        }
        // Per million tokens, so the product is divided by a million. Integer division
        // truncates, which understates by less than a millionth of a unit per line.
        let amount = Micros(part(usage.input_tokens, rate.input)) + Micros(
            part(usage.cache_read_tokens, rate.cache_read),
        ) + Micros(part(usage.cache_write_tokens, rate.cache_write)) + Micros(
            part(usage.output_tokens, rate.output),
        );
        Some(Priced { amount, currency: self.currency.clone(), book: self.id.clone(), coverage })
    }
}

/// The first of the fields that make a book auditable that is blank.
fn blank_among(
    id: &str,
    provider: &str,
    effective_from: &str,
    source: &str,
    verified_at: &str,
    currency: &str,
) -> (field: Option<&'static str>)
    ensures
        forall|book: Book|
            book.id == id@ && book.provider == provider@ && book.effective_from == effective_from@
                && book.source == source@ && book.verified_at == verified_at@ && book.currency
                == currency@ ==> (#[trigger] checked_book(book)) == (match field {
                Some(field) => Err(blank_field(field@)),
                None => Ok(book),
            }),
{
    if blank(id) {
        Some("id")
    } else if blank(provider) {
        Some("provider")
    } else if blank(effective_from) {
        Some("effective_from")
    } else if blank(source) {
        Some("source")
    } else if blank(verified_at) {
        Some("verified_at")
    } else if blank(currency) {
        Some("currency")
    } else {
        None
    }
}

/// A call that nobody measured has no price, never a price of nothing, and neither has a call
/// of a model that the book does not list.
pub proof fn what_nobody_measured_has_no_price(book: Book, model: Seq<char>, usage: Usage)
    ensures
        usage.is_empty() || !book.rates.contains_key(model) <==> book.price(model, usage) is None,
{
}

/// A price carries the currency and the edition of the book that made it and how complete the
/// usage behind it was.
pub proof fn a_price_says_where_it_came_from(book: Book, model: Seq<char>, usage: Usage)
    ensures
        book.price(model, usage) matches Some(cost) ==> cost.currency == book.currency && cost.book
            == book.id && cost.coverage == usage.covers(),
{
}

/// What this many tokens cost at a price that is not negative, where nothing is cut off: a
/// millionth of the price for each, and less than a millionth is not charged.
proof fn tokens_cost_their_share(tokens: u64, per_million: i64)
    requires
        per_million >= 0,
        tokens * per_million <= i64::MAX,
        tokens <= i64::MAX,
    ensures
        0 <= part_cost(counted(Some(tokens)), per_million),
        part_cost(counted(Some(tokens)), per_million) * 1_000_000 <= tokens * per_million,
        tokens * per_million < (part_cost(counted(Some(tokens)), per_million) + 1) * 1_000_000,
        part_cost(counted(Some(tokens)), per_million) <= i64::MAX,
{
    let product = tokens * per_million;
    assert(product >= 0) by (nonlinear_arith)
        requires
            per_million >= 0,
            product == tokens * per_million,
    ;
}

/// No tokens cost nothing, whatever the price.
proof fn no_tokens_cost_nothing(per_million: i64)
    ensures
        part_cost(counted(None), per_million) == 0,
{
    assert(0 * per_million == 0) by (nonlinear_arith);
}

/// Tokens of one kind cost the rate of that kind: a millionth of it for each, with what is less
/// than a millionth not charged. What the other kinds charge does not matter to them.
pub proof fn tokens_of_one_kind_cost_their_own_rate(rate: Rate, other: Rate, tokens: u64)
    requires
        tokens <= i64::MAX,
        rate.input.0 >= 0 && tokens * rate.input.0 <= i64::MAX,
        rate.cache_read.0 >= 0 && tokens * rate.cache_read.0 <= i64::MAX,
        rate.cache_write.0 >= 0 && tokens * rate.cache_write.0 <= i64::MAX,
        rate.output.0 >= 0 && tokens * rate.output.0 <= i64::MAX,
    ensures
        ({
            let cost = amount_of(rate, Usage { input_tokens: Some(tokens), ..Usage::nothing() });
            &&& cost * 1_000_000 <= tokens * rate.input.0 < (cost + 1) * 1_000_000
            &&& cost == amount_of(
                Rate { input: rate.input, ..other },
                Usage { input_tokens: Some(tokens), ..Usage::nothing() },
            )
        }),
        ({
            let cost = amount_of(rate, Usage { cache_read_tokens: Some(tokens), ..Usage::nothing() });
            &&& cost * 1_000_000 <= tokens * rate.cache_read.0 < (cost + 1) * 1_000_000
            &&& cost == amount_of(
                Rate { cache_read: rate.cache_read, ..other },
                Usage { cache_read_tokens: Some(tokens), ..Usage::nothing() },
            )
        }),
        ({
            let cost = amount_of(rate, Usage { cache_write_tokens: Some(tokens), ..Usage::nothing() });
            &&& cost * 1_000_000 <= tokens * rate.cache_write.0 < (cost + 1) * 1_000_000
            &&& cost == amount_of(
                Rate { cache_write: rate.cache_write, ..other },
                Usage { cache_write_tokens: Some(tokens), ..Usage::nothing() },
            )
        }),
        ({
            let cost = amount_of(rate, Usage { output_tokens: Some(tokens), ..Usage::nothing() });
            &&& cost * 1_000_000 <= tokens * rate.output.0 < (cost + 1) * 1_000_000
            &&& cost == amount_of(
                Rate { output: rate.output, ..other },
                Usage { output_tokens: Some(tokens), ..Usage::nothing() },
            )
        }),
{
    tokens_cost_their_share(tokens, rate.input.0);
    tokens_cost_their_share(tokens, rate.cache_read.0);
    tokens_cost_their_share(tokens, rate.cache_write.0);
    tokens_cost_their_share(tokens, rate.output.0);
    no_tokens_cost_nothing(rate.input.0);
    no_tokens_cost_nothing(rate.cache_read.0);
    no_tokens_cost_nothing(rate.cache_write.0);
    no_tokens_cost_nothing(rate.output.0);
    no_tokens_cost_nothing(other.input.0);
    no_tokens_cost_nothing(other.cache_read.0);
    no_tokens_cost_nothing(other.cache_write.0);
    no_tokens_cost_nothing(other.output.0);
}

/// A call costs what its four kinds of tokens cost, each for itself, where nothing is cut off.
pub proof fn a_call_costs_the_sum_of_its_parts(rate: Rate, usage: Usage)
    ensures
        ({
            let input = amount_of(
                rate,
                Usage { input_tokens: usage.input_tokens, ..Usage::nothing() },
            );
            let read = amount_of(
                rate,
                Usage { cache_read_tokens: usage.cache_read_tokens, ..Usage::nothing() },
            );
            let write = amount_of(
                rate,
                Usage { cache_write_tokens: usage.cache_write_tokens, ..Usage::nothing() },
            );
            let output = amount_of(
                rate,
                Usage { output_tokens: usage.output_tokens, ..Usage::nothing() },
            );
            i64::MIN <= input + read <= i64::MAX && i64::MIN <= input + read + write <= i64::MAX
                && i64::MIN <= input + read + write + output <= i64::MAX ==> amount_of(rate, usage)
                == input + read + write + output
        }),
{
    no_tokens_cost_nothing(rate.input.0);
    no_tokens_cost_nothing(rate.cache_read.0);
    no_tokens_cost_nothing(rate.cache_write.0);
    no_tokens_cost_nothing(rate.output.0);
}

/// What a call is charged is worked out with the rate of the model that was asked about.
pub proof fn a_call_is_charged_at_the_rate_of_its_model(
    book: Book,
    model: Seq<char>,
    other: Seq<char>,
    rate: Rate,
    usage: Usage,
)
    requires
        book.rates.contains_key(model),
        other != model,
    ensures
        book.price(model, usage) matches Some(cost) ==> cost.amount == Micros(
            amount_of(book.rates[model], usage),
        ),
        (Book { rates: book.rates.insert(other, rate), ..book }).price(model, usage) == book.price(
            model,
            usage,
        ),
{
}

/// A zero behind the decimal places of a price changes nothing about it, and neither does a point
/// with no places: `0.3`, `0.30` and `0.300` are one price.
pub proof fn trailing_zeros_change_no_price(whole: Seq<char>, places: Seq<char>)
    requires
        whole.len() > 0,
        all_digits(whole),
        all_digits(places),
        places.len() < 6,
        amount_in(whole + seq!['.'] + places) is Ok,
    ensures
        amount_in(whole + seq!['.'] + places.push('0')) == amount_in(whole + seq!['.'] + places),
        places.len() == 0 ==> amount_in(whole) == amount_in(whole + seq!['.'] + places),
{
    let short = whole + seq!['.'] + places;
    let long = whole + seq!['.'] + places.push('0');
    let dot = whole.len() as int;
    assert(is_digit(whole[0]));
    assert(trim_start(short) == short && trim_start(long) == long && trim_start(whole) == whole);
    assert(is_digit(whole[whole.len() - 1]));
    if places.len() > 0 {
        assert(is_digit(places[places.len() - 1]));
        assert(short.last() == places.last());
    } else {
        assert(short.last() == '.');
    }
    assert(long.last() == '0');
    assert(trim_end(short) == short && trim_end(long) == long && trim_end(whole) == whole);
    assert forall|i: int| 0 <= i < dot implies #[trigger] short[i] != '.' && long[i] != '.'
        && whole[i] != '.' by {
        assert(short[i] == whole[i] && long[i] == whole[i]);
        assert(is_digit(whole[i]));
    }
    assert forall|i: int| 0 <= i < dot implies #[trigger] long[i] != '.' by {
        assert(short[i] != '.');
    }
    assert forall|i: int| 0 <= i < dot implies #[trigger] whole[i] != '.' by {
        assert(short[i] != '.');
    }
    until_is(short, '.', dot);
    until_is(long, '.', dot);
    until_is(whole, '.', dot);
    assert(short.take(dot) =~= whole && long.take(dot) =~= whole && whole.take(dot) =~= whole);
    assert(short.skip(dot + 1) =~= places);
    assert(long.skip(dot + 1) =~= places.push('0'));
    assert forall|i: int| 0 <= i < places.push('0').len() implies is_digit(
        #[trigger] places.push('0')[i],
    ) by {
        if i < places.len() {
            assert(is_digit(places[i]));
        }
    }
    let missing = (6 - places.len()) as nat;
    assert(whole + places + zeros(missing) =~= whole + places.push('0') + zeros(
        (missing - 1) as nat,
    ));
    if places.len() == 0 {
        assert(whole + places + zeros(6) =~= whole + Seq::<char>::empty() + zeros(6));
    }
}

/// A minus in front of a price turns it round.
pub proof fn a_minus_turns_a_price_round(text: Seq<char>)
    requires
        text.len() > 0,
        is_digit(text[0]),
        is_digit(text.last()),
        amount_in(text) is Ok,
    ensures
        amount_in(seq!['-'] + text) == Ok::<int, Seq<char>>(-amount_in(text)->Ok_0),
{
    let turned = seq!['-'] + text;
    assert(turned.last() == text.last());
    assert(trim_start(text) == text && trim_end(text) == text);
    assert(trim_start(turned) == turned && trim_end(turned) == turned);
    assert(turned.skip(1) =~= text);
}

/// A book that was told when it stops being right and is past that day says so, with how long
/// ago; one that is not goes by how long ago a person checked it, and ninety days are too long.
pub proof fn a_book_is_rechecked_when_it_is_old(book: Book, today: Seq<char>, now: int, age: int)
    requires
        day_of(today) == Some(now),
        day_of(book.verified_at) == Some(now - age),
    ensures
        (book.expires_on is Some && day_of(book.expires_on->0) is Some && now > day_of(
            book.expires_on->0,
        )->0) ==> book.recheck(today) == Some(
            Reason::Expired {
                on: book.expires_on->0,
                days_ago: now - day_of(book.expires_on->0)->0,
            },
        ),
        (book.expires_on is None || (day_of(book.expires_on->0) is Some && now <= day_of(
            book.expires_on->0,
        )->0)) ==> (if age >= 90 {
            book.recheck(today) == Some(Reason::Aged { days: age })
        } else {
            book.recheck(today) is None
        }),
{
}

/// What cannot be dated is said to be so, under its own name.
pub proof fn what_cannot_be_dated_is_named(book: Book, today: Seq<char>)
    ensures
        day_of(today) is None ==> book.recheck(today) == Some(
            Reason::Undatable { field: "today"@ },
        ),
        day_of(today) is Some && (book.expires_on matches Some(end) && day_of(end) is None)
            ==> book.recheck(today) == Some(Reason::Undatable { field: "expires_on"@ }),
        day_of(today) is Some && book.expires_on is None && day_of(book.verified_at) is None
            ==> book.recheck(today) == Some(Reason::Undatable { field: "verified_at"@ }),
{
}

/// A price book is read field by field: what the document gives under a name is what the book
/// holds under it, and a date of expiry only where it gives one.
pub proof fn a_book_holds_what_its_document_gives(tree: Tree)
    requires
        book_in(tree) is Ok,
    ensures
        ({
            let book = book_in(tree)->Ok_0;
            &&& tree.text_at("id"@) == Some(book.id)
            &&& tree.text_at("provider"@) == Some(book.provider)
            &&& tree.text_at("effective_from"@) == Some(book.effective_from)
            &&& tree.text_at("source"@) == Some(book.source)
            &&& tree.text_at("verified_at"@) == Some(book.verified_at)
            &&& tree.text_at("currency"@) == Some(book.currency)
            &&& tree.text_at("expires_on"@) == book.expires_on
        }),
{
}

/// A book nobody can date or trace is refused.
pub proof fn a_book_with_a_blank_field_is_refused(tree: Tree)
    requires
        book_in(tree) is Ok,
    ensures
        ({
            let book = book_in(tree)->Ok_0;
            !is_blank(book.id) && !is_blank(book.provider) && !is_blank(book.effective_from)
                && !is_blank(book.source) && !is_blank(book.verified_at) && !is_blank(
                book.currency,
            )
        }),
{
}

/// A row of a price file gives each rate under the name of its kind, and the two for the cache are
/// nothing where they are not given.
pub proof fn a_row_gives_each_rate_under_its_name(tree: Tree)
    requires
        members_in(tree) is Ok,
    ensures
        ({
            let (model, rate) = members_in(tree)->Ok_0;
            &&& tree.text_at("model"@) == Some(model)
            &&& tree.text_at("input"@) matches Some(text) && amount_in(text) == Ok::<
                int,
                Seq<char>,
            >(rate.input.0 as int)
            &&& tree.text_at("output"@) matches Some(text) && amount_in(text) == Ok::<
                int,
                Seq<char>,
            >(rate.output.0 as int)
            &&& match tree.get("cache_read"@) {
                Some(_) => tree.text_at("cache_read"@) matches Some(text) && amount_in(text)
                    == Ok::<int, Seq<char>>(rate.cache_read.0 as int),
                None => rate.cache_read.0 == 0,
            }
            &&& match tree.get("cache_write"@) {
                Some(_) => tree.text_at("cache_write"@) matches Some(text) && amount_in(text)
                    == Ok::<int, Seq<char>>(rate.cache_write.0 as int),
                None => rate.cache_write.0 == 0,
            }
        }),
{
}

/// The members of a row are told apart.
proof fn row_members_differ()
    ensures
        "model"@ != "input"@,
        "model"@ != "output"@,
        "model"@ != "cache_read"@,
        "model"@ != "cache_write"@,
        "input"@ != "output"@,
        "input"@ != "cache_read"@,
        "input"@ != "cache_write"@,
        "output"@ != "cache_read"@,
        "output"@ != "cache_write"@,
        "cache_read"@ != "cache_write"@,
{
    reveal_strlit("model");
    reveal_strlit("input");
    reveal_strlit("output");
    reveal_strlit("cache_read");
    reveal_strlit("cache_write");
    assert("model"@[0] != "input"@[0]);
    assert("model"@.len() != "output"@.len());
    assert("model"@.len() != "cache_read"@.len());
    assert("model"@.len() != "cache_write"@.len());
    assert("input"@.len() != "output"@.len());
    assert("input"@.len() != "cache_read"@.len());
    assert("input"@.len() != "cache_write"@.len());
    assert("output"@.len() != "cache_read"@.len());
    assert("output"@.len() != "cache_write"@.len());
    assert("cache_read"@.len() != "cache_write"@.len());
}

/// A row that is a list gives its members in their order: the model, what goes in, what comes out,
/// what is read from the cache and what is written to it.
pub proof fn a_list_gives_a_row_in_its_order(items: Seq<Tree>)
    ensures
        ({
            let row = row_by_name(Tree::Array(items));
            &&& row.get("model"@) == (if items.len() > 0 {
                Some(items[0])
            } else {
                None
            })
            &&& row.get("input"@) == (if items.len() > 1 {
                Some(items[1])
            } else {
                None
            })
            &&& row.get("output"@) == (if items.len() > 2 {
                Some(items[2])
            } else {
                None
            })
            &&& row.get("cache_read"@) == (if items.len() > 3 {
                Some(items[3])
            } else {
                None
            })
            &&& row.get("cache_write"@) == (if items.len() > 4 {
                Some(items[4])
            } else {
                None
            })
        }),
{
    row_members_differ();
}

/// A book keeps its rows under their models, and a model that stands there twice is refused.
pub proof fn a_book_keeps_its_rows(rows: Seq<(Seq<char>, Rate)>, model: Seq<char>, rate: Rate)
    requires
        rates_of(rows) is Ok,
    ensures
        rates_of(rows.push((model, rate))) is Ok <==> !rates_of(rows)->Ok_0.contains_key(model),
        rates_of(rows.push((model, rate))) is Ok ==> rates_of(rows.push((model, rate)))->Ok_0
            == rates_of(rows)->Ok_0.insert(model, rate),
        rates_of(Seq::<(Seq<char>, Rate)>::empty()) == Ok::<Map<Seq<char>, Rate>, Seq<char>>(
            Map::empty(),
        ),
{
    assert(rows.push((model, rate)).drop_last() == rows);
}

/// A reason to check a book again says what is wrong with it and for how long.
pub proof fn a_reason_says_what_is_wrong(on: Seq<char>, days: int, field: Seq<char>)
    ensures
        (Reason::Expired { on, days_ago: days }).line() == "expired on "@ + on + ", "@
            + signed_decimal(days) + " days ago"@,
        (Reason::Aged { days }).line() == "last checked "@ + signed_decimal(days) + " days ago"@,
        (Reason::Undatable { field }).line() == field + " is not a date this can read"@,
{
}

/// A year that four divides is a leap year, but for a hundredth year that is no four hundredth, and
/// the months have the days that everybody knows.
pub proof fn months_have_their_days(year: int, month: int)
    requires
        1 <= month <= 12,
    ensures
        month == 4 || month == 6 || month == 9 || month == 11 ==> month_length(year, month) == 30,
        month == 2 && year % 4 == 0 && (year % 100 != 0 || year % 400 == 0) ==> month_length(
            year,
            month,
        ) == 29,
        month == 2 && (year % 4 != 0 || (year % 100 == 0 && year % 400 != 0)) ==> month_length(
            year,
            month,
        ) == 28,
        month == 1 || month == 3 || month == 5 || month == 7 || month == 8 || month == 10 || month
            == 12 ==> month_length(year, month) == 31,
{
}

/// A date that is written as year, month and day with hyphens between is the day it names.
pub proof fn a_written_date_is_its_day(year: nat, month: nat, day: nat)
    requires
        year <= i64::MAX,
        1 <= month <= 12,
        1 <= day <= 31,
    ensures
        day_of(decimal(year) + seq!['-'] + decimal(month) + seq!['-'] + decimal(day)) == Some(
            day_count(year as int, month as int, day as int),
        ),
{
    decimal_reads_back(year);
    decimal_reads_back(month);
    decimal_reads_back(day);
    let y = decimal(year);
    let m = decimal(month);
    let d = decimal(day);
    let text = y + seq!['-'] + m + seq!['-'] + d;
    assert(is_digit(y[0]));
    assert(is_digit(m[0]));
    assert(is_digit(d[0]));
    assert(is_digit(d[d.len() - 1]));
    assert(text[0] == y[0]);
    assert(text.last() == d.last());
    assert(trim_start(text) == text);
    assert(trim_end(text) == text);
    let a = y.len() as int;
    let b = m.len() as int;
    assert forall|i: int| 0 <= i < a implies #[trigger] text[i] != '-' by {
        assert(text[i] == y[i]);
        assert(is_digit(y[i]));
    }
    assert(text[a] == '-');
    until_is(text, '-', a);
    let rest = text.skip(a + 1);
    assert(rest == m + seq!['-'] + d);
    assert forall|i: int| 0 <= i < b implies #[trigger] rest[i] != '-' by {
        assert(rest[i] == m[i]);
        assert(is_digit(m[i]));
    }
    assert(rest[b] == '-');
    until_is(rest, '-', b);
    assert(text.take(a) == y);
    assert(rest.take(b) == m);
    assert(rest.skip(b + 1) == d);
}

} // verus!
