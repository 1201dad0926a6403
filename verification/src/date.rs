//! Calendar dates held as day numbers, the chrono calls behind them, and
//! relative / absolute due-date parsing for task entry.
use vstd::prelude::*;
use crate::text::{
    chars_of, ends_with, ends_with_spec, parse_u64, parse_u64_spec, starts_with, starts_with_spec,
    string_of_range, to_lowercase, lowercase, trim, trim_str,
};

verus! {

/// Day number (days since the common era, 0001-01-01 being day 1) of the
/// first date that chrono's `NaiveDate` can hold (January 1, 262144 BCE).
pub const MIN_DAYS: i32 = -95746129;

/// Day number of the last date that chrono's `NaiveDate` can hold (December 31, 262142 CE).
pub const MAX_DAYS: i32 = 95745399;

/// A calendar date, kept as its day number in the proleptic Gregorian calendar.
#[derive(Clone, Copy, PartialEq, Eq, Debug, Hash, Structural)]
pub struct Date {
    days: i32,
}

impl Date {
    #[verifier::type_invariant]
    spec fn in_range(self) -> bool {
        MIN_DAYS <= self.days <= MAX_DAYS
    }

    /// The day number of this date.
    pub closed spec fn day(self) -> int {
        self.days as int
    }

    /// The day number of this date.
    pub fn days(&self) -> (r: i32)
        ensures
            r == self.day(),
            MIN_DAYS <= r <= MAX_DAYS,
    {
        proof {
            use_type_invariant(self);
        }
        self.days
    }

    /// The date with day number `days`, when chrono can represent it.
    pub fn from_days(days: i32) -> (r: Option<Date>)
        ensures
            r is Some <==> MIN_DAYS <= days <= MAX_DAYS,
            r matches Some(d) ==> d.day() == days,
    {
        if MIN_DAYS <= days && days <= MAX_DAYS {
            Some(Date { days })
        } else {
            None
        }
    }

    /// The date `y-m-d` (see `ymd_date`).
    pub fn from_ymd(y: i32, m: u32, d: u32) -> (r: Option<Date>)
        ensures
            opt_day(r) == ymd_date(y, m, d),
    {
        from_ymd(y, m, d)
    }

    /// Today's date on the local clock.
    pub fn today() -> (d: Date) {
        today()
    }

    /// The date as `YYYY-MM-DD` (see `iso_date`).
    pub fn text(&self) -> (r: String)
        ensures
            r@ == iso_date(self.day()),
    {
        date_text(self)
    }

    /// Whether `self` comes strictly before `other`.
    pub fn before(&self, other: &Date) -> (r: bool)
        ensures
            r == (self.day() < other.day()),
    {
        self.days < other.days
    }
}

/// The day numbers of an optional date.
pub open spec fn opt_day(d: Option<Date>) -> Option<int> {
    match d {
        Some(x) => Some(x.day()),
        None => None,
    }
}

/// The day number that `n` days after day `d` has, if chrono can represent it.
pub open spec fn add_days_spec(d: int, n: int) -> Option<int> {
    if MIN_DAYS <= d + n <= MAX_DAYS {
        Some(d + n)
    } else {
        None
    }
}

/// Today's date on the local clock (`chrono::Local::now().date_naive()`).
/// It depends on the time and the machine's time zone, so nothing more is stated.
#[verifier::external_body]
pub(crate) fn today() -> (d: Date) {
    Date { days: chrono::Datelike::num_days_from_ce(&chrono::Local::now().date_naive()) }
}

/// `NaiveDate::checked_add_days`: the date `n` days later, or `None` when it
/// falls past the last date chrono can hold.
#[verifier::external_body]
pub(crate) fn checked_add_days(d: Date, n: u64) -> (r: Option<Date>)
    ensures
        opt_day(r) == add_days_spec(d.day(), n as int),
{
    let nd = chrono::NaiveDate::from_num_days_from_ce_opt(d.days).unwrap();
    nd.checked_add_days(chrono::Days::new(n)).map(
        |x| Date { days: chrono::Datelike::num_days_from_ce(&x) },
    )
}

/// `NaiveDate::checked_sub_days`: the date `n` days earlier, or `None` when it
/// falls before the first date chrono can hold.
#[verifier::external_body]
pub(crate) fn checked_sub_days(d: Date, n: u64) -> (r: Option<Date>)
    ensures
        opt_day(r) == add_days_spec(d.day(), -n),
{
    let nd = chrono::NaiveDate::from_num_days_from_ce_opt(d.days).unwrap();
    nd.checked_sub_days(chrono::Days::new(n)).map(
        |x| Date { days: chrono::Datelike::num_days_from_ce(&x) },
    )
}

/// The day number that `NaiveDate::parse_from_str(s, fmt)` yields, or `None` when it fails.
pub uninterp spec fn parsed_date(s: Seq<char>, fmt: Seq<char>) -> Option<int>;

/// Calls `NaiveDate::parse_from_str`; the contract names its result (a function
/// of the text and the format), the strftime grammar is not written out.
#[verifier::external_body]
pub(crate) fn parse_date(s: &str, fmt: &str) -> (r: Option<Date>)
    ensures
        opt_day(r) == parsed_date(s@, fmt@),
{
    match chrono::NaiveDate::parse_from_str(s, fmt) {
        Ok(x) => Some(Date { days: chrono::Datelike::num_days_from_ce(&x) }),
        Err(_) => None,
    }
}

/// The text that `NaiveDate`'s `Display` writes for the date with day number `d` (ISO `YYYY-MM-DD`).
pub uninterp spec fn iso_date(d: int) -> Seq<char>;

/// Calls `NaiveDate::to_string` (its `Display`); the contract names the result.
#[verifier::external_body]
pub(crate) fn date_text(d: &Date) -> (r: String)
    ensures
        r@ == iso_date(d.day()),
{
    chrono::NaiveDate::from_num_days_from_ce_opt(d.days).unwrap().to_string()
}

/// The text that `NaiveDate::format(fmt)` writes for the date with day number `d`.
pub uninterp spec fn formatted_date(d: int, fmt: Seq<char>) -> Seq<char>;

/// Calls `NaiveDate::format(fmt).to_string()`; the contract names the result.
/// An invalid strftime string makes `to_string` panic, so only the two
/// formats the library uses are admitted.
#[verifier::external_body]
pub(crate) fn format_date(d: &Date, fmt: &str) -> (r: String)
    requires
        fmt@ == "%Y-%m-%d"@ || fmt@ == "%m/%d"@,
    ensures
        r@ == formatted_date(d.day(), fmt@),
{
    chrono::NaiveDate::from_num_days_from_ce_opt(d.days).unwrap().format(fmt).to_string()
}

/// The day number of `NaiveDate::from_ymd_opt(y, m, d)`, or `None` when it names no date.
pub uninterp spec fn ymd_date(y: i32, m: u32, d: u32) -> Option<int>;

/// Calls `NaiveDate::from_ymd_opt`; the contract names the result.
#[verifier::external_body]
pub(crate) fn from_ymd(y: i32, m: u32, d: u32) -> (r: Option<Date>)
    ensures
        opt_day(r) == ymd_date(y, m, d),
{
    chrono::NaiveDate::from_ymd_opt(y, m, d).map(
        |x| Date { days: chrono::Datelike::num_days_from_ce(&x) },
    )
}

/// `s` with every trailing `c` removed (`str::trim_end_matches` with a char).
pub open spec fn trim_end_char(s: Seq<char>, c: char) -> Seq<char>
    decreases s.len(),
{
    if s.len() > 0 && s.last() == c {
        trim_end_char(s.drop_last(), c)
    } else {
        s
    }
}

/// `s` with every trailing copy of the non-empty `p` removed (`str::trim_end_matches` with a str).
pub open spec fn trim_end_seq(s: Seq<char>, p: Seq<char>) -> Seq<char>
    decreases s.len(),
{
    if p.len() > 0 && ends_with_spec(s, p) {
        trim_end_seq(s.take(s.len() - p.len()), p)
    } else {
        s
    }
}

/// `s.trim_end_matches(c)`.
pub fn trim_end_matches_char(s: &str, c: char) -> (r: String)
    ensures
        r@ == trim_end_char(s@, c),
{
    let v = chars_of(s);
    let mut b: usize = v.len();
    assert(v@.subrange(0, b as int) =~= v@);
    while b > 0 && v[b - 1] == c
        invariant
            b <= v@.len(),
            v@ == s@,
            trim_end_char(v@, c) == trim_end_char(v@.subrange(0, b as int), c),
        decreases b,
    {
        assert(v@.subrange(0, b as int).drop_last() =~= v@.subrange(0, b - 1));
        b -= 1;
    }
    string_of_range(&v, 0, b)
}

/// `s.trim_end_matches(p)` for a non-empty `p`.
pub fn trim_end_matches_str(s: &str, p: &str) -> (r: String)
    requires
        p@.len() > 0,
    ensures
        r@ == trim_end_seq(s@, p@),
    decreases s@.len(),
{
    if ends_with(s, p) {
        let v = chars_of(s);
        let n = p.unicode_len();
        let t = string_of_range(&v, 0, v.len() - n);
        assert(t@ =~= s@.take(s@.len() - p@.len()));
        trim_end_matches_str(t.as_str(), p)
    } else {
        s.to_owned()
    }
}

/// `s` without its first `n` characters.
pub fn skip_chars(s: &str, n: usize) -> (r: String)
    requires
        n <= s@.len(),
    ensures
        r@ == s@.skip(n as int),
{
    let v = chars_of(s);
    string_of_range(&v, n, v.len())
}

/// Whether two texts are equal.
pub fn str_eq(a: &str, b: &str) -> (r: bool)
    ensures
        r == (a@ == b@),
{
    let x = chars_of(a);
    let y = chars_of(b);
    if x.len() != y.len() {
        return false;
    }
    let mut i: usize = 0;
    while i < x.len()
        invariant
            i <= x@.len(),
            x@.len() == y@.len(),
            x@ == a@,
            y@ == b@,
            forall|j: int| 0 <= j < i ==> x@[j] == y@[j],
        decreases x@.len() - i,
    {
        if x[i] != y[i] {
            return false;
        }
        i += 1;
    }
    assert(x@ =~= y@);
    true
}

/// What a count after `+` or `in ` becomes before it is parsed: trailing `d`s,
/// then trailing ` days`, then surrounding whitespace removed.
pub open spec fn count_text(rest: Seq<char>) -> Seq<char> {
    trim(trim_end_seq(trim_end_char(rest, 'd'), " days"@))
}

/// The count text after a leading `+` or `in `, when `s` has one.
pub open spec fn positive_count(s: Seq<char>) -> Option<Seq<char>> {
    if s.len() > 0 && s[0] == '+' {
        Some(count_text(s.drop_first()))
    } else if starts_with_spec(s, "in "@) {
        Some(count_text(s.skip(3)))
    } else {
        None
    }
}

/// The day number that `parse_relative_date(input, today)` returns: the
/// input is trimmed and lower-cased, then read by `relative_from_lower`.
pub open spec fn relative_date_spec(input: Seq<char>, today: int) -> Option<int> {
    relative_from_lower(lowercase(trim(input)), today)
}

/// The day number that the trimmed, lower-cased text `s` names, relative to `today`.
pub open spec fn relative_from_lower(s: Seq<char>, today: int) -> Option<int> {
    let pos = positive_count(s);
    let neg = if s.len() > 0 && s[0] == '-' {
        Some(trim(trim_end_char(s.drop_first(), 'd')))
    } else {
        None
    };
    if s.len() == 0 {
        None
    } else if s == "today"@ {
        Some(today)
    } else if s == "tomorrow"@ {
        add_days_spec(today, 1)
    } else if s == "yesterday"@ {
        add_days_spec(today, -1)
    } else if pos is Some && parse_u64_spec(pos->0) is Some {
        let num = parse_u64_spec(pos->0)->0;
        if num == 0 {
            Some(today)
        } else if num > 365_000 {
            None
        } else {
            add_days_spec(today, num as int)
        }
    } else if neg is Some && parse_u64_spec(neg->0) is Some {
        let num = parse_u64_spec(neg->0)->0;
        if num > 365_000 {
            None
        } else {
            add_days_spec(today, -num)
        }
    } else if parsed_date(s, "%Y-%m-%d"@) is Some {
        parsed_date(s, "%Y-%m-%d"@)
    } else if parsed_date(s, "%m/%d/%Y"@) is Some {
        parsed_date(s, "%m/%d/%Y"@)
    } else if parsed_date(s, "%d-%m-%Y"@) is Some {
        parsed_date(s, "%d-%m-%Y"@)
    } else {
        parsed_date(s, "%d/%m/%Y"@)
    }
}

/// Parses a due date typed by the user: `today`, `tomorrow`, `yesterday`,
/// `+N`, `in N days`, `-N` (with an optional trailing `d`), or an absolute date
/// in `YYYY-MM-DD`, `MM/DD/YYYY`, `DD-MM-YYYY` or `DD/MM/YYYY` form.
pub fn parse_relative_date(input: &str, today: Date) -> (r: Option<Date>)
    ensures
        opt_day(r) == relative_date_spec(input@, today.day()),
{
    let trimmed = trim_str(input);
    let s = to_lowercase(trimmed.as_str());
    let ss = s.as_str();
    let ghost pos = positive_count(s@);
    if ss.is_empty() {
        return None;
    }
    if str_eq(ss, "today") {
        return Some(today);
    }
    if str_eq(ss, "tomorrow") {
        return checked_add_days(today, 1);
    }
    if str_eq(ss, "yesterday") {
        return checked_sub_days(today, 1);
    }
    let cs = chars_of(ss);
    let positive: Option<String> = if cs[0] == '+' {
        let rest = skip_chars(ss, 1);
        assert(rest@ =~= s@.drop_first());
        Some(count_of(rest.as_str()))
    } else if starts_with(ss, "in ") {
        proof {
            reveal_strlit("in ");
        }
        let rest = skip_chars(ss, 3);
        Some(count_of(rest.as_str()))
    } else {
        None
    };
    assert(opt_view(positive) == pos);
    if let Some(ns) = positive {
        if let Some(num) = parse_u64(ns.as_str()) {
            if num == 0 {
                return Some(today);
            }
            if num > 365_000 {
                return None;
            }
            return checked_add_days(today, num);
        }
    }
    if cs[0] == '-' {
        let rest = skip_chars(ss, 1);
        assert(rest@ =~= s@.drop_first());
        let t = trim_end_matches_char(rest.as_str(), 'd');
        let ns = trim_str(t.as_str());
        if let Some(num) = parse_u64(ns.as_str()) {
            if num > 365_000 {
                return None;
            }
            return checked_sub_days(today, num);
        }
    }
    if let Some(d) = parse_date(ss, "%Y-%m-%d") {
        return Some(d);
    }
    if let Some(d) = parse_date(ss, "%m/%d/%Y") {
        return Some(d);
    }
    if let Some(d) = parse_date(ss, "%d-%m-%Y") {
        return Some(d);
    }
    parse_date(ss, "%d/%m/%Y")
}

/// The optional text held by an optional `String`.
pub open spec fn opt_view(o: Option<String>) -> Option<Seq<char>> {
    match o {
        Some(x) => Some(x@),
        None => None,
    }
}

/// The count text of `rest` (see `count_text`).
fn count_of(rest: &str) -> (r: String)
    ensures
        r@ == count_text(rest@),
{
    let a = trim_end_matches_char(rest, 'd');
    proof {
        reveal_strlit(" days");
    }
    let b = trim_end_matches_str(a.as_str(), " days");
    trim_str(b.as_str())
}

} // verus!
