//! How relative due dates read: `+N`, `in N days` and `-N` agree with
//! adding or subtracting `N` days, and padding around the input is ignored.
use vstd::prelude::*;
use crate::text::{
    all_digits, decimal, digit_char, digits_value, is_ws, parse_u64_spec, starts_with_spec,
    ends_with_spec, trim, trim_end, trim_start,
};
use crate::date::{
    add_days_spec, count_text, parsed_date, positive_count, relative_date_spec, relative_from_lower,
    trim_end_char, trim_end_seq,
};

verus! {

/// The decimal form of `n` is a non-empty run of digits whose value is `n`.
proof fn lemma_decimal(n: nat)
    ensures
        decimal(n).len() > 0,
        all_digits(decimal(n)),
        digits_value(decimal(n)) == n,
    decreases n,
{
    let m = n % 10;
    assert(crate::text::digit_value(digit_char(m)) == m);
    if n >= 10 {
        lemma_decimal(n / 10);
        let d = decimal(n / 10);
        let c = digit_char(m);
        let s = d + seq![c];
        assert(s == decimal(n));
        assert(s.drop_last() =~= d);
        assert(s.last() == c);
        assert(digits_value(s) == digits_value(d) * 10 + m);
        assert(n == (n / 10) * 10 + m);
        assert forall|i: int| 0 <= i < s.len() implies crate::text::is_digit(#[trigger] s[i]) by {
            if i < d.len() {
                assert(s[i] == d[i]);
            }
        }
    } else {
        let s = seq![digit_char(n)];
        assert(s == decimal(n));
        assert(s.drop_last() =~= Seq::<char>::empty());
        assert(digits_value(s.drop_last()) == 0);
        assert(digits_value(s) == crate::text::digit_value(s.last()));
    }
}

/// Text without whitespace at either end is its own trim.
proof fn lemma_trim_plain(s: Seq<char>)
    requires
        s.len() > 0,
        !is_ws(s[0]),
        !is_ws(s.last()),
    ensures
        trim(s) == s,
{
}

/// A run of digits has no whitespace at either end and does not end in `d` or ` days`.
proof fn lemma_digits_plain(d: Seq<char>)
    requires
        d.len() > 0,
        all_digits(d),
    ensures
        !is_ws(d[0]),
        !is_ws(d.last()),
        trim(d) == d,
        trim_end_char(d, 'd') == d,
        trim_end_seq(d, " days"@) == d,
        count_text(d) == d,
        parse_u64_spec(d) == (if digits_value(d) <= u64::MAX {
            Some(digits_value(d) as u64)
        } else {
            None
        }),
{
    reveal_strlit(" days");
    assert(crate::text::is_digit(d[0]));
    assert(crate::text::is_digit(d[d.len() - 1]));
    lemma_trim_plain(d);
    if ends_with_spec(d, " days"@) {
        assert(d.skip(d.len() - 5)[4] == d.last());
    }
}

/// A count written in decimal reads as that count after `+`, after `in`
/// (followed by ` days`), and after `-`: `+N` and `in N days` name the day
/// `N` days after `today`, and `-N` the day `N` days before it, for `N` from
/// 1 to 365000; beyond 365000 none of them names a day. This is what the
/// trimmed, lower-cased input is read as (`relative_from_lower`).
pub proof fn law_relative_counts(n: u64, today: int)
    ensures
        1 <= n <= 365_000 ==> relative_from_lower(seq!['+'] + decimal(n as nat), today)
            == add_days_spec(today, n as int),
        1 <= n <= 365_000 ==> relative_from_lower("in "@ + decimal(n as nat) + " days"@, today)
            == add_days_spec(today, n as int),
        1 <= n <= 365_000 ==> relative_from_lower(seq!['-'] + decimal(n as nat), today)
            == add_days_spec(today, -n),
        n > 365_000 ==> relative_from_lower(seq!['+'] + decimal(n as nat), today) is None,
        n > 365_000 ==> relative_from_lower("in "@ + decimal(n as nat) + " days"@, today) is None,
        n > 365_000 ==> relative_from_lower(seq!['-'] + decimal(n as nat), today) is None,
{
    reveal_strlit("today");
    reveal_strlit("tomorrow");
    reveal_strlit("yesterday");
    reveal_strlit("in ");
    reveal_strlit(" days");
    let d = decimal(n as nat);
    lemma_decimal(n as nat);
    lemma_digits_plain(d);
    assert(parse_u64_spec(d) == Some(n));
    // `+N`
    let plus = seq!['+'] + d;
    assert(plus[0] == '+');
    assert(plus.drop_first() =~= d);
    assert(plus != "today"@ && plus != "tomorrow"@ && plus != "yesterday"@) by {
        assert(plus[0] != "today"@[0]);
        assert(plus[0] != "yesterday"@[0]);
    }
    assert(positive_count(plus) == Some(d));
    // `in N days`
    let inn = "in "@ + d + " days"@;
    assert(inn[0] == 'i');
    assert(inn != "today"@ && inn != "tomorrow"@ && inn != "yesterday"@) by {
        assert(inn[0] != "today"@[0]);
        assert(inn[0] != "yesterday"@[0]);
    }
    assert(inn.take(3) =~= "in "@);
    let rest = inn.skip(3);
    assert(rest =~= d + " days"@);
    assert(rest.last() == 's');
    assert(trim_end_char(rest, 'd') == rest);
    assert(rest.skip(rest.len() - 5) =~= " days"@);
    assert(rest.take(rest.len() - 5) =~= d);
    assert(trim_end_seq(rest, " days"@) == trim_end_seq(d, " days"@));
    assert(count_text(rest) == d);
    assert(positive_count(inn) == Some(d));
    // `-N`
    let minus = seq!['-'] + d;
    assert(minus[0] == '-');
    assert(minus.drop_first() =~= d);
    assert(minus != "today"@ && minus != "tomorrow"@ && minus != "yesterday"@) by {
        assert(minus[0] != "today"@[0]);
        assert(minus[0] != "yesterday"@[0]);
    }
    assert(!starts_with_spec(minus, "in "@)) by {
        if 3 <= minus.len() {
            assert(minus.take(3)[0] != "in "@[0]);
        }
    }
    assert(positive_count(minus) is None);
}

/// Leading whitespace is dropped from the front of any text.
proof fn lemma_trim_start_ws(w: Seq<char>, y: Seq<char>)
    requires
        forall|i: int| 0 <= i < w.len() ==> is_ws(#[trigger] w[i]),
    ensures
        trim_start(w + y) == trim_start(y),
    decreases w.len(),
{
    if w.len() > 0 {
        assert((w + y)[0] == w[0]);
        assert((w + y).drop_first() =~= w.drop_first() + y);
        lemma_trim_start_ws(w.drop_first(), y);
    } else {
        assert(w + y =~= y);
    }
}

/// Trailing whitespace is dropped from the end of any text.
proof fn lemma_trim_end_ws(y: Seq<char>, w: Seq<char>)
    requires
        forall|i: int| 0 <= i < w.len() ==> is_ws(#[trigger] w[i]),
    ensures
        trim_end(y + w) == trim_end(y),
    decreases w.len(),
{
    if w.len() > 0 {
        assert((y + w).last() == w.last());
        assert((y + w).drop_last() =~= y + w.drop_last());
        lemma_trim_end_ws(y, w.drop_last());
    } else {
        assert(y + w =~= y);
    }
}

/// Trimming the front of text followed by whitespace keeps that whitespace,
/// unless the text is all whitespace.
proof fn lemma_trim_start_then_ws(x: Seq<char>, w: Seq<char>)
    requires
        forall|i: int| 0 <= i < w.len() ==> is_ws(#[trigger] w[i]),
    ensures
        trim_start(x + w) == (if trim_start(x).len() > 0 {
            trim_start(x) + w
        } else {
            Seq::<char>::empty()
        }),
    decreases x.len(),
{
    if x.len() == 0 {
        assert(x + w =~= w);
        assert(w =~= w + Seq::<char>::empty());
        lemma_trim_start_ws(w, Seq::<char>::empty());
    } else if is_ws(x[0]) {
        assert((x + w)[0] == x[0]);
        assert((x + w).drop_first() =~= x.drop_first() + w);
        lemma_trim_start_then_ws(x.drop_first(), w);
    } else {
        assert((x + w)[0] == x[0]);
    }
}

/// Whitespace around the input changes nothing: the text is trimmed first.
pub proof fn law_relative_ignores_padding(
    input: Seq<char>,
    before: Seq<char>,
    after: Seq<char>,
    today: int,
)
    requires
        forall|i: int| 0 <= i < before.len() ==> is_ws(#[trigger] before[i]),
        forall|i: int| 0 <= i < after.len() ==> is_ws(#[trigger] after[i]),
    ensures
        relative_date_spec(before + input + after, today) == relative_date_spec(input, today),
{
    assert(before + input + after =~= before + (input + after));
    lemma_trim_start_ws(before, input + after);
    lemma_trim_start_then_ws(input, after);
    if trim_start(input).len() > 0 {
        lemma_trim_end_ws(trim_start(input), after);
    }
    assert(trim(before + input + after) == trim(input));
}


/// A text that starts with a digit is read as an absolute date: the first of
/// the forms `YYYY-MM-DD`, `MM/DD/YYYY`, `DD-MM-YYYY` and `DD/MM/YYYY` under
/// which chrono reads it gives the day, and a text that none reads names no day.
pub proof fn law_absolute_date_forms(s: Seq<char>, today: int)
    requires
        s.len() > 0,
        crate::text::is_digit(s[0]),
    ensures
        parsed_date(s, "%Y-%m-%d"@) is Some ==> relative_from_lower(s, today) == parsed_date(
            s,
            "%Y-%m-%d"@,
        ),
        parsed_date(s, "%Y-%m-%d"@) is None && parsed_date(s, "%m/%d/%Y"@) is Some
            ==> relative_from_lower(s, today) == parsed_date(s, "%m/%d/%Y"@),
        parsed_date(s, "%Y-%m-%d"@) is None && parsed_date(s, "%m/%d/%Y"@) is None && parsed_date(
            s,
            "%d-%m-%Y"@,
        ) is Some ==> relative_from_lower(s, today) == parsed_date(s, "%d-%m-%Y"@),
        parsed_date(s, "%Y-%m-%d"@) is None && parsed_date(s, "%m/%d/%Y"@) is None && parsed_date(
            s,
            "%d-%m-%Y"@,
        ) is None ==> relative_from_lower(s, today) == parsed_date(s, "%d/%m/%Y"@),
{
    reveal_strlit("today");
    reveal_strlit("tomorrow");
    reveal_strlit("yesterday");
    reveal_strlit("in ");
    assert(s != "today"@ && s != "tomorrow"@ && s != "yesterday"@) by {
        assert(s[0] != "today"@[0]);
        assert(s[0] != "yesterday"@[0]);
    }
    assert(!starts_with_spec(s, "in "@)) by {
        if 3 <= s.len() {
            assert(s.take(3)[0] != "in "@[0]);
        }
    }
    assert(positive_count(s) is None);
}


/// `today` names today, `tomorrow` the day after and `yesterday` the day before.
pub proof fn law_relative_words(today: int)
    ensures
        relative_from_lower("today"@, today) == Some(today),
        relative_from_lower("tomorrow"@, today) == add_days_spec(today, 1),
        relative_from_lower("yesterday"@, today) == add_days_spec(today, -1),
{
    reveal_strlit("today");
    reveal_strlit("tomorrow");
    reveal_strlit("yesterday");
    assert("tomorrow"@ != "today"@) by {
        assert("tomorrow"@.len() != "today"@.len());
    }
    assert("yesterday"@ != "today"@) by {
        assert("yesterday"@.len() != "today"@.len());
    }
    assert("yesterday"@ != "tomorrow"@) by {
        assert("yesterday"@[0] != "tomorrow"@[0]);
    }
}

} // verus!
