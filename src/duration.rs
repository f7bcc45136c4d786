//! Rendering of a number of seconds as hours and minutes.
use vstd::prelude::*;

use crate::text::has_substring;

verus! {

/// The decimal digit for `d`, which is below ten.
pub open spec fn digit_char(d: nat) -> char {
    if d == 0 { '0' }
    else if d == 1 { '1' }
    else if d == 2 { '2' }
    else if d == 3 { '3' }
    else if d == 4 { '4' }
    else if d == 5 { '5' }
    else if d == 6 { '6' }
    else if d == 7 { '7' }
    else if d == 8 { '8' }
    else { '9' }
}

/// The decimal rendering of `n`, without sign or leading zeros.
pub open spec fn decimal(n: nat) -> Seq<char>
    decreases n,
{
    if n < 10 {
        seq![digit_char(n)]
    } else {
        decimal(n / 10).push(digit_char(n % 10))
    }
}

/// `"1 word"`, `"n words"`, or nothing at all when `n` is zero.
pub open spec fn plural_text(n: nat, word: Seq<char>) -> Seq<char> {
    if n == 0 {
        Seq::empty()
    } else if n == 1 {
        seq!['1', ' '] + word
    } else {
        decimal(n) + seq![' '] + word + seq!['s']
    }
}

pub open spec fn whole_hours(seconds: nat) -> nat {
    seconds / 3600
}

pub open spec fn whole_minutes(seconds: nat) -> nat {
    (seconds % 3600) / 60
}

/// The hour term, then a single space where both terms are present, then
/// the minute term. Leftover seconds are not rendered.
pub open spec fn duration_text(seconds: nat) -> Seq<char> {
    let h = whole_hours(seconds);
    let m = whole_minutes(seconds);
    plural_text(h, seq!['h', 'o', 'u', 'r'])
        + (if h > 0 && m > 0 { seq![' '] } else { Seq::empty() })
        + plural_text(m, seq!['m', 'i', 'n', 'u', 't', 'e'])
}

/// Relies on `u64`'s `Display` (through `to_string`): the decimal digits of
/// the value, most significant first, without sign or padding.
#[verifier::external_body]
fn decimal_string(n: u64) -> (r: String)
    ensures
        r@ == decimal(n as nat),
{
    n.to_string()
}

/// Renders `x` items of `word`: empty for zero, singular for one, and the
/// count followed by the plural form otherwise.
pub fn plural(x: u64, word: &str) -> (r: String)
    ensures
        r@ == plural_text(x as nat, word@),
{
    if x == 0 {
        String::new()
    } else if x == 1 {
        let one = String::from_str("1 ");
        proof {
            reveal_strlit("1 ");
        }
        let r = one.concat(word);
        assert(r@ =~= seq!['1', ' '] + word@);
        r
    } else {
        let count = decimal_string(x);
        let spaced = count.concat(" ");
        let named = spaced.concat(word);
        let r = named.concat("s");
        proof {
            reveal_strlit(" ");
            reveal_strlit("s");
        }
        assert(r@ =~= decimal(x as nat) + seq![' '] + word@ + seq!['s']);
        r
    }
}

/// Renders a number of seconds as `"H hours M minutes"`, leaving out a term
/// that would be zero and truncating the leftover seconds.
pub fn format_duration(seconds: u64) -> (r: String)
    ensures
        r@ == duration_text(seconds as nat),
{
    let hours = seconds / 3600;
    let minutes = (seconds - hours * 3600) / 60;
    assert(seconds - hours * 3600 == seconds % 3600);
    let hour_term = plural(hours, "hour");
    let minute_term = plural(minutes, "minute");
    proof {
        reveal_strlit("hour");
        reveal_strlit("minute");
        reveal_strlit(" ");
    }
    let joined = if hours > 0 && minutes > 0 {
        hour_term.concat(" ")
    } else {
        hour_term
    };
    let r = joined.concat(minute_term.as_str());
    assert(r@ =~= duration_text(seconds as nat));
    r
}

/// No `'0'` in `s` is directly followed by a space.
pub open spec fn no_zero_before_space(s: Seq<char>) -> bool {
    forall|i: int| 0 <= i < s.len() - 1 ==> !(#[trigger] s[i] == '0' && s[i + 1] == ' ')
}

proof fn lemma_digit_char(d: nat)
    requires
        d < 10,
    ensures
        digit_char(d) != ' ',
        digit_char(d) == '0' <==> d == 0,
{
}

proof fn lemma_decimal_digits(n: nat)
    ensures
        decimal(n).len() >= 1,
        forall|i: int| 0 <= i < decimal(n).len() ==> #[trigger] decimal(n)[i] != ' ',
        decimal(n).last() == digit_char(n % 10),
    decreases n,
{
    lemma_digit_char(n % 10);
    if n >= 10 {
        lemma_decimal_digits(n / 10);
        assert forall|i: int| 0 <= i < decimal(n).len() implies #[trigger] decimal(n)[i] != ' ' by {
            if i < decimal(n / 10).len() {
                assert(decimal(n)[i] == decimal(n / 10)[i]);
            }
        }
    }
}

proof fn lemma_join(a: Seq<char>, b: Seq<char>)
    requires
        no_zero_before_space(a),
        no_zero_before_space(b),
        a.len() > 0 && b.len() > 0 ==> !(a.last() == '0' && b[0] == ' '),
    ensures
        no_zero_before_space(a + b),
{
    let s = a + b;
    assert forall|i: int| 0 <= i < s.len() - 1 implies !(#[trigger] s[i] == '0' && s[i + 1] == ' ') by {
        if i + 1 < a.len() {
            assert(s[i] == a[i] && s[i + 1] == a[i + 1]);
        } else if i >= a.len() {
            assert(s[i] == b[i - a.len()] && s[i + 1] == b[i + 1 - a.len()]);
        } else {
            assert(s[i] == a.last() && s[i + 1] == b[0]);
        }
    }
}

proof fn lemma_term(n: nat, word: Seq<char>)
    requires
        !(n > 0 && n % 10 == 0),
        word.len() > 0,
        word[0] != ' ',
        word.last() != '0',
        no_zero_before_space(word),
    ensures
        no_zero_before_space(plural_text(n, word)),
        plural_text(n, word).len() > 0 ==> plural_text(n, word).last() != '0',
{
    let sp = seq![' '];
    if n == 1 {
        assert(no_zero_before_space(seq!['1', ' ']));
        lemma_join(seq!['1', ' '], word);
    } else if n > 1 {
        lemma_decimal_digits(n);
        lemma_digit_char(n % 10);
        let d = decimal(n);
        assert(no_zero_before_space(d)) by {
            assert forall|i: int| 0 <= i < d.len() - 1 implies !(#[trigger] d[i] == '0' && d[i + 1] == ' ') by {
                assert(d[i + 1] != ' ');
            }
        }
        lemma_join(d, sp);
        lemma_join(d + sp, word);
        assert(no_zero_before_space(seq!['s']));
        lemma_join(d + sp + word, seq!['s']);
    }
}

/// A rendered duration shows no zero term: it never holds `"0 hour"` nor
/// `"0 minute"`. Hour and minute counts that are themselves multiples of
/// ten (`"10 hours"`, `"20 minutes"`) hold those runs as part of the number,
/// and are left out.
pub proof fn lemma_no_zero_terms(seconds: nat)
    requires
        !(whole_hours(seconds) > 0 && whole_hours(seconds) % 10 == 0),
        !(whole_minutes(seconds) > 0 && whole_minutes(seconds) % 10 == 0),
    ensures
        !has_substring(duration_text(seconds), seq!['0', ' ', 'h', 'o', 'u', 'r']),
        !has_substring(duration_text(seconds), seq!['0', ' ', 'm', 'i', 'n', 'u', 't', 'e']),
{
    let h = whole_hours(seconds);
    let m = whole_minutes(seconds);
    let hour = seq!['h', 'o', 'u', 'r'];
    let minute = seq!['m', 'i', 'n', 'u', 't', 'e'];
    assert(no_zero_before_space(hour));
    assert(no_zero_before_space(minute));
    lemma_term(h, hour);
    lemma_term(m, minute);
    let a = plural_text(h, hour);
    let sep: Seq<char> = if h > 0 && m > 0 { seq![' '] } else { Seq::empty() };
    let b = plural_text(m, minute);
    assert(no_zero_before_space(sep));
    lemma_join(a, sep);
    lemma_join(a + sep, b);
    let t = duration_text(seconds);
    assert(t == a + sep + b);
    assert forall|needle: Seq<char>|
        needle.len() >= 2 && needle[0] == '0' && needle[1] == ' ' implies !has_substring(t, needle) by {
        if has_substring(t, needle) {
            let i = choose|i: int|
                0 <= i <= t.len() - needle.len() && #[trigger] t.subrange(i, i + needle.len())
                    == needle;
            assert(t[i] == t.subrange(i, i + needle.len())[0]);
            assert(t[i + 1] == t.subrange(i, i + needle.len())[1]);
        }
    }
}

} // verus!
