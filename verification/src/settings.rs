//! Reading the extension's settings out of the raw values of its
//! environment variables.

use vstd::prelude::*;

verus! {

/// What `str::to_lowercase` makes of a string, by the Unicode rules of
/// lowercasing.
pub uninterp spec fn lowercase_of(s: Seq<char>) -> Seq<char>;

/// Calls `str::to_lowercase`. Claimed: the result is `lowercase_of` of the
/// input's characters; nothing more of Unicode lowercasing is stated.
#[verifier::external_body]
fn lowercase(s: &str) -> (res: String)
    ensures
        res@ == lowercase_of(s@),
{
    s.to_lowercase()
}

/// The flag that an already lowercased word denotes: `"true"`, `"false"`, or
/// else the given default.
pub open spec fn bool_word(word: Seq<char>, default: bool) -> bool {
    if word == "true"@ {
        true
    } else if word == "false"@ {
        false
    } else {
        default
    }
}

/// Reads a flag from a word that is already in lowercase.
pub fn bool_from_lowercase(lowered: &str, default: bool) -> (res: bool)
    ensures
        res == bool_word(lowered@, default),
{
    let word = String::from_str(lowered);
    if word == String::from_str("true") {
        true
    } else if word == String::from_str("false") {
        false
    } else {
        default
    }
}

/// Reads a flag: `"true"` or `"false"` in any letter case; any other input
/// gives `default`.
pub fn str_to_bool(input: &str, default: bool) -> (res: bool)
    ensures
        res == bool_word(lowercase_of(input@), default),
{
    let lowered = lowercase(input);
    bool_from_lowercase(lowered.as_str(), default)
}

/// A decimal digit, `0` to `9`.
pub open spec fn is_decimal_digit(c: char) -> bool {
    '0' <= c && c <= '9'
}

/// The value of a decimal digit (0 for any other character).
pub open spec fn digit_value(c: char) -> nat {
    if is_decimal_digit(c) {
        (c as nat - '0' as nat) as nat
    } else {
        0
    }
}

pub open spec fn all_decimal_digits(s: Seq<char>) -> bool {
    forall|i: int| 0 <= i < s.len() ==> is_decimal_digit(#[trigger] s[i])
}

/// The number that a string of decimal digits writes, most significant first.
pub open spec fn decimal_value(s: Seq<char>) -> nat
    decreases s.len(),
{
    if s.len() == 0 {
        0
    } else {
        decimal_value(s.drop_last()) * 10 + digit_value(s.last())
    }
}

/// The digits of an unsigned number: what follows one optional leading `+`.
pub open spec fn unsigned_digits(s: Seq<char>) -> Seq<char> {
    if s.len() > 0 && s[0] == '+' {
        s.drop_first()
    } else {
        s
    }
}

/// What `str::parse::<u64>` gives: an optional `+`, then one or more decimal
/// digits whose value fits in a `u64`; anything else is no number.
pub open spec fn parsed_u64(s: Seq<char>) -> Option<u64> {
    let digits = unsigned_digits(s);
    if digits.len() > 0 && all_decimal_digits(digits) && decimal_value(digits) <= u64::MAX {
        Some(decimal_value(digits) as u64)
    } else {
        None
    }
}

/// The value of a digit string is at least that of each of its prefixes.
pub proof fn lemma_prefix_value_le(s: Seq<char>, k: int)
    requires
        0 <= k <= s.len(),
    ensures
        decimal_value(s.take(k)) <= decimal_value(s),
    decreases s.len(),
{
    if k < s.len() {
        lemma_prefix_value_le(s.drop_last(), k);
        assert(s.drop_last().take(k) =~= s.take(k));
    } else {
        assert(s.take(k) =~= s);
    }
}

/// Reads an unsigned decimal number as `str::parse::<u64>` does.
pub fn parse_u64(s: &str) -> (res: Option<u64>)
    ensures
        res == parsed_u64(s@),
{
    let n = s.unicode_len();
    let mut start: usize = 0;
    if n > 0 && s.get_char(0) == '+' {
        start = 1;
    }
    let ghost digits = unsigned_digits(s@);
    assert(digits =~= s@.subrange(start as int, n as int));
    if start == n {
        return None;
    }
    let mut value: u64 = 0;
    let mut i: usize = start;
    while i < n
        invariant
            start <= i <= n,
            n == s@.len(),
            digits == s@.subrange(start as int, n as int),
            digits == unsigned_digits(s@),
            all_decimal_digits(s@.subrange(start as int, i as int)),
            value as nat == decimal_value(s@.subrange(start as int, i as int)),
        decreases n - i,
    {
        let c = s.get_char(i);
        let ghost seen = s@.subrange(start as int, i as int);
        let ghost next = s@.subrange(start as int, i + 1);
        assert(next.drop_last() =~= seen);
        assert(next.last() == c);
        if !('0' <= c && c <= '9') {
            assert(digits[i - start] == c);
            assert(!is_decimal_digit(digits[i - start]));
            return None;
        }
        let d: u64 = (c as u32 - '0' as u32) as u64;
        assert(d as nat == digit_value(c));
        let grown = match value.checked_mul(10) {
            Some(v) => v.checked_add(d),
            None => None,
        };
        match grown {
            Some(v) => {
                value = v;
            },
            None => {
                proof {
                    assert(digits.take(i + 1 - start) =~= next);
                    lemma_prefix_value_le(digits, i + 1 - start);
                }
                return None;
            },
        }
        i = i + 1;
    }
    assert(s@.subrange(start as int, i as int) =~= digits);
    Some(value)
}

/// Whether a fault is enabled, from the raw value of its enabling variable:
/// unset means off, and so does any value that is neither `true` nor
/// `false` in some letter case.
pub fn fault_enabled(raw: Option<&str>) -> (res: bool)
    ensures
        res == match raw {
            Some(v) => bool_word(lowercase_of(v@), false),
            None => false,
        },
{
    match raw {
        Some(v) => str_to_bool(v, false),
        None => false,
    }
}

/// The latency injected when none is configured: fifteen minutes.
pub const DEFAULT_LATENCY_SECS: u64 = 900;

/// The latency to inject, in seconds, from the raw value of its variable:
/// the number it holds, or 900 when it is unset or holds no `u64`.
pub fn latency_seconds(raw: Option<&str>) -> (res: u64)
    ensures
        raw is None ==> res == 900,
        res == match raw {
            Some(v) => match parsed_u64(v@) {
                Some(n) => n,
                None => DEFAULT_LATENCY_SECS,
            },
            None => DEFAULT_LATENCY_SECS,
        },
{
    match raw {
        Some(v) => match parse_u64(v) {
            Some(n) => n,
            None => DEFAULT_LATENCY_SECS,
        },
        None => DEFAULT_LATENCY_SECS,
    }
}

/// The default of an unrecognised value decides only unrecognised values:
/// `true` and `false` read the same whatever the default.
pub proof fn lemma_default_only_for_unrecognised(word: Seq<char>, d1: bool, d2: bool)
    ensures
        (word == "true"@ || word == "false"@) ==> bool_word(word, d1) == bool_word(word, d2),
        !(word == "true"@ || word == "false"@) ==> bool_word(word, d1) == d1,
{
}

/// The decimal digit for `0 <= d < 10`.
pub open spec fn digit_char(d: nat) -> char {
    (d + 48) as char
}

/// The usual decimal writing of a number: no sign, no leading zeros.
pub open spec fn decimal_text(n: nat) -> Seq<char>
    decreases n,
{
    if n < 10 {
        seq![digit_char(n)]
    } else {
        decimal_text(n / 10).push(digit_char(n % 10))
    }
}

proof fn lemma_digit_char_value(d: nat)
    requires
        d < 10,
    ensures
        is_decimal_digit(digit_char(d)),
        digit_value(digit_char(d)) == d,
        digit_char(d) != '+',
{
}

proof fn lemma_decimal_text_digits(n: nat)
    ensures
        decimal_text(n).len() > 0,
        decimal_text(n)[0] != '+',
        all_decimal_digits(decimal_text(n)),
        decimal_value(decimal_text(n)) == n,
    decreases n,
{
    if n < 10 {
        lemma_digit_char_value(n);
        assert(decimal_text(n).drop_last() =~= Seq::<char>::empty());
        assert(decimal_value(Seq::<char>::empty()) == 0);
        assert(decimal_value(decimal_text(n)) == decimal_value(decimal_text(n).drop_last()) * 10
            + digit_value(decimal_text(n).last()));
    } else {
        lemma_digit_char_value(n % 10);
        lemma_decimal_text_digits(n / 10);
        let t = decimal_text(n);
        assert(t.drop_last() =~= decimal_text(n / 10));
        assert(t[0] == decimal_text(n / 10)[0]);
        assert(t.last() == digit_char(n % 10));
        assert((n / 10) * 10 + n % 10 == n) by (nonlinear_arith);
        assert(decimal_value(t) == decimal_value(t.drop_last()) * 10 + digit_value(t.last()));
        assert(decimal_value(t.drop_last()) == n / 10);
    }
}

/// Every `u64`, written in decimal, parses back to itself; with a leading
/// `+` it parses to the same number.
pub proof fn lemma_parse_reads_decimal_text(n: u64)
    ensures
        parsed_u64(decimal_text(n as nat)) == Some(n),
        parsed_u64(seq!['+'] + decimal_text(n as nat)) == Some(n),
{
    lemma_decimal_text_digits(n as nat);
    assert((seq!['+'] + decimal_text(n as nat)).drop_first() =~= decimal_text(n as nat));
}

/// A string holding any character other than a decimal digit, besides one
/// leading `+`, is no number; so is the empty string, and a lone `+`.
pub proof fn lemma_parse_refuses_non_digits(s: Seq<char>, i: int)
    ensures
        parsed_u64(Seq::empty()) is None,
        parsed_u64(seq!['+']) is None,
        (0 < i < s.len() || (0 <= i < s.len() && s[0] != '+')) && !('0' <= s[i] && s[i] <= '9')
            ==> parsed_u64(s) is None,
{
    if (0 < i < s.len() || (0 <= i < s.len() && s[0] != '+')) && !('0' <= s[i] && s[i] <= '9') {
        let d = unsigned_digits(s);
        if s[0] == '+' {
            assert(d[i - 1] == s[i]);
            assert(!is_decimal_digit(d[i - 1]));
        } else {
            assert(d[i] == s[i]);
            assert(!is_decimal_digit(d[i]));
        }
    }
    assert(seq!['+'].drop_first() =~= Seq::<char>::empty());
}

/// A number too large for a `u64` is no `u64`: the decimal writing of
/// `u64::MAX + 1` does not parse.
pub proof fn lemma_parse_refuses_overflow()
    ensures
        parsed_u64(decimal_text(u64::MAX as nat + 1)) is None,
{
    lemma_decimal_text_digits(u64::MAX as nat + 1);
}

/// The words `true` and `false` read as themselves whatever the default.
pub proof fn lemma_bool_words(default: bool)
    ensures
        bool_word("true"@, default) == true,
        bool_word("false"@, default) == false,
        bool_word("yes"@, default) == default,
        bool_word(Seq::empty(), default) == default,
{
    reveal_strlit("true");
    reveal_strlit("false");
    reveal_strlit("yes");
    assert("false"@.len() != "true"@.len());
    assert("yes"@.len() != "true"@.len() && "yes"@.len() != "false"@.len());
}

} // verus!
