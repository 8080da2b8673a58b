//! Operations on strings: those that the library takes from the standard
//! library, and the few that it has of its own.

use vstd::prelude::*;
use vstd::string::StringExecFns;

verus! {

/// The upper-case form of a string, as the standard library computes it.
pub uninterp spec fn uppercase_of(s: Seq<char>) -> Seq<char>;

/// The lower-case form of a string, as the standard library computes it.
pub uninterp spec fn lowercase_of(s: Seq<char>) -> Seq<char>;

/// The string `s` with every occurrence of the word `from` replaced by
/// `to`. The occurrences are taken from the left and do not overlap.
pub open spec fn replaced_in(s: Seq<char>, from: Seq<char>, to: Seq<char>) -> Seq<char>
    decreases s.len(),
{
    if from.len() == 0 || s.len() < from.len() {
        s
    } else if s.take(from.len() as int) == from {
        to + replaced_in(s.skip(from.len() as int), from, to)
    } else {
        seq![s[0]] + replaced_in(s.skip(1), from, to)
    }
}

/// Calls `str::to_uppercase`. The result is the upper-case form that the
/// standard library defines, over all of Unicode; nothing more is claimed
/// of it.
#[verifier::external_body]
pub(crate) fn to_uppercase(s: &str) -> (r: String)
    ensures
        r@ == uppercase_of(s@),
{
    s.to_uppercase()
}

/// Calls `str::to_lowercase`. The result is the lower-case form that the
/// standard library defines, over all of Unicode; nothing more is claimed
/// of it.
#[verifier::external_body]
pub(crate) fn to_lowercase(s: &str) -> (r: String)
    ensures
        r@ == lowercase_of(s@),
{
    s.to_lowercase()
}

/// Calls `str::replace` with a word that is not empty. The standard
/// library replaces every match of the word, found from the left without
/// overlap, which is what [`replaced_in`] says.
#[verifier::external_body]
pub(crate) fn replace(s: &str, from: &str, to: &str) -> (r: String)
    requires
        from@.len() > 0,
    ensures
        r@ == replaced_in(s@, from@, to@),
{
    s.replace(from, to)
}

/// The value of a decimal digit, `None` for any other character.
pub open spec fn digit_value(c: char) -> Option<nat> {
    if c == '0' {
        Some(0)
    } else if c == '1' {
        Some(1)
    } else if c == '2' {
        Some(2)
    } else if c == '3' {
        Some(3)
    } else if c == '4' {
        Some(4)
    } else if c == '5' {
        Some(5)
    } else if c == '6' {
        Some(6)
    } else if c == '7' {
        Some(7)
    } else if c == '8' {
        Some(8)
    } else if c == '9' {
        Some(9)
    } else {
        None
    }
}

/// Whether every character of `s` is a decimal digit.
pub open spec fn all_digits(s: Seq<char>) -> bool {
    forall|i: int| 0 <= i < s.len() ==> digit_value(#[trigger] s[i]) is Some
}

/// The number that the decimal digits `s` stand for.
pub open spec fn decimal_value(s: Seq<char>) -> nat
    decreases s.len(),
{
    if s.len() == 0 {
        0
    } else {
        decimal_value(s.drop_last()) * 10 + match digit_value(s.last()) {
            Some(d) => d,
            None => 0,
        }
    }
}

/// The number that is read from the text `s`: the value of its decimal
/// digits, before which a `+` may stand. `None` where there are no digits,
/// there is any other character, or the value is above `u64::MAX`.
pub open spec fn parsed_u64(s: Seq<char>) -> Option<u64> {
    let digits = if s.len() > 0 && s[0] == '+' {
        s.skip(1)
    } else {
        s
    };
    if digits.len() == 0 || !all_digits(digits) || decimal_value(digits) > u64::MAX {
        None
    } else {
        Some(decimal_value(digits) as u64)
    }
}

/// The value of digits is no less than the value of the digits before any
/// place in them.
proof fn lemma_decimal_value_grows(s: Seq<char>, n: int)
    requires
        0 <= n <= s.len(),
    ensures
        decimal_value(s.take(n)) <= decimal_value(s),
    decreases s.len() - n,
{
    if n < s.len() {
        lemma_decimal_value_grows(s, n + 1);
        assert(s.take(n + 1).drop_last() =~= s.take(n));
    } else {
        assert(s.take(n) =~= s);
    }
}

fn digit_of(c: char) -> (r: Option<u64>)
    ensures
        match digit_value(c) {
            Some(d) => r == Some(d as u64),
            None => r is None,
        },
{
    if c == '0' {
        Some(0)
    } else if c == '1' {
        Some(1)
    } else if c == '2' {
        Some(2)
    } else if c == '3' {
        Some(3)
    } else if c == '4' {
        Some(4)
    } else if c == '5' {
        Some(5)
    } else if c == '6' {
        Some(6)
    } else if c == '7' {
        Some(7)
    } else if c == '8' {
        Some(8)
    } else if c == '9' {
        Some(9)
    } else {
        None
    }
}

/// Reads an unsigned number of at most 64 bits from the decimal text `s`.
pub fn parse_u64(s: &str) -> (r: Option<u64>)
    ensures
        r == parsed_u64(s@),
{
    let n = s.unicode_len();
    let start: usize = if n > 0 && s.get_char(0) == '+' { 1 } else { 0 };
    let ghost digits = if s@.len() > 0 && s@[0] == '+' { s@.skip(1) } else { s@ };
    assert(digits =~= s@.skip(start as int));
    if start == n {
        return None;
    }
    let mut acc: u64 = 0;
    let mut i: usize = start;
    assert(digits.take(0) =~= Seq::<char>::empty());
    while i < n
        invariant
            start <= i <= n,
            n == s@.len(),
            digits == s@.skip(start as int),
            digits == (if s@.len() > 0 && s@[0] == '+' { s@.skip(1) } else { s@ }),
            digits.len() > 0,
            all_digits(digits.take(i - start)),
            acc == decimal_value(digits.take(i - start)),
        decreases n - i,
    {
        let c = s.get_char(i);
        let ghost next = digits.take(i - start + 1);
        proof {
            assert(digits[i - start] == c);
            assert(next.drop_last() =~= digits.take(i - start));
            assert(next.last() == c);
            lemma_decimal_value_grows(digits, i - start + 1);
        }
        let d = match digit_of(c) {
            Some(d) => d,
            None => {
                assert(!all_digits(digits)) by {
                    assert(digit_value(digits[i - start]) is None);
                }
                return None;
            },
        };
        assert(decimal_value(next) == acc * 10 + d);
        if acc > (u64::MAX - d) / 10 {
            assert(decimal_value(digits) > u64::MAX);
            return None;
        }
        acc = acc * 10 + d;
        proof {
            assert forall|k: int| 0 <= k < next.len() implies digit_value(#[trigger] next[k]) is Some by {
                if k < i - start {
                    assert(next[k] == digits.take(i - start)[k]);
                }
            }
        }
        i += 1;
    }
    assert(digits.take(n - start) =~= digits);
    Some(acc)
}

/// The path `file` under the path `base`, with `/` between the parts of a
/// path: `file` itself where it starts at the root or `base` is empty, else
/// `base`, a `/` unless `base` ends in one, and `file`.
pub open spec fn joined_path(base: Seq<char>, file: Seq<char>) -> Seq<char> {
    if file.len() > 0 && file[0] == '/' {
        file
    } else if base.len() == 0 {
        file
    } else if base.last() == '/' {
        base + file
    } else {
        base + seq!['/'] + file
    }
}

/// The path `file` under the path `base`.
pub fn join_path(base: &str, file: &str) -> (r: String)
    ensures
        r@ == joined_path(base@, file@),
{
    let n = base.unicode_len();
    if file.unicode_len() > 0 && file.get_char(0) == '/' {
        String::from_str(file)
    } else if n == 0 {
        String::from_str(file)
    } else if base.get_char(n - 1) == '/' {
        let mut r = String::from_str(base);
        r.append(file);
        r
    } else {
        proof {
            reveal_strlit("/");
        }
        let mut r = String::from_str(base);
        r.append("/");
        r.append(file);
        assert("/"@ =~= seq!['/']);
        r
    }
}

/// Whether two strings hold the same characters.
pub fn str_eq(a: &str, b: &str) -> (r: bool)
    ensures
        r == (a@ == b@),
{
    a.to_owned() == b.to_owned()
}

} // verus!
