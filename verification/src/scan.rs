//! Scanning of text read from the system: whitespace, trimming, word
//! splitting and unsigned integer parsing, each with an exact specification.

use vstd::prelude::*;
use crate::text::{push_char, push_str};

verus! {

/// Unicode `White_Space` characters (`char::is_whitespace`).
pub open spec fn is_ws(c: char) -> bool {
    let u = c as u32;
    u == 0x20 || (0x09 <= u && u <= 0x0D) || u == 0x85 || u == 0xA0 || u == 0x1680
        || (0x2000 <= u && u <= 0x200A) || u == 0x2028 || u == 0x2029 || u == 0x202F
        || u == 0x205F || u == 0x3000
}

pub fn is_ws_exec(c: char) -> (b: bool)
    ensures
        b == is_ws(c),
{
    let u = c as u32;
    u == 0x20 || (0x09 <= u && u <= 0x0D) || u == 0x85 || u == 0xA0 || u == 0x1680
        || (0x2000 <= u && u <= 0x200A) || u == 0x2028 || u == 0x2029 || u == 0x202F
        || u == 0x205F || u == 0x3000
}

/// `s` without its leading whitespace (`str::trim_start`).
pub open spec fn trim_start(s: Seq<char>) -> Seq<char>
    decreases s.len(),
{
    if s.len() > 0 && is_ws(s[0]) {
        trim_start(s.drop_first())
    } else {
        s
    }
}

/// `s` without its trailing whitespace (`str::trim_end`).
pub open spec fn trim_end(s: Seq<char>) -> Seq<char>
    decreases s.len(),
{
    if s.len() > 0 && is_ws(s.last()) {
        trim_end(s.drop_last())
    } else {
        s
    }
}

/// `s` without leading and trailing whitespace (`str::trim`).
pub open spec fn trim(s: Seq<char>) -> Seq<char> {
    trim_end(trim_start(s))
}

/// Index of the first character of `trim_start(s)` in `s`.
pub fn trim_start_index(s: &str) -> (i: usize)
    ensures
        i <= s@.len(),
        trim_start(s@) == s@.skip(i as int),
{
    let n = s.unicode_len();
    let mut i: usize = 0;
    assert(s@.skip(0) =~= s@);
    while i < n && is_ws_exec(s.get_char(i))
        invariant
            n == s@.len(),
            i <= n,
            trim_start(s@) == trim_start(s@.skip(i as int)),
        decreases n - i,
    {
        assert(s@.skip(i as int).drop_first() =~= s@.skip(i + 1));
        i = i + 1;
    }
    i
}

/// Index just past the last character of `trim_end(s.take(hi))` in `s`.
pub fn trim_end_index(s: &str, hi: usize) -> (j: usize)
    requires
        hi <= s@.len(),
    ensures
        j <= hi,
        trim_end(s@.take(hi as int)) == s@.take(j as int),
{
    let mut j: usize = hi;
    while j > 0 && is_ws_exec(s.get_char(j - 1))
        invariant
            j <= hi,
            hi <= s@.len(),
            trim_end(s@.take(hi as int)) == trim_end(s@.take(j as int)),
        decreases j,
    {
        assert(s@.take(j as int).drop_last() =~= s@.take(j - 1));
        j = j - 1;
    }
    j
}

/// `str::trim`.
pub fn trim_str(s: &str) -> (t: &str)
    ensures
        t@ == trim(s@),
{
    let i = trim_start_index(s);
    let n = s.unicode_len();
    let rest = s.substring_char(i, n);
    assert(rest@ =~= s@.skip(i as int));
    let j = trim_end_index(rest, n - i);
    assert(rest@.take((n - i) as int) =~= rest@);
    let t = rest.substring_char(0, j);
    assert(t@ =~= rest@.take(j as int));
    t
}

/// `str::trim_end`.
pub fn trim_end_str(s: &str) -> (t: &str)
    ensures
        t@ == trim_end(s@),
{
    let n = s.unicode_len();
    let j = trim_end_index(s, n);
    assert(s@.take(n as int) =~= s@);
    let t = s.substring_char(0, j);
    assert(t@ =~= s@.take(j as int));
    t
}

/// The words of `s` after a partial word `cur`: maximal runs of
/// non-whitespace characters.
pub open spec fn words_from(s: Seq<char>, cur: Seq<char>) -> Seq<Seq<char>>
    decreases s.len(),
{
    let flushed: Seq<Seq<char>> = if cur.len() > 0 { seq![cur] } else { seq![] };
    if s.len() == 0 {
        flushed
    } else if is_ws(s[0]) {
        flushed + words_from(s.drop_first(), seq![])
    } else {
        words_from(s.drop_first(), cur.push(s[0]))
    }
}

/// The whitespace-separated words of `s` (`str::split_whitespace`).
pub open spec fn words(s: Seq<char>) -> Seq<Seq<char>> {
    words_from(s, seq![])
}

pub open spec fn views_of(v: Seq<String>) -> Seq<Seq<char>> {
    v.map_values(|w: String| w@)
}

/// Splits `s` into its whitespace-separated words.
pub fn split_words(s: &str) -> (out: Vec<String>)
    ensures
        views_of(out@) == words(s@),
{
    let n = s.unicode_len();
    let mut out: Vec<String> = Vec::new();
    let mut cur = String::new();
    let mut i: usize = 0;
    assert(s@.skip(0) =~= s@);
    assert(views_of(out@) =~= Seq::<Seq<char>>::empty());
    while i < n
        invariant
            n == s@.len(),
            i <= n,
            words(s@) == views_of(out@) + words_from(s@.skip(i as int), cur@),
        decreases n - i,
    {
        let c = s.get_char(i);
        let ghost rest = s@.skip(i as int);
        assert(rest[0] == c);
        assert(rest.drop_first() =~= s@.skip(i + 1));
        let ghost next = s@.skip(i + 1);
        if is_ws_exec(c) {
            if cur.unicode_len() > 0 {
                let ghost before = views_of(out@);
                let ghost cv = cur@;
                assert(words_from(rest, cv) == seq![cv] + words_from(next, seq![]));
                out.push(cur);
                assert(views_of(out@) =~= before + seq![cv]);
                cur = String::new();
                assert(before + (seq![cv] + words_from(next, seq![])) =~= views_of(out@)
                    + words_from(next, cur@));
            } else {
                assert(cur@ =~= seq![]);
                assert(words_from(rest, cur@) == Seq::<Seq<char>>::empty() + words_from(next, seq![]));
                assert(Seq::<Seq<char>>::empty() + words_from(next, seq![]) =~= words_from(next, cur@));
            }
        } else {
            let ghost cv = cur@;
            assert(words_from(rest, cv) == words_from(next, cv.push(c)));
            push_char(&mut cur, c);
        }
        i = i + 1;
    }
    if cur.unicode_len() > 0 {
        let ghost before = views_of(out@);
        out.push(cur);
        assert(views_of(out@) =~= before + seq![cur@]);
    }
    assert(views_of(out@) =~= words(s@));
    out
}

/// The ways in which reading an unsigned integer can fail, as
/// `core::num::IntErrorKind` tells them apart.
#[derive(Clone, Copy, Debug, PartialEq, Eq)]
pub enum IntError {
    Empty,
    InvalidDigit,
    PosOverflow,
}

pub open spec fn is_digit(c: char) -> bool {
    '0' <= c && c <= '9'
}

pub open spec fn digit_value(c: char) -> nat {
    ((c as u32) - 48) as nat
}

/// Digits read left to right onto `acc`, failing at the first character
/// that is not a digit or that takes the value above `max`.
pub open spec fn parse_digits(s: Seq<char>, acc: nat, max: nat) -> Result<nat, IntError>
    decreases s.len(),
{
    if s.len() == 0 {
        Ok(acc)
    } else if !is_digit(s[0]) {
        Err(IntError::InvalidDigit)
    } else if acc * 10 + digit_value(s[0]) > max {
        Err(IntError::PosOverflow)
    } else {
        parse_digits(s.drop_first(), acc * 10 + digit_value(s[0]), max)
    }
}

/// Decimal reading of an unsigned integer no greater than `max`, with an
/// optional leading `+` (`FromStr` for the unsigned integer types).
pub open spec fn parse_uint(s: Seq<char>, max: nat) -> Result<nat, IntError> {
    if s.len() == 0 {
        Err(IntError::Empty)
    } else if s.len() == 1 && (s[0] == '+' || s[0] == '-') {
        Err(IntError::InvalidDigit)
    } else if s[0] == '+' {
        parse_digits(s.drop_first(), 0, max)
    } else {
        parse_digits(s, 0, max)
    }
}

proof fn lemma_parse_digits_bound(s: Seq<char>, acc: nat, max: nat)
    requires
        acc <= max,
    ensures
        parse_digits(s, acc, max) matches Ok(v) ==> v <= max,
    decreases s.len(),
{
    if s.len() > 0 && is_digit(s[0]) && acc * 10 + digit_value(s[0]) <= max {
        lemma_parse_digits_bound(s.drop_first(), acc * 10 + digit_value(s[0]), max);
    }
}

/// A successful reading never exceeds its bound.
pub proof fn lemma_parse_uint_bound(s: Seq<char>, max: nat)
    ensures
        parse_uint(s, max) matches Ok(v) ==> v <= max,
{
    if s.len() > 0 && s[0] == '+' {
        lemma_parse_digits_bound(s.drop_first(), 0, max);
    } else {
        lemma_parse_digits_bound(s, 0, max);
    }
}

/// Reads an unsigned decimal integer no greater than `max`.
pub fn parse_uint_str(s: &str, max: u64) -> (r: Result<u64, IntError>)
    ensures
        match parse_uint(s@, max as nat) {
            Ok(v) => r == Ok::<u64, IntError>(v as u64) && v <= max,
            Err(e) => r == Err::<u64, IntError>(e),
        },
{
    let n = s.unicode_len();
    if n == 0 {
        return Err(IntError::Empty);
    }
    let c0 = s.get_char(0);
    if n == 1 && (c0 == '+' || c0 == '-') {
        return Err(IntError::InvalidDigit);
    }
    let mut i: usize = if c0 == '+' { 1 } else { 0 };
    let ghost digits = if c0 == '+' { s@.drop_first() } else { s@ };
    assert(digits =~= s@.skip(i as int));
    let mut acc: u64 = 0;
    while i < n
        invariant
            n == s@.len(),
            i <= n,
            acc <= max,
            parse_uint(s@, max as nat) == parse_digits(s@.skip(i as int), acc as nat, max as nat),
        decreases n - i,
    {
        let c = s.get_char(i);
        let ghost rest = s@.skip(i as int);
        assert(rest[0] == c);
        assert(rest.drop_first() =~= s@.skip(i + 1));
        if !('0' <= c && c <= '9') {
            return Err(IntError::InvalidDigit);
        }
        let d = ((c as u32) - 48) as u64;
        if acc > max / 10 {
            assert(acc * 10 + d > max) by (nonlinear_arith)
                requires
                    acc > max / 10,
            ;
            return Err(IntError::PosOverflow);
        }
        assert(acc * 10 <= max) by (nonlinear_arith)
            requires
                acc <= max / 10,
        ;
        if d > max - acc * 10 {
            return Err(IntError::PosOverflow);
        }
        acc = acc * 10 + d;
        i = i + 1;
    }
    assert(s@.skip(n as int).len() == 0);
    proof {
        lemma_parse_digits_bound(s@.skip(n as int), acc as nat, max as nat);
    }
    Ok(acc)
}

/// The message that `ParseIntError` displays for each kind of failure.
pub open spec fn int_error_text(e: IntError) -> Seq<char> {
    match e {
        IntError::Empty => "cannot parse integer from empty string"@,
        IntError::InvalidDigit => "invalid digit found in string"@,
        IntError::PosOverflow => "number too large to fit in target type"@,
    }
}

pub fn push_int_error_text(s: &mut String, e: IntError)
    ensures
        final(s)@ == old(s)@ + int_error_text(e),
{
    match e {
        IntError::Empty => push_str(s, "cannot parse integer from empty string"),
        IntError::InvalidDigit => push_str(s, "invalid digit found in string"),
        IntError::PosOverflow => push_str(s, "number too large to fit in target type"),
    }
}


/// Whether `p` is a prefix of `s` (`str::starts_with`).
pub open spec fn has_prefix(s: Seq<char>, p: Seq<char>) -> bool {
    p.len() <= s.len() && s.take(p.len() as int) == p
}

pub fn starts_with(s: &str, p: &str) -> (b: bool)
    ensures
        b == has_prefix(s@, p@),
{
    let n = s.unicode_len();
    let m = p.unicode_len();
    if m > n {
        return false;
    }
    let mut i: usize = 0;
    while i < m
        invariant
            n == s@.len(),
            m == p@.len(),
            m <= n,
            i <= m,
            forall|k: int| 0 <= k < i ==> s@[k] == p@[k],
        decreases m - i,
    {
        if s.get_char(i) != p.get_char(i) {
            assert(s@.take(m as int)[i as int] != p@[i as int]);
            return false;
        }
        i = i + 1;
    }
    assert(s@.take(m as int) =~= p@);
    true
}

/// Whether some pattern of `ps` is a prefix of `s`.
pub open spec fn any_prefix(ps: Seq<Seq<char>>, s: Seq<char>) -> bool {
    exists|i: int| 0 <= i < ps.len() && has_prefix(s, #[trigger] ps[i])
}

pub fn starts_with_any(s: &str, ps: &Vec<String>) -> (b: bool)
    ensures
        b == any_prefix(views_of(ps@), s@),
{
    let mut i: usize = 0;
    while i < ps.len()
        invariant
            i <= ps.len(),
            forall|k: int| 0 <= k < i ==> !has_prefix(s@, #[trigger] views_of(ps@)[k]),
        decreases ps.len() - i,
    {
        if starts_with(s, ps[i].as_str()) {
            assert(has_prefix(s@, views_of(ps@)[i as int]));
            return true;
        }
        i = i + 1;
    }
    false
}

/// Whether `s` equals one of `ps`.
pub open spec fn contains_view(ps: Seq<Seq<char>>, s: Seq<char>) -> bool {
    exists|i: int| 0 <= i < ps.len() && ps[i] == s
}

pub fn str_eq(a: &str, b: &str) -> (r: bool)
    ensures
        r == (a@ == b@),
{
    let n = a.unicode_len();
    let m = b.unicode_len();
    if n != m {
        return false;
    }
    let mut i: usize = 0;
    while i < n
        invariant
            n == a@.len(),
            m == b@.len(),
            n == m,
            i <= n,
            forall|k: int| 0 <= k < i ==> a@[k] == b@[k],
        decreases n - i,
    {
        if a.get_char(i) != b.get_char(i) {
            return false;
        }
        i = i + 1;
    }
    assert(a@ =~= b@);
    true
}

pub fn contains_str(ps: &Vec<String>, s: &str) -> (b: bool)
    ensures
        b == contains_view(views_of(ps@), s@),
{
    let mut i: usize = 0;
    while i < ps.len()
        invariant
            i <= ps.len(),
            forall|k: int| 0 <= k < i ==> views_of(ps@)[k] != s@,
        decreases ps.len() - i,
    {
        if str_eq(ps[i].as_str(), s) {
            assert(views_of(ps@)[i as int] == s@);
            return true;
        }
        i = i + 1;
    }
    false
}

} // verus!
