//! Small verified text utilities: building decimal strings, comparing and
//! searching strings, and parsing unsigned numbers, shared by the label
//! formatting and the argument grammar.

use vstd::prelude::*;
use vstd::string::StrSliceExecFns;

verus! {

/// Relies on `String::push`: appends exactly the one given character.
#[verifier::external_body]
pub(crate) fn push_char(s: &mut String, c: char)
    ensures
        final(s)@ == old(s)@.push(c),
{
    s.push(c);
}

/// The character for one decimal digit.
pub open spec fn digit_char(d: nat) -> char
    recommends
        d < 10,
{
    if d == 0 {
        '0'
    } else if d == 1 {
        '1'
    } else if d == 2 {
        '2'
    } else if d == 3 {
        '3'
    } else if d == 4 {
        '4'
    } else if d == 5 {
        '5'
    } else if d == 6 {
        '6'
    } else if d == 7 {
        '7'
    } else if d == 8 {
        '8'
    } else {
        '9'
    }
}

/// The decimal representation of a number, most significant digit first,
/// without sign or leading zeros.
pub open spec fn dec_rep(n: nat) -> Seq<char>
    decreases n,
{
    if n < 10 {
        seq![digit_char(n)]
    } else {
        dec_rep(n / 10).push(digit_char(n % 10))
    }
}

fn digit_to_char(d: u32) -> (c: char)
    requires
        d < 10,
    ensures
        c == digit_char(d as nat),
{
    match d {
        0 => '0',
        1 => '1',
        2 => '2',
        3 => '3',
        4 => '4',
        5 => '5',
        6 => '6',
        7 => '7',
        8 => '8',
        _ => '9',
    }
}

/// Appends the decimal representation of `n`.
pub fn push_decimal(s: &mut String, n: u32)
    ensures
        final(s)@ == old(s)@ + dec_rep(n as nat),
    decreases n,
{
    if n >= 10 {
        push_decimal(s, n / 10);
    }
    push_char(s, digit_to_char(n % 10));
    proof {
        assert(s@ =~= old(s)@ + dec_rep(n as nat));
    }
}

/// `n` copies of one character.
pub open spec fn repeat_char(c: char, n: nat) -> Seq<char> {
    Seq::new(n, |i: int| c)
}

/// Appends `n` copies of `c`.
pub fn push_repeat(s: &mut String, c: char, n: usize)
    ensures
        final(s)@ == old(s)@ + repeat_char(c, n as nat),
{
    let mut k: usize = 0;
    while k < n
        invariant
            k <= n,
            s@ == old(s)@ + repeat_char(c, k as nat),
        decreases n - k,
    {
        push_char(s, c);
        proof {
            assert(old(s)@ + repeat_char(c, k as nat + 1) =~= (old(s)@ + repeat_char(
                c,
                k as nat,
            )).push(c));
        }
        k = k + 1;
    }
}

/// Whether two strings hold the same characters.
pub fn str_eq(a: &str, b: &str) -> (r: bool)
    ensures
        r <==> a@ == b@,
{
    let an = a.unicode_len();
    let bn = b.unicode_len();
    if an != bn {
        proof {
            assert(a@ != b@);
        }
        return false;
    }
    let mut i: usize = 0;
    while i < an
        invariant
            an == a@.len(),
            bn == b@.len(),
            an == bn,
            i <= an,
            forall|j: int| 0 <= j < i ==> a@[j] == b@[j],
        decreases an - i,
    {
        if a.get_char(i) != b.get_char(i) {
            return false;
        }
        i = i + 1;
    }
    proof {
        assert(a@ =~= b@);
    }
    true
}

/// Whether `needle` occurs as a contiguous run of characters inside
/// `haystack`, starting at position `at`.
pub open spec fn occurs_at(haystack: Seq<char>, needle: Seq<char>, at: int) -> bool {
    0 <= at && at + needle.len() <= haystack.len() && haystack.subrange(at, at + needle.len())
        == needle
}

/// Whether `needle` occurs anywhere inside `haystack`.
pub open spec fn contains_seq(haystack: Seq<char>, needle: Seq<char>) -> bool {
    exists|at: int| occurs_at(haystack, needle, at)
}

/// Whether `needle` occurs as a substring of `haystack`.
pub fn str_contains(haystack: &str, needle: &str) -> (r: bool)
    ensures
        r <==> contains_seq(haystack@, needle@),
{
    let hn = haystack.unicode_len();
    let nn = needle.unicode_len();
    if nn > hn {
        return false;
    }
    if nn == 0 {
        proof {
            assert(haystack@.subrange(0, 0) =~= needle@);
            assert(occurs_at(haystack@, needle@, 0));
        }
        return true;
    }
    let mut at: usize = 0;
    while at <= hn - nn
        invariant
            hn == haystack@.len(),
            nn == needle@.len(),
            0 < nn <= hn,
            at <= hn - nn + 1,
            forall|p: int| 0 <= p < at ==> !occurs_at(haystack@, needle@, p),
        decreases hn - at,
    {
        let mut j: usize = 0;
        let mut matched = true;
        while j < nn && matched
            invariant
                hn == haystack@.len(),
                nn == needle@.len(),
                at + nn <= hn,
                j <= nn,
                matched ==> haystack@.subrange(at as int, at + j) == needle@.subrange(0, j as int),
                !matched ==> !occurs_at(haystack@, needle@, at as int),
            decreases nn - j + (if matched { 1int } else { 0int }),
        {
            let hc = haystack.get_char(at + j);
            let nc = needle.get_char(j);
            if hc != nc {
                matched = false;
                proof {
                    assert(haystack@.subrange(at as int, at + nn)[j as int] == hc);
                    assert(needle@[j as int] == nc);
                }
            } else {
                proof {
                    assert(haystack@.subrange(at as int, at + j + 1) =~= haystack@.subrange(
                        at as int,
                        at + j,
                    ).push(hc));
                    assert(needle@.subrange(0, j as int + 1) =~= needle@.subrange(
                        0,
                        j as int,
                    ).push(nc));
                }
                j = j + 1;
            }
        }
        if matched {
            proof {
                assert(needle@.subrange(0, nn as int) =~= needle@);
                assert(occurs_at(haystack@, needle@, at as int));
            }
            return true;
        }
        at = at + 1;
    }
    proof {
        assert(forall|p: int| occurs_at(haystack@, needle@, p) ==> 0 <= p <= hn - nn);
    }
    false
}

/// Whether a character is a decimal digit.
pub open spec fn is_digit(c: char) -> bool {
    48 <= c as u32 <= 57
}

/// The value of one decimal digit character.
pub open spec fn digit_val(c: char) -> nat
    recommends
        is_digit(c),
{
    (c as u32 - 48) as nat
}

/// Whether every character of the sequence is a decimal digit.
pub open spec fn all_digits(s: Seq<char>) -> bool {
    forall|i: int| 0 <= i < s.len() ==> is_digit(#[trigger] s[i])
}

/// The number a sequence of decimal digits denotes.
pub open spec fn digits_val(s: Seq<char>) -> nat
    decreases s.len(),
{
    if s.len() == 0 {
        0
    } else {
        digits_val(s.drop_last()) * 10 + digit_val(s.last())
    }
}

/// A digit sequence denotes at least as much as any of its prefixes.
pub proof fn lemma_digits_val_prefix_le(s: Seq<char>, i: int)
    requires
        0 <= i <= s.len(),
    ensures
        digits_val(s.subrange(0, i)) <= digits_val(s),
    decreases s.len() - i,
{
    if i < s.len() {
        assert(s.subrange(0, i + 1).drop_last() =~= s.subrange(0, i));
        assert(digits_val(s.subrange(0, i + 1)) == digits_val(s.subrange(0, i)) * 10 + digit_val(
            s.subrange(0, i + 1).last(),
        ));
        lemma_digits_val_prefix_le(s, i + 1);
    } else {
        assert(s.subrange(0, i) =~= s);
    }
}

/// The number an optionally `+`-signed, non-empty digit string denotes.
pub open spec fn parse_uint(s: Seq<char>) -> Option<nat> {
    let body = if s.len() > 0 && s[0] == '+' {
        s.drop_first()
    } else {
        s
    };
    if body.len() > 0 && all_digits(body) {
        Some(digits_val(body))
    } else {
        None
    }
}

/// `parse_uint`, rejecting values that do not fit in a `u32`.
pub open spec fn spec_parse_u32(s: Seq<char>) -> Option<u32> {
    match parse_uint(s) {
        Some(v) => if v <= u32::MAX {
            Some(v as u32)
        } else {
            None
        },
        None => None,
    }
}

/// `parse_uint`, rejecting values that do not fit in a `u8`.
pub open spec fn spec_parse_u8(s: Seq<char>) -> Option<u8> {
    match parse_uint(s) {
        Some(v) => if v <= u8::MAX {
            Some(v as u8)
        } else {
            None
        },
        None => None,
    }
}

/// Parses an optionally `+`-signed decimal number, rejecting anything else
/// and any value over `u32::MAX`.
pub fn parse_u32(s: &str) -> (r: Option<u32>)
    ensures
        r == spec_parse_u32(s@),
{
    let n = s.unicode_len();
    let start: usize = if n > 0 && s.get_char(0) == '+' {
        1
    } else {
        0
    };
    if n == start {
        return None;
    }
    let ghost body = if s@[0] == '+' {
        s@.drop_first()
    } else {
        s@
    };
    proof {
        assert(body =~= s@.subrange(start as int, n as int));
    }
    let mut i: usize = start;
    while i < n
        invariant
            n == s@.len(),
            start <= i <= n,
            start <= 1,
            body == s@.subrange(start as int, n as int),
            body == (if s@.len() > 0 && s@[0] == '+' {
                s@.drop_first()
            } else {
                s@
            }),
            forall|j: int| start <= j < i ==> is_digit(#[trigger] s@[j]),
        decreases n - i,
    {
        let c = s.get_char(i);
        if (c as u32) < 48 || (c as u32) > 57 {
            proof {
                assert(body[i - start] == s@[i as int]);
                assert(!is_digit(body[i - start]));
                assert(!all_digits(body));
            }
            return None;
        }
        i = i + 1;
    }
    proof {
        assert forall|j: int| 0 <= j < body.len() implies is_digit(#[trigger] body[j]) by {
            assert(body[j] == s@[j + start]);
        }
    }
    let mut acc: u32 = 0;
    let mut k: usize = start;
    while k < n
        invariant
            n == s@.len(),
            start <= k <= n,
            body == s@.subrange(start as int, n as int),
            body == (if s@.len() > 0 && s@[0] == '+' {
                s@.drop_first()
            } else {
                s@
            }),
            all_digits(body),
            acc as nat == digits_val(body.subrange(0, k - start)),
        decreases n - k,
    {
        let c = s.get_char(k);
        proof {
            assert(body[k - start] == s@[k as int]);
        }
        let d = (c as u32) - 48;
        if acc > (u32::MAX - d) / 10 {
            proof {
                let p = body.subrange(0, k - start + 1);
                assert(p.drop_last() =~= body.subrange(0, k - start));
                assert(digits_val(p) == acc as nat * 10 + d as nat);
                assert(acc as nat * 10 + d as nat > u32::MAX) by {
                    assert(acc >= (u32::MAX - d) / 10 + 1);
                    assert(((u32::MAX - d) / 10 + 1) * 10 + d > u32::MAX) by (nonlinear_arith)
                        requires
                            d <= 9,
                    ;
                    assert(acc as nat * 10 >= ((u32::MAX - d) / 10 + 1) as nat * 10) by (
                    nonlinear_arith)
                        requires
                            acc >= (u32::MAX - d) / 10 + 1,
                    ;
                }
                lemma_digits_val_prefix_le(body, k - start + 1);
                assert(body.subrange(0, body.len() as int) =~= body);
                assert(digits_val(body) > u32::MAX);
                assert(parse_uint(s@) matches Some(v) && v > u32::MAX);
            }
            return None;
        }
        proof {
            let p = body.subrange(0, k - start + 1);
            assert(p.drop_last() =~= body.subrange(0, k - start));
            assert(digits_val(p) == acc as nat * 10 + d as nat);
        }
        acc = acc * 10 + d;
        k = k + 1;
    }
    proof {
        assert(body.subrange(0, body.len() as int) =~= body);
    }
    Some(acc)
}

/// Parses an optionally `+`-signed decimal number, rejecting anything else
/// and any value over `u8::MAX`.
pub fn parse_u8(s: &str) -> (r: Option<u8>)
    ensures
        r == spec_parse_u8(s@),
{
    match parse_u32(s) {
        Some(v) => if v <= 255 {
            Some(v as u8)
        } else {
            None
        },
        None => None,
    }
}

/// The position of the first occurrence of `c` at or after `i`, or the
/// length of the sequence if there is none.
pub open spec fn find_from(s: Seq<char>, c: char, i: int) -> int
    recommends
        0 <= i <= s.len(),
    decreases s.len() - i,
        when 0 <= i <= s.len()
{
    if i >= s.len() {
        s.len() as int
    } else if s[i] == c {
        i
    } else {
        find_from(s, c, i + 1)
    }
}

/// Finds the first occurrence of `c` at or after `from`.
pub fn find_char(s: &str, c: char, from: usize) -> (r: usize)
    requires
        from <= s@.len(),
    ensures
        r == find_from(s@, c, from as int),
        from <= r <= s@.len(),
        r < s@.len() ==> s@[r as int] == c,
{
    let n = s.unicode_len();
    let mut i: usize = from;
    while i < n
        invariant
            n == s@.len(),
            from <= i <= n,
            find_from(s@, c, from as int) == find_from(s@, c, i as int),
        decreases n - i,
    {
        if s.get_char(i) == c {
            return i;
        }
        i = i + 1;
    }
    n
}

/// The character classes that get trimmed from the ends of a string: the
/// whitespace around a parsed token, or the quote marks around an option
/// value.
#[derive(Debug, Clone, Copy, PartialEq, Eq, Structural)]
pub enum TrimClass {
    /// ASCII whitespace.
    Space,
    /// The double-quote mark.
    Quote,
}

/// Whether a character belongs to the given trim class.
pub open spec fn in_class(k: TrimClass, c: char) -> bool {
    match k {
        TrimClass::Space => c == ' ' || c == '\t' || c == '\n' || c == '\r',
        TrimClass::Quote => c == '"',
    }
}

fn class_test(k: TrimClass, c: char) -> (r: bool)
    ensures
        r == in_class(k, c),
{
    match k {
        TrimClass::Space => c == ' ' || c == '\t' || c == '\n' || c == '\r',
        TrimClass::Quote => c == '"',
    }
}

/// The first position at or after `i` whose character is not of class `k`.
pub open spec fn trim_start_idx(k: TrimClass, s: Seq<char>, i: int) -> int
    recommends
        0 <= i <= s.len(),
    decreases s.len() - i,
        when 0 <= i <= s.len()
{
    if i >= s.len() {
        i
    } else if in_class(k, s[i]) {
        trim_start_idx(k, s, i + 1)
    } else {
        i
    }
}

/// The position after the last character before `i` that is not of class `k`.
pub open spec fn trim_end_idx(k: TrimClass, s: Seq<char>, i: int) -> int
    recommends
        0 <= i <= s.len(),
    decreases i,
        when i >= 0
{
    if i <= 0 {
        0
    } else if in_class(k, s[i - 1]) {
        trim_end_idx(k, s, i - 1)
    } else {
        i
    }
}

/// The string with every leading and trailing character of class `k`
/// removed.
pub open spec fn trim_spec(k: TrimClass, s: Seq<char>) -> Seq<char> {
    let a = trim_start_idx(k, s, 0);
    let b = trim_end_idx(k, s, s.len() as int);
    if a <= b {
        s.subrange(a, b)
    } else {
        Seq::empty()
    }
}

/// Removes every leading and trailing character of class `k`.
pub fn trim(s: &str, k: TrimClass) -> (r: &str)
    ensures
        r@ == trim_spec(k, s@),
{
    let n = s.unicode_len();
    let mut a: usize = 0;
    while a < n && class_test(k, s.get_char(a))
        invariant
            n == s@.len(),
            0 <= a <= n,
            trim_start_idx(k, s@, 0) == trim_start_idx(k, s@, a as int),
        decreases n - a,
    {
        a = a + 1;
    }
    let mut b: usize = n;
    while b > 0 && class_test(k, s.get_char(b - 1))
        invariant
            n == s@.len(),
            0 <= b <= n,
            trim_end_idx(k, s@, n as int) == trim_end_idx(k, s@, b as int),
        decreases b,
    {
        b = b - 1;
    }
    if a <= b {
        s.substring_char(a, b)
    } else {
        let r = s.substring_char(a, a);
        proof {
            assert(r@ =~= trim_spec(k, s@));
        }
        r
    }
}

/// Ten to the given power.
pub open spec fn pow10(n: nat) -> nat
    decreases n,
{
    if n == 0 {
        1
    } else {
        10 * pow10((n - 1) as nat)
    }
}

/// The small powers of ten, spelled out.
pub proof fn lemma_pow10_small()
    ensures
        pow10(0) == 1,
        pow10(1) == 10,
        pow10(2) == 100,
        pow10(3) == 1000,
{
    reveal_with_fuel(pow10, 5);
}

/// A sequence of `n` digits denotes less than ten to the `n`.
pub proof fn lemma_digits_val_bound(s: Seq<char>)
    requires
        all_digits(s),
    ensures
        digits_val(s) < pow10(s.len()),
    decreases s.len(),
{
    if s.len() > 0 {
        assert(all_digits(s.drop_last())) by {
            assert(forall|i: int| 0 <= i < s.len() - 1 ==> s.drop_last()[i] == s[i]);
        }
        lemma_digits_val_bound(s.drop_last());
        assert(digit_val(s.last()) <= 9);
        assert(digits_val(s.drop_last()) * 10 <= (pow10(s.drop_last().len()) - 1) * 10) by (
        nonlinear_arith)
            requires
                digits_val(s.drop_last()) <= pow10(s.drop_last().len()) - 1,
        ;
    }
}

/// The fractional digits of a decimal string, scaled to `k` places and
/// rounded half up by the first dropped digit.
pub open spec fn frac_scaled(frac: Seq<char>, k: nat) -> nat {
    if frac.len() >= k {
        digits_val(frac.subrange(0, k as int)) + if frac.len() > k && digit_val(frac[k as int])
            >= 5 {
            1nat
        } else {
            0nat
        }
    } else {
        digits_val(frac) * pow10((k - frac.len()) as nat)
    }
}

/// The value a plain decimal string (digits, optionally with one point and
/// more digits) denotes, scaled by ten to the `k` and rounded half up.
/// Signs, exponents and anything beyond digits and one point denote
/// nothing.
pub open spec fn spec_scaled_value(s: Seq<char>, k: nat) -> Option<nat> {
    let dot = find_from(s, '.', 0);
    let int_part = s.subrange(0, dot);
    let frac = if dot < s.len() {
        s.subrange(dot + 1, s.len() as int)
    } else {
        Seq::empty()
    };
    if all_digits(int_part) && all_digits(frac) && (int_part.len() > 0 || frac.len() > 0) {
        Some(digits_val(int_part) * pow10(k) + frac_scaled(frac, k))
    } else {
        None
    }
}

/// The number a short, all-digit stretch of the string denotes.
fn digits_val_range(s: &str, from: usize, to: usize) -> (r: u32)
    requires
        from <= to <= s@.len(),
        to - from <= 3,
        forall|j: int| from <= j < to ==> is_digit(#[trigger] s@[j]),
    ensures
        r as nat == digits_val(s@.subrange(from as int, to as int)),
        r < 1000,
{
    let mut acc: u32 = 0;
    let mut i: usize = from;
    while i < to
        invariant
            from <= i <= to <= s@.len(),
            to - from <= 3,
            forall|j: int| from <= j < to ==> is_digit(#[trigger] s@[j]),
            acc as nat == digits_val(s@.subrange(from as int, i as int)),
            acc < 1000,
        decreases to - i,
    {
        let c = s.get_char(i);
        proof {
            let p = s@.subrange(from as int, i + 1);
            assert(p.drop_last() =~= s@.subrange(from as int, i as int));
            assert(all_digits(p)) by {
                assert(forall|j: int| 0 <= j < p.len() ==> p[j] == s@[j + from]);
            }
            lemma_digits_val_bound(p);
            lemma_pow10_small();
            assert(pow10(p.len()) <= 1000);
        }
        acc = acc * 10 + ((c as u32) - 48);
        i = i + 1;
    }
    acc
}

/// The integer-part and fractional-part views of a decimal string, pinned
/// down once so every loop can carry them.
pub open spec fn decimal_parts_ok(s: Seq<char>, dot: int, int_part: Seq<char>, frac: Seq<char>) -> bool {
    dot == find_from(s, '.', 0) && int_part == s.subrange(0, dot) && frac == (if dot < s.len() {
        s.subrange(dot + 1, s.len() as int)
    } else {
        Seq::<char>::empty()
    })
}

/// Parses a plain decimal string, scales it by ten to the `k` rounding half
/// up, and clamps the result at `cap`.
pub fn parse_scaled(s: &str, k: usize, cap: u32) -> (r: Option<u32>)
    requires
        1 <= k <= 3,
    ensures
        r == match spec_scaled_value(s@, k as nat) {
            Some(v) => Some(if v > cap {
                cap
            } else {
                v as u32
            }),
            None => None::<u32>,
        },
{
    let n = s.unicode_len();
    let dot = find_char(s, '.', 0);
    let ghost int_part = s@.subrange(0, dot as int);
    let ghost frac = if (dot as int) < s@.len() {
        s@.subrange(dot + 1, s@.len() as int)
    } else {
        Seq::<char>::empty()
    };
    // every character before the dot must be a digit
    let mut i: usize = 0;
    while i < dot
        invariant
            n == s@.len(),
            dot <= n,
            i <= dot,
            decimal_parts_ok(s@, dot as int, int_part, frac),
            forall|j: int| 0 <= j < i ==> is_digit(#[trigger] s@[j]),
        decreases dot - i,
    {
        let c = s.get_char(i);
        if (c as u32) < 48 || (c as u32) > 57 {
            proof {
                assert(int_part[i as int] == s@[i as int]);
                assert(!all_digits(int_part));
            }
            return None;
        }
        i = i + 1;
    }
    proof {
        assert forall|j: int| 0 <= j < int_part.len() implies is_digit(#[trigger] int_part[j]) by {
            assert(int_part[j] == s@[j]);
        }
    }
    // every character after the dot must be a digit
    let frac_start: usize = if dot < n {
        dot + 1
    } else {
        n
    };
    let mut t: usize = frac_start;
    while t < n
        invariant
            n == s@.len(),
            dot <= n,
            frac_start == (if dot < n {
                dot + 1
            } else {
                n as int
            }),
            frac_start <= t <= n,
            decimal_parts_ok(s@, dot as int, int_part, frac),
            forall|j: int| frac_start <= j < t ==> is_digit(#[trigger] s@[j]),
        decreases n - t,
    {
        let c = s.get_char(t);
        if (c as u32) < 48 || (c as u32) > 57 {
            proof {
                assert(frac[t - frac_start] == s@[t as int]);
                assert(!all_digits(frac));
            }
            return None;
        }
        t = t + 1;
    }
    proof {
        assert forall|j: int| 0 <= j < frac.len() implies is_digit(#[trigger] frac[j]) by {
            assert(frac[j] == s@[j + frac_start]);
        }
    }
    if dot == 0 && frac_start >= n {
        // neither an integer part nor a fractional part
        return None;
    }
    // the integer part
    let iv: Option<u32> = if dot > 0 {
        let int_str = s.substring_char(0, dot);
        parse_u32(int_str)
    } else {
        Some(0)
    };
    // the fractional part, scaled and rounded
    let frac_len = n - frac_start;
    let fv: u32 = if frac_len >= k {
        let base = digits_val_range(s, frac_start, frac_start + k);
        let round: u32 = if frac_len > k {
            let c = s.get_char(frac_start + k);
            proof {
                assert(frac[k as int] == s@[frac_start + k]);
            }
            if (c as u32) >= 53 {
                1
            } else {
                0
            }
        } else {
            0
        };
        proof {
            assert(s@.subrange(frac_start as int, frac_start + k) =~= frac.subrange(0, k as int));
        }
        base + round
    } else {
        let base = digits_val_range(s, frac_start, n);
        proof {
            assert(s@.subrange(frac_start as int, n as int) =~= frac);
            lemma_digits_val_bound(frac);
            lemma_pow10_small();
        }
        let scale: u32 = match k - frac_len {
            0 => 1,
            1 => 10,
            2 => 100,
            _ => 1000,
        };
        base * scale
    };
    match iv {
        Some(v) => {
            let scale64: u64 = match k {
                1 => 10,
                2 => 100,
                _ => 1000,
            };
            proof {
                lemma_pow10_small();
                assert((v as u64) * scale64 <= (u32::MAX as u64) * 1000) by (nonlinear_arith)
                    requires
                        v <= u32::MAX,
                        scale64 <= 1000,
                ;
            }
            let total: u64 = (v as u64) * scale64 + (fv as u64);
            if total > cap as u64 {
                Some(cap)
            } else {
                Some(total as u32)
            }
        },
        None => {
            // the integer part alone already exceeds any cap a caller can give
            proof {
                lemma_pow10_small();
                assert(digits_val(int_part) > u32::MAX);
                assert(digits_val(int_part) * pow10(k as nat) >= digits_val(int_part)) by (
                nonlinear_arith)
                    requires
                        pow10(k as nat) >= 1,
                ;
            }
            Some(cap)
        },
    }
}

} // verus!
