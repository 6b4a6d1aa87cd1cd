//! String helpers over `Seq<char>` views: trimming, case folding,
//! decimal formatting and parsing, lexicographic order.

use vstd::prelude::*;

verus! {

/// Unicode `White_Space` property, the set `char::is_whitespace` tests.
pub open spec fn is_ws(c: char) -> bool {
    let u = c as u32;
    ||| (0x09 <= u && u <= 0x0d)
    ||| u == 0x20
    ||| u == 0x85
    ||| u == 0xa0
    ||| u == 0x1680
    ||| (0x2000 <= u && u <= 0x200a)
    ||| u == 0x2028
    ||| u == 0x2029
    ||| u == 0x202f
    ||| u == 0x205f
    ||| u == 0x3000
}

pub fn char_is_ws(c: char) -> (r: bool)
    ensures r == is_ws(c),
{
    let u = c as u32;
    (0x09 <= u && u <= 0x0d) || u == 0x20 || u == 0x85 || u == 0xa0 || u == 0x1680
        || (0x2000 <= u && u <= 0x200a) || u == 0x2028 || u == 0x2029 || u == 0x202f
        || u == 0x205f || u == 0x3000
}

/// Characters of a string slice, in order.
pub fn chars_of(s: &str) -> (r: Vec<char>)
    ensures r@ == s@,
{
    let n = s.unicode_len();
    let mut v: Vec<char> = Vec::new();
    let mut i: usize = 0;
    while i < n
        invariant
            n == s@.len(),
            i <= n,
            v@ == s@.subrange(0, i as int),
        decreases n - i,
    {
        let c = s.get_char(i);
        v.push(c);
        i = i + 1;
        assert(v@ =~= s@.subrange(0, i as int));
    }
    assert(v@ =~= s@);
    v
}


/// Appends one character (`String::push`).
#[verifier::external_body]
pub(crate) fn push_char(s: &mut String, c: char)
    ensures
        final(s)@ == old(s)@.push(c),
{
    s.push(c);
}

/// Removes the last character (`String::pop`).
#[verifier::external_body]
pub(crate) fn pop_char(s: &mut String) -> (r: Option<char>)
    ensures
        old(s)@.len() == 0 ==> r is None && final(s)@ == old(s)@,
        old(s)@.len() > 0 ==> r == Some(old(s)@.last()) && final(s)@ == old(s)@.drop_last(),
{
    s.pop()
}

/// The string whose characters are `cs`.
pub fn string_from_chars(cs: &[char]) -> (r: String)
    ensures
        r@ == cs@,
{
    let mut out = String::new();
    let mut i: usize = 0;
    while i < cs.len()
        invariant
            i <= cs@.len(),
            out@ == cs@.subrange(0, i as int),
        decreases cs.len() - i,
    {
        push_char(&mut out, cs[i]);
        i = i + 1;
        assert(out@ =~= cs@.subrange(0, i as int));
    }
    assert(out@ =~= cs@);
    out
}

/// Drops leading whitespace.
pub open spec fn trim_start(s: Seq<char>) -> Seq<char>
    decreases s.len(),
{
    if s.len() > 0 && is_ws(s[0]) {
        trim_start(s.drop_first())
    } else {
        s
    }
}

/// Drops trailing whitespace.
pub open spec fn trim_end(s: Seq<char>) -> Seq<char>
    decreases s.len(),
{
    if s.len() > 0 && is_ws(s.last()) {
        trim_end(s.drop_last())
    } else {
        s
    }
}

/// What `str::trim` gives back.
pub open spec fn trim(s: Seq<char>) -> Seq<char> {
    trim_end(trim_start(s))
}

proof fn lemma_trim_start_step(s: Seq<char>, i: int)
    requires
        0 <= i < s.len(),
        is_ws(s[i]),
    ensures
        trim_start(s.subrange(i, s.len() as int)) == trim_start(s.subrange(i + 1, s.len() as int)),
{
    assert(s.subrange(i, s.len() as int).drop_first() =~= s.subrange(i + 1, s.len() as int));
}

proof fn lemma_trim_end_step(s: Seq<char>, j: int)
    requires
        0 < j <= s.len(),
        is_ws(s[j - 1]),
    ensures
        trim_end(s.subrange(0, j)) == trim_end(s.subrange(0, j - 1)),
{
    assert(s.subrange(0, j).drop_last() =~= s.subrange(0, j - 1));
}

/// `str::trim` on a sequence of characters.
pub fn trim_chars(cs: &[char]) -> (r: Vec<char>)
    ensures
        r@ == trim(cs@),
{
    let n = cs.len();
    let mut i: usize = 0;
    assert(cs@.subrange(0, n as int) =~= cs@);
    while i < n && char_is_ws(cs[i])
        invariant
            i <= n,
            n == cs@.len(),
            trim_start(cs@.subrange(i as int, n as int)) == trim_start(cs@),
        decreases n - i,
    {
        proof {
            lemma_trim_start_step(cs@, i as int);
        }
        i = i + 1;
    }
    let ghost rest = cs@.subrange(i as int, n as int);
    assert(trim_start(rest) == rest);
    let mut j: usize = n;
    assert(rest.subrange(0, (j - i) as int) =~= rest);
    while j > i && char_is_ws(cs[j - 1])
        invariant
            i <= j <= n,
            n == cs@.len(),
            rest == cs@.subrange(i as int, n as int),
            trim_end(rest.subrange(0, (j - i) as int)) == trim_end(rest),
        decreases j,
    {
        proof {
            lemma_trim_end_step(rest, (j - i) as int);
            assert(rest.subrange(0, (j - i) as int - 1) =~= rest.subrange(0, (j - 1 - i) as int));
        }
        j = j - 1;
    }
    let ghost kept = rest.subrange(0, (j - i) as int);
    assert(trim_end(kept) == kept);
    let mut out: Vec<char> = Vec::new();
    let mut k: usize = i;
    while k < j
        invariant
            i <= k <= j <= n,
            n == cs@.len(),
            out@ == cs@.subrange(i as int, k as int),
        decreases j - k,
    {
        out.push(cs[k]);
        k = k + 1;
        assert(out@ =~= cs@.subrange(i as int, k as int));
    }
    assert(out@ =~= kept);
    out
}

/// `str::trim` on the characters of `s`.
pub fn trim_str(s: &str) -> (r: String)
    ensures
        r@ == trim(s@),
{
    let cs = chars_of(s);
    let t = trim_chars(cs.as_slice());
    string_from_chars(t.as_slice())
}

/// Whether every character of `s` is whitespace (so `trim` leaves nothing).
/// Among ASCII characters the whitespace is the space and tab, line feed,
/// vertical tab, form feed and carriage return.
pub proof fn law_ascii_whitespace(c: char)
    requires
        (c as u32) < 128,
    ensures
        is_ws(c) <==> (c == ' ' || c == '\t' || c == '\n' || c == '\x0B' || c == '\x0C' || c == '\r'),
{
}

proof fn lemma_trim_start_slice(s: Seq<char>) -> (i: int)
    ensures
        0 <= i <= s.len(),
        trim_start(s) == s.subrange(i, s.len() as int),
        forall|k: int| 0 <= k < i ==> is_ws(#[trigger] s[k]),
        trim_start(s).len() > 0 ==> !is_ws(trim_start(s)[0]),
    decreases s.len(),
{
    if s.len() > 0 && is_ws(s[0]) {
        let j = lemma_trim_start_slice(s.drop_first());
        assert(s.drop_first().subrange(j, s.len() - 1) =~= s.subrange(j + 1, s.len() as int));
        assert forall|k: int| 0 <= k < j + 1 implies is_ws(#[trigger] s[k]) by {
            if k > 0 {
                assert(s[k] == s.drop_first()[k - 1]);
            }
        }
        j + 1
    } else {
        assert(s.subrange(0, s.len() as int) =~= s);
        0
    }
}

proof fn lemma_trim_end_slice(s: Seq<char>) -> (j: int)
    ensures
        0 <= j <= s.len(),
        trim_end(s) == s.subrange(0, j),
        forall|k: int| j <= k < s.len() ==> is_ws(#[trigger] s[k]),
        trim_end(s).len() > 0 ==> !is_ws(trim_end(s).last()),
    decreases s.len(),
{
    if s.len() > 0 && is_ws(s.last()) {
        let j = lemma_trim_end_slice(s.drop_last());
        assert(s.drop_last().subrange(0, j) =~= s.subrange(0, j));
        assert forall|k: int| j <= k < s.len() implies is_ws(#[trigger] s[k]) by {
            if k < s.len() - 1 {
                assert(s[k] == s.drop_last()[k]);
            }
        }
        j
    } else {
        assert(s.subrange(0, s.len() as int) =~= s);
        s.len() as int
    }
}

/// Trimming cuts whitespace off both ends and nothing else: the result is
/// a slice `s[i..j]` of the input, everything outside it is whitespace, and
/// it neither starts nor ends with whitespace.
pub proof fn law_trim_cuts_only_outer_whitespace(s: Seq<char>)
    ensures
        exists|i: int, j: int| 0 <= i <= j <= s.len() && trim(s) == s.subrange(i, j)
            && (forall|k: int| 0 <= k < i ==> is_ws(#[trigger] s[k]))
            && (forall|k: int| j <= k < s.len() ==> is_ws(#[trigger] s[k])),
        trim(s).len() > 0 ==> !is_ws(trim(s)[0]) && !is_ws(trim(s).last()),
{
    let i = lemma_trim_start_slice(s);
    let t = trim_start(s);
    let j = lemma_trim_end_slice(t);
    assert(trim(s) == t.subrange(0, j));
    assert(t.subrange(0, j) =~= s.subrange(i, i + j));
    assert forall|k: int| i + j <= k < s.len() implies is_ws(#[trigger] s[k]) by {
        assert(s[k] == t[k - i]);
    }
    if trim(s).len() > 0 {
        assert(trim(s)[0] == t[0]);
    }
    assert(0 <= i <= i + j <= s.len() && trim(s) == s.subrange(i, i + j));
}

pub open spec fn blank(s: Seq<char>) -> bool {
    trim(s).len() == 0
}


// ---------- case folding ----------

/// `char::to_ascii_lowercase`.
pub open spec fn ascii_lower_char(c: char) -> char {
    if 'A' <= c && c <= 'Z' {
        ((c as u32) + 32) as char
    } else {
        c
    }
}

/// `str::to_ascii_lowercase`.
pub open spec fn ascii_lower(s: Seq<char>) -> Seq<char> {
    s.map_values(|c: char| ascii_lower_char(c))
}

pub fn char_ascii_lower(c: char) -> (r: char)
    ensures
        r == ascii_lower_char(c),
{
    if 'A' <= c && c <= 'Z' {
        let u = (c as u32) + 32;
        assert(u < 128);
        let b = u as u8;
        let r = b as char;
        assert(r == ((c as u32) + 32) as char);
        r
    } else {
        c
    }
}

/// `str::to_ascii_lowercase` on the characters of `s`.
pub fn ascii_lowercase(s: &str) -> (r: String)
    ensures
        r@ == ascii_lower(s@),
{
    let cs = chars_of(s);
    let mut out = String::new();
    let mut i: usize = 0;
    while i < cs.len()
        invariant
            i <= cs@.len(),
            cs@ == s@,
            out@ == ascii_lower(s@.subrange(0, i as int)),
        decreases cs.len() - i,
    {
        let c = char_ascii_lower(cs[i]);
        push_char(&mut out, c);
        i = i + 1;
        assert(ascii_lower(s@.subrange(0, i as int)) =~= ascii_lower(
            s@.subrange(0, i - 1 as int),
        ).push(c));
    }
    assert(s@.subrange(0, i as int) =~= s@);
    out
}

/// What `str::to_lowercase` gives back: Unicode lower-case mapping, which
/// may change the number of characters.
pub uninterp spec fn unicode_lower(s: Seq<char>) -> Seq<char>;

/// `str::to_lowercase`; its result is named `unicode_lower` of the input.
#[verifier::external_body]
pub(crate) fn lowercase(s: &str) -> (r: String)
    ensures
        r@ == unicode_lower(s@),
{
    s.to_lowercase()
}

// ---------- decimal formatting ----------

pub open spec fn digit_char(d: int) -> char {
    if d == 0 { '0' }
    else if d == 1 { '1' }
    else if d == 2 { '2' }
    else if d == 3 { '3' }
    else if d == 4 { '4' }
    else if d == 5 { '5' }
    else if d == 6 { '6' }
    else if d == 7 { '7' }
    else if d == 8 { '8' }
    else { '9' }
}

/// Decimal digits of `n` as `Display` writes them.
pub open spec fn dec(n: nat) -> Seq<char>
    decreases n,
{
    if n < 10 {
        seq![digit_char(n as int)]
    } else {
        dec(n / 10).push(digit_char((n % 10) as int))
    }
}

/// `Display` of a signed integer.
pub open spec fn int_dec(i: int) -> Seq<char> {
    if i < 0 {
        seq!['-'] + dec((-i) as nat)
    } else {
        dec(i as nat)
    }
}

fn digit(d: u128) -> (c: char)
    requires
        d < 10,
    ensures
        c == digit_char(d as int),
{
    if d == 0 { '0' }
    else if d == 1 { '1' }
    else if d == 2 { '2' }
    else if d == 3 { '3' }
    else if d == 4 { '4' }
    else if d == 5 { '5' }
    else if d == 6 { '6' }
    else if d == 7 { '7' }
    else if d == 8 { '8' }
    else { '9' }
}

/// Appends the decimal digits of `n`.
pub fn push_dec(out: &mut String, n: u128)
    ensures
        final(out)@ == old(out)@ + dec(n as nat),
    decreases n,
{
    if n >= 10 {
        push_dec(out, n / 10);
    }
    let c = digit(n % 10);
    push_char(out, c);
    if n >= 10 {
        assert(final(out)@ =~= old(out)@ + dec(n as nat));
    } else {
        assert(final(out)@ =~= old(out)@ + dec(n as nat));
    }
}

/// `u64::to_string`.
pub fn fmt_u64(n: u64) -> (r: String)
    ensures
        r@ == dec(n as nat),
{
    let mut s = String::new();
    push_dec(&mut s, n as u128);
    assert(s@ =~= dec(n as nat));
    s
}

/// Decimal digits of a `u128`.
pub fn fmt_u128(n: u128) -> (r: String)
    ensures
        r@ == dec(n as nat),
{
    let mut s = String::new();
    push_dec(&mut s, n);
    assert(s@ =~= dec(n as nat));
    s
}

/// `usize::to_string`.
pub fn fmt_usize(n: usize) -> (r: String)
    ensures
        r@ == dec(n as nat),
{
    fmt_u64(n as u64)
}

/// `i64::to_string`.
pub fn fmt_i64(n: i64) -> (r: String)
    ensures
        r@ == int_dec(n as int),
{
    let mut s = String::new();
    if n < 0 {
        push_char(&mut s, '-');
        let m: u128 = (-(n as i128)) as u128;
        push_dec(&mut s, m);
        assert(s@ =~= int_dec(n as int));
    } else {
        push_dec(&mut s, n as u128);
        assert(s@ =~= int_dec(n as int));
    }
    s
}

/// `i32::to_string`.
pub fn fmt_i32(n: i32) -> (r: String)
    ensures
        r@ == int_dec(n as int),
{
    fmt_i64(n as i64)
}

// ---------- decimal parsing ----------

pub open spec fn is_digit(c: char) -> bool {
    '0' <= c && c <= '9'
}

pub open spec fn digit_val(c: char) -> int {
    (c as u32) - ('0' as u32)
}

pub open spec fn all_digits(s: Seq<char>) -> bool {
    forall|i: int| 0 <= i < s.len() ==> is_digit(#[trigger] s[i])
}

/// The number the digit string `s` spells.
pub open spec fn digits_value(s: Seq<char>) -> nat
    decreases s.len(),
{
    if s.len() == 0 {
        0
    } else {
        (digits_value(s.drop_last()) * 10 + digit_val(s.last())) as nat
    }
}

/// The integer `FromStr` reads from `s` before the range check: an optional
/// `+` (or `-` when `signed`), then one or more decimal digits.
pub open spec fn parse_int(s: Seq<char>, signed: bool) -> Option<int> {
    if s.len() == 0 {
        None
    } else if (s[0] == '+' || s[0] == '-') && s.len() == 1 {
        None
    } else if s[0] == '+' {
        if all_digits(s.drop_first()) {
            Some(digits_value(s.drop_first()) as int)
        } else {
            None
        }
    } else if s[0] == '-' && signed {
        if all_digits(s.drop_first()) {
            Some(-(digits_value(s.drop_first()) as int))
        } else {
            None
        }
    } else if all_digits(s) {
        Some(digits_value(s) as int)
    } else {
        None
    }
}

/// `FromStr` for an integer type whose values are `lo..=hi`.
pub open spec fn parse_in_range(s: Seq<char>, signed: bool, lo: int, hi: int) -> Option<int> {
    match parse_int(s, signed) {
        Some(v) => if lo <= v && v <= hi { Some(v) } else { None },
        None => None,
    }
}

proof fn lemma_digits_value_mono(s: Seq<char>, k: int)
    requires
        0 <= k <= s.len(),
        all_digits(s),
    ensures
        digits_value(s.subrange(0, k)) <= digits_value(s),
    decreases s.len() - k,
{
    if k < s.len() {
        lemma_digits_value_mono(s, k + 1);
        let t = s.subrange(0, k + 1);
        assert(t.drop_last() =~= s.subrange(0, k));
        assert(is_digit(s[k]));
    } else {
        assert(s.subrange(0, k) =~= s);
    }
}

/// Decimal text reads back as the number it was written from: `dec(n)` is
/// one or more digits, without a leading zero unless it is `0`, whose value
/// is `n`.
pub proof fn law_decimal_round_trip(n: nat)
    ensures
        dec(n).len() >= 1,
        all_digits(dec(n)),
        digits_value(dec(n)) == n,
        dec(n).len() > 1 ==> dec(n)[0] != '0',
        n < 10 ==> dec(n).len() == 1,
        n >= 10 ==> dec(n).len() >= 2,
    decreases n,
{
    if n >= 10 {
        law_decimal_round_trip(n / 10);
        let d = dec(n / 10);
        let c = digit_char((n % 10) as int);
        assert(dec(n) == d.push(c));
        assert(dec(n).drop_last() =~= d);
        assert(is_digit(c) && digit_val(c) == n % 10);
        assert(digits_value(dec(n)) == digits_value(d) * 10 + digit_val(c));
        assert((n / 10) * 10 + n % 10 == n);
        assert forall|i: int| 0 <= i < dec(n).len() implies is_digit(#[trigger] dec(n)[i]) by {
            if i < d.len() {
                assert(dec(n)[i] == d[i]);
            }
        }
        assert(dec(n)[0] == d[0]);
        if d.len() == 1 {
            assert(d[0] == digit_char((n / 10) as int));
        }
    } else {
        assert(dec(n).drop_last() =~= Seq::<char>::empty());
        assert(digit_val(digit_char(n as int)) == n);
        assert(digits_value(dec(n)) == digits_value(Seq::<char>::empty()) * 10 + digit_val(digit_char(n as int)));
    }
}

/// An integer's decimal text parses back to it; a non-negative one also
/// parses where no sign is allowed.
pub proof fn law_parse_reads_back_decimal(i: int)
    ensures
        parse_int(int_dec(i), true) == Some(i),
        i >= 0 ==> parse_int(int_dec(i), false) == Some(i),
{
    if i < 0 {
        let n = (-i) as nat;
        law_decimal_round_trip(n);
        let s = int_dec(i);
        assert(s.drop_first() =~= dec(n));
        assert(s[0] == '-');
    } else {
        law_decimal_round_trip(i as nat);
        let s = dec(i as nat);
        assert(is_digit(s[0]));
    }
}

/// The string order compares by the first position where two strings
/// differ, by code point there.
pub proof fn law_lex_first_difference(a: Seq<char>, b: Seq<char>, k: int)
    requires
        0 <= k < a.len(),
        k < b.len(),
        a.subrange(0, k) == b.subrange(0, k),
        a[k] != b[k],
    ensures
        lex_lt(a, b) <==> (a[k] as u32) < (b[k] as u32),
    decreases k,
{
    if k > 0 {
        assert(a[0] == a.subrange(0, k)[0]);
        assert(b[0] == b.subrange(0, k)[0]);
        assert(a.drop_first().subrange(0, k - 1) =~= a.subrange(0, k).drop_first());
        assert(b.drop_first().subrange(0, k - 1) =~= b.subrange(0, k).drop_first());
        law_lex_first_difference(a.drop_first(), b.drop_first(), k - 1);
    }
}

/// A proper prefix comes before the longer string.
pub proof fn law_lex_prefix_first(a: Seq<char>, b: Seq<char>)
    requires
        a.len() < b.len(),
        b.subrange(0, a.len() as int) == a,
    ensures
        lex_lt(a, b),
        !lex_lt(b, a),
    decreases a.len(),
{
    if a.len() > 0 {
        assert(b[0] == b.subrange(0, a.len() as int)[0]);
        assert(b.drop_first().subrange(0, a.len() - 1) =~= a.drop_first());
        law_lex_prefix_first(a.drop_first(), b.drop_first());
    }
}

/// ASCII lower-casing keeps the length, turns `A`..`Z` into `a`..`z` and
/// leaves every other character as it is; doing it twice changes nothing.
pub proof fn law_ascii_lower(s: Seq<char>)
    ensures
        ascii_lower(s).len() == s.len(),
        forall|k: int| 0 <= k < s.len() && 'A' <= s[k] <= 'Z'
            ==> (#[trigger] ascii_lower(s)[k]) as int == 'a' as int + (s[k] as int - 'A' as int),
        forall|k: int| 0 <= k < s.len() && !('A' <= s[k] <= 'Z') ==> #[trigger] ascii_lower(s)[k] == s[k],
        ascii_lower(ascii_lower(s)) == ascii_lower(s),
{
    assert forall|k: int| 0 <= k < s.len() implies !('A' <= #[trigger] ascii_lower(s)[k] <= 'Z') by {}
    assert(ascii_lower(ascii_lower(s)) =~= ascii_lower(s));
}

/// Value of the digits `cs[start..]` when it is at most `limit`.
fn digits_up_to(cs: &Vec<char>, start: usize, limit: u64) -> (r: Option<u64>)
    requires
        start <= cs@.len(),
    ensures
        match r {
            Some(v) => all_digits(cs@.subrange(start as int, cs@.len() as int))
                && v == digits_value(cs@.subrange(start as int, cs@.len() as int))
                && v <= limit,
            None => !all_digits(cs@.subrange(start as int, cs@.len() as int))
                || digits_value(cs@.subrange(start as int, cs@.len() as int)) > limit,
        },
{
    let ghost full = cs@.subrange(start as int, cs@.len() as int);
    let mut acc: u64 = 0;
    let mut i: usize = start;
    while i < cs.len()
        invariant
            start <= i <= cs@.len(),
            full == cs@.subrange(start as int, cs@.len() as int),
            all_digits(cs@.subrange(start as int, i as int)),
            acc == digits_value(cs@.subrange(start as int, i as int)),
            acc <= limit,
        decreases cs.len() - i,
    {
        let c = cs[i];
        if !('0' <= c && c <= '9') {
            assert(!is_digit(full[(i - start) as int]));
            return None;
        }
        let d = (c as u32 - '0' as u32) as u64;
        let ghost pre = cs@.subrange(start as int, i as int);
        let ghost nxt = cs@.subrange(start as int, i + 1 as int);
        assert(nxt.drop_last() =~= pre);
        assert(nxt.last() == c);
        if d > limit || acc > (limit - d) / 10 {
            assert(acc * 10 + d > limit) by (nonlinear_arith)
                requires d > limit || acc > (limit - d) / 10, acc >= 0;
            proof {
                if all_digits(full) {
                    assert(nxt =~= full.subrange(0, (i + 1 - start) as int));
                    lemma_digits_value_mono(full, (i + 1 - start) as int);
                }
            }
            return None;
        }
        assert(acc * 10 + d <= limit) by (nonlinear_arith)
            requires acc <= (limit - d) / 10, d <= limit;
        acc = acc * 10 + d;
        i = i + 1;
        assert(all_digits(nxt));
    }
    Some(acc)
}


/// Magnitude and sign reading shared by the integer parsers: the value of
/// `s` when `parse_int` accepts it and it lies in `-neg_limit..=pos_limit`.
fn parse_bounded(s: &str, signed: bool, pos_limit: u64, neg_limit: u64) -> (r: Option<(bool, u64)>)
    ensures
        match r {
            Some((neg, m)) => parse_int(s@, signed) == Some(if neg { -(m as int) } else { m as int })
                && (if neg { m <= neg_limit } else { m <= pos_limit }),
            None => match parse_int(s@, signed) {
                Some(v) => v > pos_limit || v < -(neg_limit as int),
                None => true,
            },
        },
{
    let cs = chars_of(s);
    let n = cs.len();
    if n == 0 {
        return None;
    }
    let c0 = cs[0];
    if (c0 == '+' || c0 == '-') && n == 1 {
        return None;
    }
    assert(cs@.subrange(1, n as int) =~= s@.drop_first());
    assert(cs@.subrange(0, n as int) =~= s@);
    if c0 == '+' {
        match digits_up_to(&cs, 1, pos_limit) {
            Some(m) => Some((false, m)),
            None => None,
        }
    } else if c0 == '-' && signed {
        match digits_up_to(&cs, 1, neg_limit) {
            Some(m) => Some((true, m)),
            None => None,
        }
    } else {
        match digits_up_to(&cs, 0, pos_limit) {
            Some(m) => Some((false, m)),
            None => None,
        }
    }
}

/// `u64::from_str`.
pub fn parse_u64(s: &str) -> (r: Option<u64>)
    ensures
        r matches Some(v) ==> parse_in_range(s@, false, 0, u64::MAX as int) == Some(v as int),
        r is None ==> parse_in_range(s@, false, 0, u64::MAX as int) is None,
{
    match parse_bounded(s, false, u64::MAX, 0) {
        Some((_, m)) => Some(m),
        None => None,
    }
}

/// `usize::from_str`.
pub fn parse_usize(s: &str) -> (r: Option<usize>)
    ensures
        r matches Some(v) ==> parse_in_range(s@, false, 0, usize::MAX as int) == Some(v as int),
        r is None ==> parse_in_range(s@, false, 0, usize::MAX as int) is None,
{
    match parse_bounded(s, false, usize::MAX as u64, 0) {
        Some((_, m)) => Some(m as usize),
        None => None,
    }
}

/// `i64::from_str`.
pub fn parse_i64(s: &str) -> (r: Option<i64>)
    ensures
        r matches Some(v) ==> parse_in_range(s@, true, i64::MIN as int, i64::MAX as int) == Some(v as int),
        r is None ==> parse_in_range(s@, true, i64::MIN as int, i64::MAX as int) is None,
{
    match parse_bounded(s, true, 0x7fff_ffff_ffff_ffff, 0x8000_0000_0000_0000) {
        Some((neg, m)) => {
            if neg {
                Some((-(m as i128)) as i64)
            } else {
                Some(m as i64)
            }
        },
        None => None,
    }
}

/// `i32::from_str`.
pub fn parse_i32(s: &str) -> (r: Option<i32>)
    ensures
        r matches Some(v) ==> parse_in_range(s@, true, i32::MIN as int, i32::MAX as int) == Some(v as int),
        r is None ==> parse_in_range(s@, true, i32::MIN as int, i32::MAX as int) is None,
{
    match parse_bounded(s, true, 0x7fff_ffff, 0x8000_0000) {
        Some((neg, m)) => {
            if neg {
                Some((-(m as i64)) as i32)
            } else {
                Some(m as i32)
            }
        },
        None => None,
    }
}

// ---------- comparison ----------

/// Byte order of UTF-8 strings, which is the order of their code points.
pub open spec fn lex_lt(a: Seq<char>, b: Seq<char>) -> bool
    decreases a.len(),
{
    if a.len() == 0 {
        b.len() > 0
    } else if b.len() == 0 {
        false
    } else if a[0] != b[0] {
        (a[0] as u32) < (b[0] as u32)
    } else {
        lex_lt(a.drop_first(), b.drop_first())
    }
}

/// Distinct characters have distinct code points.
pub proof fn lemma_char_code_injective(x: char, y: char)
    requires
        x != y,
    ensures
        (x as u32) != (y as u32),
{
    vstd::utf8::char_u32_cast(x, x as u32);
    vstd::utf8::char_u32_cast(y, y as u32);
}

pub proof fn lemma_lex_irrefl(a: Seq<char>)
    ensures
        !lex_lt(a, a),
    decreases a.len(),
{
    if a.len() > 0 {
        lemma_lex_irrefl(a.drop_first());
    }
}

pub proof fn lemma_lex_total(a: Seq<char>, b: Seq<char>)
    ensures
        lex_lt(a, b) || lex_lt(b, a) || a == b,
    decreases a.len(),
{
    if a.len() == 0 && b.len() == 0 {
        assert(a =~= b);
    } else if a.len() > 0 && b.len() > 0 && a[0] == b[0] {
        lemma_lex_total(a.drop_first(), b.drop_first());
        if a.drop_first() == b.drop_first() {
            assert(a =~= seq![a[0]] + a.drop_first());
            assert(b =~= seq![b[0]] + b.drop_first());
        }
    } else if a.len() > 0 && b.len() > 0 {
        lemma_char_code_injective(a[0], b[0]);
    }
}

pub proof fn lemma_lex_asym(a: Seq<char>, b: Seq<char>)
    ensures
        !(lex_lt(a, b) && lex_lt(b, a)),
    decreases a.len(),
{
    if a.len() > 0 && b.len() > 0 && a[0] == b[0] {
        lemma_lex_asym(a.drop_first(), b.drop_first());
    }
}

pub proof fn lemma_lex_trans(a: Seq<char>, b: Seq<char>, c: Seq<char>)
    requires
        lex_lt(a, b),
        lex_lt(b, c),
    ensures
        lex_lt(a, c),
    decreases a.len(),
{
    if a.len() > 0 && b.len() > 0 && c.len() > 0 && a[0] == b[0] && b[0] == c[0] {
        lemma_lex_trans(a.drop_first(), b.drop_first(), c.drop_first());
    }
}

/// A string before `b` is before any `c`, or `c` is before `b`.
pub proof fn lemma_lex_split(a: Seq<char>, b: Seq<char>, c: Seq<char>)
    requires
        lex_lt(a, b),
    ensures
        lex_lt(a, c) || lex_lt(c, b),
{
    lemma_lex_total(a, c);
    if lex_lt(c, a) {
        lemma_lex_trans(c, a, b);
    }
}

/// Whether `a` sorts strictly before `b` (`a < b` for `str`).
pub fn str_lt(a: &str, b: &str) -> (r: bool)
    ensures
        r == lex_lt(a@, b@),
{
    let ca = chars_of(a);
    let cb = chars_of(b);
    let mut i: usize = 0;
    assert(a@.subrange(0, a@.len() as int) =~= a@);
    assert(b@.subrange(0, b@.len() as int) =~= b@);
    while i < ca.len() && i < cb.len() && ca[i] == cb[i]
        invariant
            i <= ca@.len(),
            i <= cb@.len(),
            ca@ == a@,
            cb@ == b@,
            lex_lt(a@, b@) == lex_lt(a@.subrange(i as int, a@.len() as int), b@.subrange(i as int, b@.len() as int)),
        decreases ca.len() - i,
    {
        let ghost sa = a@.subrange(i as int, a@.len() as int);
        let ghost sb = b@.subrange(i as int, b@.len() as int);
        assert(sa.drop_first() =~= a@.subrange(i + 1 as int, a@.len() as int));
        assert(sb.drop_first() =~= b@.subrange(i + 1 as int, b@.len() as int));
        i = i + 1;
    }
    if i == ca.len() {
        i < cb.len()
    } else if i == cb.len() {
        false
    } else {
        (ca[i] as u32) < (cb[i] as u32)
    }
}

/// Whether two strings have the same characters.
pub fn str_eq(a: &str, b: &str) -> (r: bool)
    ensures
        r == (a@ == b@),
{
    let ca = chars_of(a);
    let cb = chars_of(b);
    if ca.len() != cb.len() {
        return false;
    }
    let mut i: usize = 0;
    while i < ca.len()
        invariant
            i <= ca@.len(),
            ca@.len() == cb@.len(),
            ca@ == a@,
            cb@ == b@,
            forall|k: int| 0 <= k < i ==> ca@[k] == cb@[k],
        decreases ca.len() - i,
    {
        if ca[i] != cb[i] {
            return false;
        }
        i = i + 1;
    }
    assert(ca@ =~= cb@);
    true
}

/// `str::starts_with` for a string pattern.
pub fn starts_with(s: &str, prefix: &str) -> (r: bool)
    ensures
        r == (prefix@.len() <= s@.len() && s@.subrange(0, prefix@.len() as int) == prefix@),
{
    let cs = chars_of(s);
    let cp = chars_of(prefix);
    if cp.len() > cs.len() {
        return false;
    }
    let mut i: usize = 0;
    while i < cp.len()
        invariant
            i <= cp@.len() <= cs@.len(),
            cs@ == s@,
            cp@ == prefix@,
            forall|k: int| 0 <= k < i ==> cs@[k] == cp@[k],
        decreases cp.len() - i,
    {
        if cs[i] != cp[i] {
            assert(s@.subrange(0, prefix@.len() as int)[i as int] != prefix@[i as int]);
            return false;
        }
        i = i + 1;
    }
    assert(s@.subrange(0, prefix@.len() as int) =~= prefix@);
    true
}

/// `str::strip_prefix` for a string pattern.
pub fn strip_prefix(s: &str, prefix: &str) -> (r: Option<String>)
    ensures
        match r {
            Some(rest) => prefix@.len() <= s@.len()
                && s@.subrange(0, prefix@.len() as int) == prefix@
                && rest@ == s@.subrange(prefix@.len() as int, s@.len() as int),
            None => !(prefix@.len() <= s@.len() && s@.subrange(0, prefix@.len() as int) == prefix@),
        },
{
    if starts_with(s, prefix) {
        let n = s.unicode_len();
        let p = prefix.unicode_len();
        let rest = s.substring_char(p, n);
        Some(rest.to_string())
    } else {
        None
    }
}

/// Whether `needle` occurs in `hay` starting at index `i`.
pub open spec fn occurs_at(hay: Seq<char>, needle: Seq<char>, i: int) -> bool {
    0 <= i && i + needle.len() <= hay.len() && hay.subrange(i, i + needle.len()) == needle
}

/// `str::contains` for a string pattern.
pub open spec fn contains_seq(hay: Seq<char>, needle: Seq<char>) -> bool {
    exists|i: int| occurs_at(hay, needle, i)
}

/// Index of the first occurrence of `needle` in `hay`.
pub fn find(hay: &[char], needle: &[char]) -> (r: Option<usize>)
    ensures
        match r {
            Some(i) => occurs_at(hay@, needle@, i as int)
                && forall|j: int| 0 <= j < i ==> !occurs_at(hay@, needle@, j),
            None => !contains_seq(hay@, needle@),
        },
{
    let n = hay.len();
    let m = needle.len();
    if m > n {
        assert forall|j: int| !occurs_at(hay@, needle@, j) by {}
        return None;
    }
    let mut i: usize = 0;
    while i <= n - m
        invariant
            m <= n,
            n == hay@.len(),
            m == needle@.len(),
            forall|j: int| 0 <= j < i ==> !occurs_at(hay@, needle@, j),
        decreases n - m + 1 - i,
    {
        let mut k: usize = 0;
        let mut ok = true;
        while k < m
            invariant
                k <= m,
                i + m <= n,
                n == hay@.len(),
                m == needle@.len(),
                ok == (forall|t: int| 0 <= t < k ==> hay@[i + t] == needle@[t]),
            decreases m - k,
        {
            if hay[i + k] != needle[k] {
                ok = false;
            }
            k = k + 1;
        }
        if ok {
            assert(hay@.subrange(i as int, i + m) =~= needle@);
            return Some(i);
        } else {
            assert(!occurs_at(hay@, needle@, i as int)) by {
                if occurs_at(hay@, needle@, i as int) {
                    assert forall|t: int| 0 <= t < m implies hay@[i + t] == needle@[t] by {
                        assert(hay@.subrange(i as int, i + m)[t] == hay@[i + t]);
                    }
                }
            }
        }
        i = i + 1;
    }
    assert forall|j: int| !occurs_at(hay@, needle@, j) by {
        if j > n - m {
        }
    }
    None
}

/// `str::contains` for a string pattern.
pub fn contains(hay: &str, needle: &str) -> (r: bool)
    ensures
        r == contains_seq(hay@, needle@),
{
    let h = chars_of(hay);
    let nd = chars_of(needle);
    find(h.as_slice(), nd.as_slice()).is_some()
}


// ---------- sequences of strings ----------

/// Character views of a sequence of strings.
pub open spec fn strs(v: Seq<String>) -> Seq<Seq<char>> {
    v.map_values(|s: String| s@)
}

/// Non-decreasing in byte order.
pub open spec fn sorted_strs(s: Seq<Seq<char>>) -> bool {
    forall|i: int, j: int| 0 <= i < j < s.len() ==> !lex_lt(#[trigger] s[j], #[trigger] s[i])
}

proof fn lemma_insert_keeps_sorted(r: Seq<Seq<char>>, p: int, x: Seq<char>)
    requires
        sorted_strs(r),
        0 <= p <= r.len(),
        forall|k: int| 0 <= k < p ==> !lex_lt(x, #[trigger] r[k]),
        p < r.len() ==> lex_lt(x, r[p]),
    ensures
        sorted_strs(r.insert(p, x)),
{
    let n = r.insert(p, x);
    assert forall|i: int, j: int| 0 <= i < j < n.len() implies !lex_lt(#[trigger] n[j], #[trigger] n[i]) by {
        if i < p && j < p {
        } else if i < p && j == p {
        } else if i < p && j > p {
            assert(n[j] == r[j - 1]);
        } else if i == p {
            assert(n[j] == r[j - 1]);
            assert(p < r.len());
            if j - 1 == p {
                lemma_lex_asym(x, r[p]);
            } else {
                lemma_lex_total(r[p], r[j - 1]);
                if lex_lt(r[p], r[j - 1]) {
                    lemma_lex_trans(x, r[p], r[j - 1]);
                }
                lemma_lex_asym(x, r[j - 1]);
            }
        } else {
            assert(n[i] == r[i - 1]);
            assert(n[j] == r[j - 1]);
        }
    }
}

/// Inserts `x` after every element not greater than it.
pub fn insert_sorted(r: &mut Vec<String>, x: String)
    requires
        sorted_strs(strs(old(r)@)),
    ensures
        sorted_strs(strs(final(r)@)),
        strs(final(r)@).to_multiset() == strs(old(r)@).to_multiset().insert(x@),
        final(r)@.len() == old(r)@.len() + 1,
{
    let mut p: usize = 0;
    while p < r.len() && !str_lt(x.as_str(), r[p].as_str())
        invariant
            p <= r@.len(),
            r@ == old(r)@,
            forall|k: int| 0 <= k < p ==> !lex_lt(x@, #[trigger] strs(r@)[k]),
        decreases r.len() - p,
    {
        p = p + 1;
    }
    let ghost xv = x@;
    proof {
        lemma_insert_keeps_sorted(strs(r@), p as int, x@);
        broadcast use vstd::seq_lib::group_to_multiset_ensures;
        assert(strs(r@).insert(p as int, x@).to_multiset() == strs(r@).to_multiset().insert(x@));
    }
    r.insert(p, x);
    assert(strs(r@) =~= strs(old(r)@).insert(p as int, xv));
}

/// Byte-order sort of a list of strings (`Vec::sort` on `String`).
pub fn sort_strings(v: Vec<String>) -> (r: Vec<String>)
    ensures
        sorted_strs(strs(r@)),
        strs(r@).to_multiset() == strs(v@).to_multiset(),
{
    let mut src = v;
    let mut out: Vec<String> = Vec::new();
    proof {
        broadcast use vstd::seq_lib::group_to_multiset_ensures;
        assert(strs(out@) =~= Seq::<Seq<char>>::empty());
        assert(strs(src@) + strs(out@) =~= strs(v@));
    }
    while src.len() > 0
        invariant
            sorted_strs(strs(out@)),
            strs(src@).to_multiset().add(strs(out@).to_multiset()) == strs(v@).to_multiset(),
        decreases src.len(),
    {
        let ghost before_src = src@;
        let x = src.pop().unwrap();
        proof {
            broadcast use vstd::seq_lib::group_to_multiset_ensures;
            assert(strs(before_src) =~= strs(src@).push(x@));
        }
        insert_sorted(&mut out, x);
        proof {
            broadcast use vstd::multiset::group_multiset_axioms;
            assert(strs(src@).to_multiset().add(strs(out@).to_multiset()) =~= strs(v@).to_multiset());
        }
    }
    proof {
        broadcast use vstd::seq_lib::group_to_multiset_ensures;
        broadcast use vstd::multiset::group_multiset_axioms;
        assert(strs(src@) =~= Seq::<Seq<char>>::empty());
        assert(strs(out@).to_multiset() =~= strs(v@).to_multiset());
    }
    out
}

/// `parts` joined with `sep` between neighbours (`[String]::join`).
pub open spec fn join(parts: Seq<Seq<char>>, sep: Seq<char>) -> Seq<char>
    decreases parts.len(),
{
    if parts.len() == 0 {
        Seq::empty()
    } else if parts.len() == 1 {
        parts[0]
    } else {
        join(parts.drop_last(), sep) + sep + parts.last()
    }
}

/// `[String]::join`.
pub fn join_strings(parts: &[String], sep: &str) -> (r: String)
    ensures
        r@ == join(strs(parts@), sep@),
{
    let mut out = String::new();
    let mut i: usize = 0;
    while i < parts.len()
        invariant
            i <= parts@.len(),
            out@ == join(strs(parts@).subrange(0, i as int), sep@),
        decreases parts.len() - i,
    {
        let ghost pre = strs(parts@).subrange(0, i as int);
        let ghost nxt = strs(parts@).subrange(0, i + 1 as int);
        assert(nxt.drop_last() =~= pre);
        if i > 0 {
            out.append(sep);
        }
        out.append(parts[i].as_str());
        i = i + 1;
        if i == 1 {
            assert(out@ =~= join(nxt, sep@));
        }
    }
    assert(strs(parts@).subrange(0, i as int) =~= strs(parts@));
    out
}

/// Strictly increasing in byte order: sorted with no repeats.
pub open spec fn strictly_sorted(s: Seq<Seq<char>>) -> bool {
    forall|i: int, j: int| 0 <= i < j < s.len() ==> lex_lt(#[trigger] s[i], #[trigger] s[j])
}

/// `Vec::dedup` on a sorted vector: the same strings, each once, in order.
pub fn dedup_sorted(v: Vec<String>) -> (r: Vec<String>)
    requires
        sorted_strs(strs(v@)),
    ensures
        strictly_sorted(strs(r@)),
        strs(r@).to_set() == strs(v@).to_set(),
{
    let ghost sv = strs(v@);
    let mut out: Vec<String> = Vec::new();
    let mut i: usize = 0;
    while i < v.len()
        invariant
            i <= v@.len(),
            sv == strs(v@),
            sorted_strs(sv),
            strictly_sorted(strs(out@)),
            strs(out@).to_set() == sv.subrange(0, i as int).to_set(),
            i > 0 ==> out@.len() > 0 && strs(out@).last() == sv[i - 1],
            i == 0 ==> out@.len() == 0,
        decreases v.len() - i,
    {
        let ghost pre = strs(out@);
        let x = &v[i];
        let fresh = if out.len() == 0 { true } else { !str_eq(out[out.len() - 1].as_str(), x.as_str()) };
        if fresh {
            proof {
                if i > 0 {
                    lemma_lex_total(pre.last(), sv[i as int]);
                    assert(!lex_lt(sv[i as int], sv[i - 1]));
                    assert forall|k: int| 0 <= k < pre.len() implies lex_lt(#[trigger] pre[k], sv[i as int]) by {
                        if k < pre.len() - 1 {
                            lemma_lex_trans(pre[k], pre.last(), sv[i as int]);
                        }
                    }
                }
            }
            out.push(x.clone());
            assert(strs(out@) =~= pre.push(sv[i as int]));
        }
        assert(sv.subrange(0, i + 1) =~= sv.subrange(0, i as int).push(sv[i as int]));
        proof {
            sv.subrange(0, i as int).lemma_push_to_set_commute(sv[i as int]);
            if fresh {
                pre.lemma_push_to_set_commute(sv[i as int]);
            } else {
                assert(pre.contains(sv[i as int]));
                assert(strs(out@).to_set() =~= sv.subrange(0, i as int).to_set().insert(sv[i as int]));
            }
        }
        i = i + 1;
    }
    assert(sv.subrange(0, i as int) =~= sv);
    out
}

/// The pieces of `s` between occurrences of `sep` (one piece when there is
/// none), as `str::split` with a character.
pub open spec fn split_on(s: Seq<char>, sep: char) -> Seq<Seq<char>>
    decreases s.len(),
{
    if s.len() == 0 {
        seq![Seq::<char>::empty()]
    } else {
        let ps = split_on(s.drop_last(), sep);
        if s.last() == sep {
            ps.push(Seq::<char>::empty())
        } else {
            ps.update(ps.len() - 1, ps.last().push(s.last()))
        }
    }
}

pub proof fn lemma_split_on_nonempty(s: Seq<char>, sep: char)
    ensures
        split_on(s, sep).len() >= 1,
    decreases s.len(),
{
    if s.len() > 0 {
        lemma_split_on_nonempty(s.drop_last(), sep);
    }
}

/// Whether some piece of `s` split at `sep`, trimmed, equals `needle`.
pub open spec fn has_trimmed_piece(s: Seq<char>, sep: char, needle: Seq<char>) -> bool {
    exists|i: int| 0 <= i < split_on(s, sep).len() && #[trigger] trim(split_on(s, sep)[i]) == needle
}

fn chars_eq(a: &[char], b: &[char]) -> (r: bool)
    ensures
        r == (a@ == b@),
{
    if a.len() != b.len() {
        return false;
    }
    let mut i: usize = 0;
    while i < a.len()
        invariant
            a@.len() == b@.len(),
            i <= a@.len(),
            forall|k: int| 0 <= k < i ==> a@[k] == b@[k],
        decreases a.len() - i,
    {
        if a[i] != b[i] {
            return false;
        }
        i = i + 1;
    }
    assert(a@ =~= b@);
    true
}

/// `s.split(sep).any(|p| p.trim() == needle)`.
pub fn any_trimmed_piece(s: &str, sep: char, needle: &str) -> (r: bool)
    ensures
        r == has_trimmed_piece(s@, sep, needle@),
{
    let cs = chars_of(s);
    let nd = chars_of(needle);
    let mut cur: Vec<char> = Vec::new();
    let mut found = false;
    let mut i: usize = 0;
    proof {
        assert(cs@.subrange(0, 0) =~= Seq::<char>::empty());
    }
    while i < cs.len()
        invariant
            i <= cs@.len(),
            cs@ == s@,
            nd@ == needle@,
            split_on(cs@.subrange(0, i as int), sep).len() >= 1,
            cur@ == split_on(cs@.subrange(0, i as int), sep).last(),
            found == exists|k: int| 0 <= k < split_on(cs@.subrange(0, i as int), sep).len() - 1
                && #[trigger] trim(split_on(cs@.subrange(0, i as int), sep)[k]) == needle@,
        decreases cs.len() - i,
    {
        let ghost pre = cs@.subrange(0, i as int);
        let ghost ps = split_on(pre, sep);
        let ghost nxt = cs@.subrange(0, i + 1);
        assert(nxt.drop_last() =~= pre);
        let c = cs[i];
        if c == sep {
            let t = trim_chars(cur.as_slice());
            let hit = chars_eq(t.as_slice(), nd.as_slice());
            proof {
                let qs = split_on(nxt, sep);
                assert(qs == ps.push(Seq::<char>::empty()));
                assert(qs.len() - 1 == ps.len());
                assert forall|k: int| 0 <= k < ps.len() implies #[trigger] qs[k] == ps[k] by {}
                if found {
                    let k = choose|k: int| 0 <= k < ps.len() - 1 && #[trigger] trim(ps[k]) == needle@;
                    assert(trim(qs[k]) == needle@);
                }
                if hit {
                    assert(trim(qs[ps.len() - 1]) == needle@);
                }
                if !found && !hit {
                    assert forall|k: int| 0 <= k < qs.len() - 1 implies #[trigger] trim(qs[k]) != needle@ by {
                        if k < ps.len() - 1 {
                            assert(qs[k] == ps[k]);
                        }
                    }
                }
            }
            found = found || hit;
            cur = Vec::new();
        } else {
            cur.push(c);
            proof {
                let qs = split_on(nxt, sep);
                lemma_split_on_nonempty(pre, sep);
                assert(qs.len() == ps.len());
                assert forall|k: int| 0 <= k < ps.len() - 1 implies #[trigger] qs[k] == ps[k] by {}
                if found {
                    let k = choose|k: int| 0 <= k < ps.len() - 1 && #[trigger] trim(ps[k]) == needle@;
                    assert(trim(qs[k]) == needle@);
                } else {
                    assert forall|k: int| 0 <= k < qs.len() - 1 implies #[trigger] trim(qs[k]) != needle@ by {
                        assert(qs[k] == ps[k]);
                    }
                }
            }
        }
        i = i + 1;
    }
    assert(cs@.subrange(0, i as int) =~= s@);
    let t = trim_chars(cur.as_slice());
    let hit = chars_eq(t.as_slice(), nd.as_slice());
    proof {
        let ps = split_on(s@, sep);
        if found {
            let k = choose|k: int| 0 <= k < ps.len() - 1 && #[trigger] trim(ps[k]) == needle@;
            assert(trim(ps[k]) == needle@);
        }
        if hit {
            assert(trim(ps[ps.len() - 1]) == needle@);
        }
        if !found && !hit {
            assert forall|k: int| 0 <= k < ps.len() implies #[trigger] trim(ps[k]) != needle@ by {
                if k == ps.len() - 1 {
                } else {
                }
            }
        }
    }
    found || hit
}

} // verus!
