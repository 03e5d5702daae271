//! Text helpers shared by the SQL, URL and DDL generators.
//!
//! Strings are modelled by their character sequences (`String@`, `&str@`).
use vstd::prelude::*;

verus! {

// ---------------------------------------------------------------------------
// Specifications
// ---------------------------------------------------------------------------

/// The views of a list of strings.
pub open spec fn views(list: Seq<String>) -> Seq<Seq<char>> {
    list.map_values(|s: String| s@)
}

/// The elements of `list` separated by `sep`, as `[String]::join` produces them.
pub open spec fn seq_join(list: Seq<Seq<char>>, sep: Seq<char>) -> Seq<char>
    decreases list.len(),
{
    if list.len() == 0 {
        Seq::empty()
    } else if list.len() == 1 {
        list[0]
    } else {
        seq_join(list.drop_last(), sep) + sep + list.last()
    }
}

/// The character for a decimal digit.
pub open spec fn digit_char(d: nat) -> char {
    if d == 0 { '0' }
    else if d == 1 { '1' }
    else if d == 2 { '2' }
    else if d == 3 { '3' }
    else if d == 4 { '4' }
    else if d == 5 { '5' }
    else if d == 6 { '6' }
    else if d == 7 { '7' }
    else if d == 8 { '8' }
    else { '9' }
}

/// The value of a decimal digit character, if it is one.
pub open spec fn digit_value(c: char) -> Option<nat> {
    if '0' <= c && c <= '9' {
        Some((c as int - '0' as int) as nat)
    } else {
        None
    }
}

/// The decimal text of a natural number, without leading zeros.
pub open spec fn nat_text(n: nat) -> Seq<char>
    decreases n,
{
    if n < 10 {
        seq![digit_char(n)]
    } else {
        nat_text(n / 10).push(digit_char(n % 10))
    }
}

/// The decimal text of an integer, with a leading `-` when it is negative.
pub open spec fn int_text(n: int) -> Seq<char> {
    if n < 0 {
        seq!['-'] + nat_text((-n) as nat)
    } else {
        nat_text(n as nat)
    }
}

/// True when every character is an ASCII digit.
pub open spec fn all_digits(s: Seq<char>) -> bool {
    forall|i: int| 0 <= i < s.len() ==> #[trigger] digit_value(s[i]) is Some
}

/// The value of a string of decimal digits (most significant first).
pub open spec fn digits_value(s: Seq<char>) -> nat
    decreases s.len(),
{
    if s.len() == 0 {
        0
    } else {
        digits_value(s.drop_last()) * 10 + match digit_value(s.last()) {
            Some(d) => d,
            None => 0,
        }
    }
}

/// The integer denoted by `s` in the syntax that `str::parse` accepts for integers:
/// an optional `+` or `-` followed by at least one ASCII digit.
pub open spec fn parse_int_spec(s: Seq<char>) -> Option<int> {
    if s.len() > 0 && (s[0] == '+' || s[0] == '-') {
        let rest = s.skip(1);
        if rest.len() > 0 && all_digits(rest) {
            if s[0] == '-' {
                Some(-(digits_value(rest) as int))
            } else {
                Some(digits_value(rest) as int)
            }
        } else {
            None
        }
    } else if s.len() > 0 && all_digits(s) {
        Some(digits_value(s) as int)
    } else {
        None
    }
}

/// The unsigned value of `s` as `str::parse` reads it for unsigned integers:
/// an optional `+` followed by at least one ASCII digit.
pub open spec fn parse_nat_spec(s: Seq<char>) -> Option<int> {
    match parse_int_spec(s) {
        Some(v) => if s[0] == '-' { None } else { Some(v) },
        None => None,
    }
}

/// `s` with every non-overlapping occurrence of `from` (scanning left to right)
/// replaced by `to`, as `str::replace` does for a non-empty pattern.
pub open spec fn replace_spec(s: Seq<char>, from: Seq<char>, to: Seq<char>) -> Seq<char>
    recommends
        from.len() > 0,
    decreases s.len(),
{
    if from.len() == 0 || s.len() < from.len() {
        s
    } else if s.take(from.len() as int) == from {
        to + replace_spec(s.skip(from.len() as int), from, to)
    } else {
        seq![s[0]] + replace_spec(s.skip(1), from, to)
    }
}

/// ASCII upper-case letters mapped to lower case, other characters kept.
pub open spec fn ascii_lower_char(c: char) -> char {
    if 'A' <= c && c <= 'Z' {
        ((c as int) + 32) as char
    } else {
        c
    }
}

/// True when every character of `s` is ASCII.
pub open spec fn seq_is_ascii(s: Seq<char>) -> bool {
    forall|i: int| 0 <= i < s.len() ==> (#[trigger] s[i] as int) < 128
}

/// Names for what the standard library computes with Unicode tables.
pub uninterp spec fn lowercase_spec(s: Seq<char>) -> Seq<char>;

pub uninterp spec fn char_is_numeric_spec(c: char) -> bool;

/// The Unicode `White_Space` property (PropList.txt): tab, line feed, vertical tab, form
/// feed, carriage return, space, U+0085, U+00A0, U+1680, U+2000 to U+200A, U+2028,
/// U+2029, U+202F, U+205F and U+3000.
pub open spec fn char_is_whitespace_spec(c: char) -> bool {
    let n = c as int;
    ||| 0x09 <= n <= 0x0d
    ||| n == 0x20
    ||| n == 0x85
    ||| n == 0xa0
    ||| n == 0x1680
    ||| 0x2000 <= n <= 0x200a
    ||| n == 0x2028
    ||| n == 0x2029
    ||| n == 0x202f
    ||| n == 0x205f
    ||| n == 0x3000
}

/// `s` without its leading white space.
pub open spec fn trim_start_spec(s: Seq<char>) -> Seq<char>
    decreases s.len(),
{
    if s.len() > 0 && char_is_whitespace_spec(s[0]) {
        trim_start_spec(s.skip(1))
    } else {
        s
    }
}

/// `s` without its trailing white space.
pub open spec fn trim_end_spec(s: Seq<char>) -> Seq<char>
    decreases s.len(),
{
    if s.len() > 0 && char_is_whitespace_spec(s.last()) {
        trim_end_spec(s.drop_last())
    } else {
        s
    }
}

/// `s` without its leading and trailing white space.
pub open spec fn trim_spec(s: Seq<char>) -> Seq<char> {
    trim_end_spec(trim_start_spec(s))
}

/// The views of a list grow by the view of what is pushed.
pub proof fn lemma_views_push(list: Seq<String>, s: String)
    ensures
        views(list.push(s)) == views(list).push(s@),
{
    assert(views(list.push(s)) =~= views(list).push(s@));
}

// ---------------------------------------------------------------------------
// Trusted calls into the standard library
// ---------------------------------------------------------------------------

/// `String::push`: appends one character.
#[verifier::external_body]
pub(crate) fn push_char(s: &mut String, c: char)
    ensures
        final(s)@ == old(s)@.push(c),
{
    s.push(c)
}

/// `str::to_lowercase`. Its result is named; on ASCII text the standard library's
/// source lower-cases `A`-`Z` and keeps every other character.
#[verifier::external_body]
pub(crate) fn to_lowercase(s: &str) -> (r: String)
    ensures
        r@ == lowercase_spec(s@),
        seq_is_ascii(s@) ==> r@ == s@.map_values(|c: char| ascii_lower_char(c)),
{
    s.to_lowercase()
}

/// `str::trim`: removes leading and trailing white space, as the Unicode `White_Space`
/// property defines it.
#[verifier::external_body]
pub(crate) fn trim(s: &str) -> (r: String)
    ensures
        r@ == trim_spec(s@),
{
    s.trim().to_string()
}

/// `char::is_whitespace`: whether the character has the Unicode `White_Space` property.
#[verifier::external_body]
pub(crate) fn char_is_whitespace(c: char) -> (r: bool)
    ensures
        r == char_is_whitespace_spec(c),
{
    c.is_whitespace()
}

/// `char::is_numeric` (Unicode general categories `Nd`, `Nl`, `No`). The result is named;
/// the ASCII digits are numeric.
#[verifier::external_body]
pub(crate) fn char_is_numeric(c: char) -> (r: bool)
    ensures
        r == char_is_numeric_spec(c),
        '0' <= c && c <= '9' ==> r,
{
    c.is_numeric()
}

// ---------------------------------------------------------------------------
// Verified helpers
// ---------------------------------------------------------------------------

/// The characters of a string, in order.
pub fn chars_of(s: &str) -> (r: Vec<char>)
    ensures
        r@ == s@,
{
    let n = s.unicode_len();
    let mut v: Vec<char> = Vec::new();
    let mut i: usize = 0;
    while i < n
        invariant
            n == s@.len(),
            i <= n,
            v@ == s@.take(i as int),
        decreases n - i,
    {
        let c = s.get_char(i);
        v.push(c);
        i = i + 1;
        assert(v@ == s@.take(i as int));
    }
    assert(s@.take(n as int) == s@);
    v
}

/// A string made of the characters `v[from..to]`.
pub fn string_of(v: &Vec<char>, from: usize, to: usize) -> (r: String)
    requires
        from <= to <= v.len(),
    ensures
        r@ == v@.subrange(from as int, to as int),
{
    let mut s = String::new();
    let mut i = from;
    while i < to
        invariant
            from <= i <= to <= v.len(),
            s@ == v@.subrange(from as int, i as int),
        decreases to - i,
    {
        push_char(&mut s, v[i]);
        i = i + 1;
        assert(s@ == v@.subrange(from as int, i as int));
    }
    s
}

/// A copy of a string slice.
pub fn owned(s: &str) -> (r: String)
    ensures
        r@ == s@,
{
    String::from_str(s)
}

/// The concatenation of two string slices.
pub fn cat(a: &str, b: &str) -> (r: String)
    ensures
        r@ == a@ + b@,
{
    let mut s = String::from_str(a);
    s.append(b);
    s
}

/// The concatenation of three string slices.
pub fn cat3(a: &str, b: &str, c: &str) -> (r: String)
    ensures
        r@ == a@ + b@ + c@,
{
    let mut s = String::from_str(a);
    s.append(b);
    s.append(c);
    s
}

/// `"` + `s` + `"`.
pub fn dquote(s: &str) -> (r: String)
    ensures
        r@ == seq!['"'] + s@ + seq!['"'],
{
    let mut r = String::new();
    push_char(&mut r, '"');
    r.append(s);
    push_char(&mut r, '"');
    r
}

/// True when the two strings hold the same characters.
pub fn str_eq(a: &str, b: &str) -> (r: bool)
    ensures
        r == (a@ == b@),
{
    let va = chars_of(a);
    let vb = chars_of(b);
    if va.len() != vb.len() {
        return false;
    }
    let mut i: usize = 0;
    while i < va.len()
        invariant
            va@ == a@,
            vb@ == b@,
            va.len() == vb.len(),
            i <= va.len(),
            forall|j: int| 0 <= j < i ==> va@[j] == vb@[j],
        decreases va.len() - i,
    {
        if va[i] != vb[i] {
            return false;
        }
        i = i + 1;
    }
    assert(va@ == vb@);
    true
}

/// True when `s` is the empty string.
pub fn is_empty_str(s: &str) -> (r: bool)
    ensures
        r == (s@.len() == 0),
{
    s.unicode_len() == 0
}

/// True when `p` is a prefix of `s`.
pub fn starts_with(s: &str, p: &str) -> (r: bool)
    ensures
        r == p@.is_prefix_of(s@),
{
    let vs = chars_of(s);
    let vp = chars_of(p);
    seq_starts_with(&vs, 0, &vp)
}

/// True when `p` occurs in `v` at position `at`.
pub fn seq_starts_with(v: &Vec<char>, at: usize, p: &Vec<char>) -> (r: bool)
    requires
        at <= v.len(),
    ensures
        r == (at + p.len() <= v.len() && v@.subrange(at as int, at + p.len()) == p@),
        r == p@.is_prefix_of(v@.skip(at as int)),
{
    if p.len() > v.len() - at {
        return false;
    }
    let mut i: usize = 0;
    while i < p.len()
        invariant
            at + p.len() <= v.len(),
            i <= p.len(),
            forall|j: int| 0 <= j < i ==> v@[at + j] == p@[j],
        decreases p.len() - i,
    {
        if v[at + i] != p[i] {
            assert(v@.subrange(at as int, at + p.len())[i as int] != p@[i as int]);
            return false;
        }
        i = i + 1;
    }
    assert(v@.subrange(at as int, at + p.len()) == p@);
    true
}

/// True when `p` is a suffix of `s`.
pub fn ends_with(s: &str, p: &str) -> (r: bool)
    ensures
        r == p@.is_suffix_of(s@),
{
    let vs = chars_of(s);
    let vp = chars_of(p);
    if vp.len() > vs.len() {
        return false;
    }
    let at = vs.len() - vp.len();
    let r = seq_starts_with(&vs, at, &vp);
    assert(vs@.subrange(at as int, at + vp.len()) == vs@.subrange(vs@.len() - vp@.len(), vs@.len() as int));
    r
}

/// True when the character `c` occurs in `s`.
pub fn contains_char(s: &str, c: char) -> (r: bool)
    ensures
        r == s@.contains(c),
{
    let v = chars_of(s);
    let mut i: usize = 0;
    while i < v.len()
        invariant
            v@ == s@,
            i <= v.len(),
            forall|j: int| 0 <= j < i ==> v@[j] != c,
        decreases v.len() - i,
    {
        if v[i] == c {
            return true;
        }
        i = i + 1;
    }
    false
}

/// `str::replace` for a non-empty pattern.
pub fn replace_all(s: &str, from: &str, to: &str) -> (r: String)
    requires
        from@.len() > 0,
    ensures
        r@ == replace_spec(s@, from@, to@),
{
    let v = chars_of(s);
    let p = chars_of(from);
    let mut out = String::new();
    let mut i: usize = 0;
    assert(v@.skip(0) == v@);
    while i < v.len()
        invariant
            v@ == s@,
            p@ == from@,
            p.len() > 0,
            i <= v.len(),
            out@ + replace_spec(v@.skip(i as int), p@, to@) == replace_spec(v@, p@, to@),
        decreases v.len() - i,
    {
        let ghost rest = v@.skip(i as int);
        if seq_starts_with(&v, i, &p) {
            assert(rest.take(p.len() as int) == p@);
            assert(rest.skip(p.len() as int) == v@.skip(i + p.len()));
            out.append(to);
            i = i + p.len();
        } else {
            assert(rest.len() < p@.len() || rest.take(p.len() as int) != p@) by {
                if rest.len() >= p@.len() {
                    assert(rest.take(p.len() as int) == v@.subrange(i as int, i + p.len()));
                }
            }
            assert(rest.skip(1) == v@.skip(i + 1));
            push_char(&mut out, v[i]);
            i = i + 1;
        }
    }
    assert(v@.skip(i as int).len() == 0);
    out
}

/// `list.join(sep)`.
pub fn join(list: &Vec<String>, sep: &str) -> (r: String)
    ensures
        r@ == seq_join(views(list@), sep@),
{
    let mut out = String::new();
    let mut i: usize = 0;
    while i < list.len()
        invariant
            i <= list.len(),
            out@ == seq_join(views(list@.take(i as int)), sep@),
        decreases list.len() - i,
    {
        assert(views(list@.take(i + 1)).drop_last() == views(list@.take(i as int)));
        if i > 0 {
            out.append(sep);
        }
        out.append(list[i].as_str());
        i = i + 1;
        assert(views(list@.take(i as int)).last() == list@[i - 1]@);
    }
    assert(list@.take(list.len() as int) == list@);
    out
}

/// The digit character for `d < 10`.
pub fn digit(d: u64) -> (c: char)
    requires
        d < 10,
    ensures
        c == digit_char(d as nat),
{
    match d {
        0 => '0',
        1 => '1',
        2 => '2',
        3 => '3',
        4 => '4',
        5 => '5',
        6 => '6',
        7 => '7',
        8 => '8',
        _ => '9',
    }
}

/// Appends the decimal text of `n` to `s`.
pub fn push_u64(s: &mut String, n: u64)
    ensures
        final(s)@ == old(s)@ + nat_text(n as nat),
    decreases n,
{
    if n < 10 {
        push_char(s, digit(n));
        assert(nat_text(n as nat) == seq![digit_char(n as nat)]);
    } else {
        push_u64(s, n / 10);
        push_char(s, digit(n % 10));
    }
}

/// The decimal text of `n` (`u64::to_string`).
pub fn u64_text(n: u64) -> (r: String)
    ensures
        r@ == nat_text(n as nat),
{
    let mut s = String::new();
    push_u64(&mut s, n);
    s
}

/// The decimal text of `n` (`i64::to_string`).
pub fn i64_text(n: i64) -> (r: String)
    ensures
        r@ == int_text(n as int),
{
    let mut s = String::new();
    if n < 0 {
        push_char(&mut s, '-');
        let m: u64 = if n == i64::MIN { 9223372036854775808u64 } else { (-n) as u64 };
        push_u64(&mut s, m);
    } else {
        push_u64(&mut s, n as u64);
    }
    s
}

proof fn lemma_digits_value_push(s: Seq<char>, c: char)
    requires
        digit_value(c) is Some,
    ensures
        digits_value(s.push(c)) == digits_value(s) * 10 + digit_value(c)->0,
{
    assert(s.push(c).drop_last() == s);
}

/// Reads a run of ASCII digits as a number no larger than `limit`;
/// `None` when a character is not a digit or the value exceeds `limit`.
fn read_digits(v: &Vec<char>, from: usize, limit: u64) -> (r: Option<u64>)
    requires
        from <= v.len(),
        limit >= 9,
    ensures
        all_digits(v@.skip(from as int)) && digits_value(v@.skip(from as int)) <= limit
            <==> r is Some,
        r is Some ==> r->0 == digits_value(v@.skip(from as int)),
{
    let mut acc: u64 = 0;
    let mut i = from;
    while i < v.len()
        invariant
            from <= i <= v.len(),
            limit >= 9,
            all_digits(v@.subrange(from as int, i as int)),
            acc == digits_value(v@.subrange(from as int, i as int)),
            acc <= limit,
        decreases v.len() - i,
    {
        let c = v[i];
        let ghost pre = v@.subrange(from as int, i as int);
        assert(v@.subrange(from as int, i + 1) == pre.push(c));
        if !('0' <= c && c <= '9') {
            assert(!all_digits(v@.skip(from as int))) by {
                assert(v@.skip(from as int)[i - from] == c);
                assert(digit_value(v@.skip(from as int)[i - from]) is None);
            }
            return None;
        }
        let d: u64 = (c as u32 - '0' as u32) as u64;
        proof {
            lemma_digits_value_push(pre, c);
        }
        if acc > (limit - d) / 10 {
            proof {
                lemma_prefix_value_bound(v@.skip(from as int), (i + 1 - from) as int);
                assert(v@.skip(from as int).take((i + 1 - from) as int) == pre.push(c));
                assert(acc * 10 + d > limit) by (nonlinear_arith)
                    requires acc > (limit - d) / 10, d <= 9, limit >= 9;
            }
            return None;
        }
        assert(acc * 10 + d <= limit) by (nonlinear_arith)
            requires acc <= (limit - d) / 10, d <= 9, limit >= 9;
        acc = acc * 10 + d;
        i = i + 1;
        assert(all_digits(v@.subrange(from as int, i as int))) by {
            assert(forall|j: int| 0 <= j < pre.len() ==> v@.subrange(from as int, i as int)[j] == pre[j]);
        }
    }
    assert(v@.subrange(from as int, v.len() as int) == v@.skip(from as int));
    Some(acc)
}

/// A digit string's value is at least the value of any of its prefixes.
proof fn lemma_prefix_value_bound(s: Seq<char>, k: int)
    requires
        0 <= k <= s.len(),
        all_digits(s.take(k)),
    ensures
        all_digits(s) ==> digits_value(s.take(k)) <= digits_value(s),
    decreases s.len() - k,
{
    if k < s.len() && all_digits(s) {
        assert(all_digits(s.take(k + 1)));
        lemma_prefix_value_bound(s, k + 1);
        assert(s.take(k + 1).drop_last() == s.take(k));
    }
    if k == s.len() {
        assert(s.take(k) == s);
    }
}

/// `str::parse::<u64>`: `None` where the standard library reports an error.
pub fn parse_u64(s: &str) -> (r: Option<u64>)
    ensures
        match r {
            Some(n) => parse_nat_spec(s@) == Some(n as int),
            None => parse_nat_spec(s@) is None || parse_nat_spec(s@)->0 > u64::MAX,
        },
{
    let v = chars_of(s);
    if v.len() == 0 {
        return None;
    }
    let from: usize = if v[0] == '+' { 1 } else { 0 };
    if v[0] == '-' || from == v.len() {
        return None;
    }
    assert(v@.skip(0) == v@);
    match read_digits(&v, from, u64::MAX) {
        Some(n) => Some(n),
        None => None,
    }
}

/// `str::parse::<usize>`.
pub fn parse_usize(s: &str) -> (r: Option<usize>)
    ensures
        match r {
            Some(n) => parse_nat_spec(s@) == Some(n as int),
            None => parse_nat_spec(s@) is None || parse_nat_spec(s@)->0 > usize::MAX,
        },
{
    let v = chars_of(s);
    if v.len() == 0 {
        return None;
    }
    let from: usize = if v[0] == '+' { 1 } else { 0 };
    if v[0] == '-' || from == v.len() {
        return None;
    }
    assert(v@.skip(0) == v@);
    match read_digits(&v, from, usize::MAX as u64) {
        Some(n) => Some(n as usize),
        None => None,
    }
}

/// `str::parse::<i64>`.
pub fn parse_i64(s: &str) -> (r: Option<i64>)
    ensures
        match r {
            Some(n) => parse_int_spec(s@) == Some(n as int),
            None => parse_int_spec(s@) is None || parse_int_spec(s@)->0 > i64::MAX
                || parse_int_spec(s@)->0 < i64::MIN,
        },
{
    let v = chars_of(s);
    if v.len() == 0 {
        return None;
    }
    let neg = v[0] == '-';
    let from: usize = if v[0] == '+' || v[0] == '-' { 1 } else { 0 };
    if from == v.len() {
        return None;
    }
    assert(v@.skip(0) == v@);
    let limit: u64 = if neg { 9223372036854775808u64 } else { 9223372036854775807u64 };
    match read_digits(&v, from, limit) {
        Some(n) => {
            if neg {
                if n == 9223372036854775808u64 {
                    Some(i64::MIN)
                } else {
                    Some(-(n as i64))
                }
            } else {
                Some(n as i64)
            }
        },
        None => None,
    }
}


// ---------------------------------------------------------------------------
// Ordering of strings
// ---------------------------------------------------------------------------

/// `a` comes before `b` in the order of `String`: character by character, a proper
/// prefix first.
pub open spec fn seq_lt(a: Seq<char>, b: Seq<char>) -> bool
    decreases a.len(),
{
    if a.len() == 0 {
        b.len() > 0
    } else if b.len() == 0 {
        false
    } else if a[0] != b[0] {
        a[0] < b[0]
    } else {
        seq_lt(a.skip(1), b.skip(1))
    }
}

/// The strings are strictly increasing.
pub open spec fn strictly_sorted(s: Seq<Seq<char>>) -> bool {
    forall|i: int, j: int| 0 <= i < j < s.len() ==> seq_lt(s[i], s[j])
}

/// The order of strings is irreflexive, transitive and total.
pub proof fn lemma_seq_lt_order(a: Seq<char>, b: Seq<char>, c: Seq<char>)
    ensures
        !seq_lt(a, a),
        seq_lt(a, b) && seq_lt(b, c) ==> seq_lt(a, c),
        a != b ==> seq_lt(a, b) || seq_lt(b, a),
        seq_lt(a, b) ==> !seq_lt(b, a),
    decreases a.len(),
{
    if a.len() > 0 {
        if b.len() > 0 && c.len() > 0 {
            lemma_seq_lt_order(a.skip(1), b.skip(1), c.skip(1));
        } else if b.len() > 0 {
            lemma_seq_lt_order(a.skip(1), b.skip(1), a.skip(1));
        } else {
            lemma_seq_lt_order(a.skip(1), a.skip(1), a.skip(1));
        }
        if a != b && b.len() > 0 && a[0] == b[0] {
            assert(a.skip(1) != b.skip(1)) by {
                if a.skip(1) == b.skip(1) {
                    assert(a =~= seq![a[0]] + a.skip(1));
                    assert(b =~= seq![b[0]] + b.skip(1));
                }
            }
        }
    } else {
        if b.len() == 0 {
            assert(a =~= b);
        }
    }
}

/// True when `a` comes before `b`.
pub fn str_lt(a: &str, b: &str) -> (r: bool)
    ensures
        r == seq_lt(a@, b@),
{
    let va = chars_of(a);
    let vb = chars_of(b);
    let mut i: usize = 0;
    assert(a@.skip(0) == a@ && b@.skip(0) == b@);
    while i < va.len() && i < vb.len()
        invariant
            va@ == a@,
            vb@ == b@,
            i <= va.len(),
            i <= vb.len(),
            seq_lt(a@, b@) == seq_lt(a@.skip(i as int), b@.skip(i as int)),
        decreases va.len() - i,
    {
        assert(a@.skip(i as int)[0] == va@[i as int]);
        assert(b@.skip(i as int)[0] == vb@[i as int]);
        if va[i] != vb[i] {
            return va[i] < vb[i];
        }
        assert(a@.skip(i as int).skip(1) =~= a@.skip(i + 1));
        assert(b@.skip(i as int).skip(1) =~= b@.skip(i + 1));
        i = i + 1;
    }
    i == va.len() && i < vb.len()
}

/// Adds `s` to a strictly increasing list of strings, unless it is there already.
pub fn insert_sorted(v: &mut Vec<String>, s: String)
    requires
        strictly_sorted(views(old(v)@)),
    ensures
        strictly_sorted(views(final(v)@)),
        views(final(v)@).to_set() == views(old(v)@).to_set().insert(s@),
{
    let ghost old_v = views(v@);
    let mut i: usize = 0;
    while i < v.len()
        invariant
            views(v@) == old_v,
            i <= v.len(),
            forall|j: int| 0 <= j < i ==> seq_lt(#[trigger] old_v[j], s@),
        ensures
            views(v@) == old_v,
            i <= v.len(),
            forall|j: int| 0 <= j < i ==> seq_lt(#[trigger] old_v[j], s@),
            i < v.len() ==> !seq_lt(old_v[i as int], s@),
        decreases v.len() - i,
    {
        assert(old_v[i as int] == v@[i as int]@);
        if !str_lt(v[i].as_str(), s.as_str()) {
            break;
        }
        i = i + 1;
    }
    assert(views(v@) == old_v);
    if i < v.len() && str_eq(v[i].as_str(), s.as_str()) {
        assert(old_v[i as int] == v@[i as int]@);
        assert(old_v[i as int] == s@);
        assert(old_v.to_set().insert(s@) =~= old_v.to_set());
        return;
    }
    proof {
        if i < old_v.len() {
            assert(old_v[i as int] == v@[i as int]@);
            lemma_seq_lt_order(old_v[i as int], s@, s@);
            assert(seq_lt(s@, old_v[i as int]));
        }
    }
    v.insert(i, s);
    let ghost nv = views(v@);
    assert(nv =~= old_v.take(i as int).push(s@) + old_v.skip(i as int));
    assert forall|a: int, b: int| 0 <= a < b < nv.len() implies seq_lt(nv[a], nv[b]) by {
        if a < i && b == i {
        } else if a < i && b > i {
            assert(nv[b] == old_v[b - 1]);
            if b - 1 > i {
                lemma_seq_lt_order(old_v[a], old_v[i as int], old_v[b - 1]);
            }
            lemma_seq_lt_order(old_v[a], s@, old_v[b - 1]);
        } else if a == i {
            assert(nv[b] == old_v[b - 1]);
            if b - 1 > i {
                lemma_seq_lt_order(s@, old_v[i as int], old_v[b - 1]);
            }
        } else if a > i {
            assert(nv[a] == old_v[a - 1] && nv[b] == old_v[b - 1]);
        } else {
            assert(nv[a] == old_v[a] && nv[b] == old_v[b]);
        }
    }
    assert forall|x: Seq<char>| nv.to_set().contains(x) <==> old_v.to_set().insert(s@).contains(x) by {
        if nv.to_set().contains(x) {
            let k = choose|k: int| 0 <= k < nv.len() && nv[k] == x;
            if k < i {
                assert(old_v[k] == x);
            } else if k > i {
                assert(old_v[k - 1] == x);
            }
        }
        if old_v.to_set().contains(x) {
            let k = choose|k: int| 0 <= k < old_v.len() && old_v[k] == x;
            if k < i {
                assert(nv[k] == x);
            } else {
                assert(nv[k + 1] == x);
            }
        }
        if x == s@ {
            assert(nv[i as int] == x);
        }
    }
    assert(nv.to_set() =~= old_v.to_set().insert(s@));
}

} // verus!
