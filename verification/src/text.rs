//! Character-level pieces of the device-tree file format: whitespace,
//! trimming, line splitting and decimal numbers.

use vstd::prelude::*;

verus! {

broadcast use vstd::string::group_string_axioms;

/// Unicode `White_Space`: the characters that `char::is_whitespace`
/// accepts and that `str::trim` removes.
pub open spec fn is_space(c: char) -> bool {
    ||| c == '\t' || c == '\n' || c == '\u{0B}' || c == '\u{0C}' || c == '\r'
    ||| c == ' ' || c == '\u{85}' || c == '\u{A0}' || c == '\u{1680}'
    ||| ('\u{2000}' <= c && c <= '\u{200A}')
    ||| c == '\u{2028}' || c == '\u{2029}' || c == '\u{202F}' || c == '\u{205F}'
    ||| c == '\u{3000}'
}

pub fn char_is_space(c: char) -> (b: bool)
    ensures
        b == is_space(c),
{
    c == '\t' || c == '\n' || c == '\u{0B}' || c == '\u{0C}' || c == '\r' || c == ' '
        || c == '\u{85}' || c == '\u{A0}' || c == '\u{1680}' || ('\u{2000}' <= c && c
        <= '\u{200A}') || c == '\u{2028}' || c == '\u{2029}' || c == '\u{202F}' || c
        == '\u{205F}' || c == '\u{3000}'
}

/// The texts of a sequence of string slices.
pub open spec fn str_texts(v: Seq<&str>) -> Seq<Seq<char>> {
    v.map_values(|s: &str| s@)
}

/// The characters of `s`, in order.
pub fn chars_of(s: &str) -> (v: Vec<char>)
    ensures
        v@ == s@,
{
    let mut v: Vec<char> = Vec::new();
    for c in it: s.chars()
        invariant
            v@ == it.seq().take(it.index() as int),
            it.seq() == s@,
    {
        v.push(c);
    }
    v
}


/// `s` without its leading whitespace.
pub open spec fn trim_start(s: Seq<char>) -> Seq<char>
    decreases s.len(),
{
    if s.len() > 0 && is_space(s[0]) {
        trim_start(s.drop_first())
    } else {
        s
    }
}

/// `s` without its trailing whitespace.
pub open spec fn trim_end(s: Seq<char>) -> Seq<char>
    decreases s.len(),
{
    if s.len() > 0 && is_space(s.last()) {
        trim_end(s.drop_last())
    } else {
        s
    }
}

/// What `str::trim` gives: leading and trailing whitespace removed.
pub open spec fn trim(s: Seq<char>) -> Seq<char> {
    trim_end(trim_start(s))
}

proof fn lemma_trim_start_at(s: Seq<char>, a: int)
    requires
        0 <= a <= s.len(),
        forall|i: int| 0 <= i < a ==> is_space(#[trigger] s[i]),
        a == s.len() || !is_space(s[a]),
    ensures
        trim_start(s) == s.subrange(a, s.len() as int),
    decreases a,
{
    if a > 0 {
        let t = s.drop_first();
        assert forall|i: int| 0 <= i < a - 1 implies is_space(#[trigger] t[i]) by {
            assert(t[i] == s[i + 1]);
        }
        if a - 1 < t.len() {
            assert(t[a - 1] == s[a]);
        }
        lemma_trim_start_at(t, a - 1);
        assert(t.subrange(a - 1, t.len() as int) =~= s.subrange(a, s.len() as int));
    } else {
        assert(s.subrange(0, s.len() as int) =~= s);
    }
}

proof fn lemma_trim_end_at(s: Seq<char>, b: int)
    requires
        0 <= b <= s.len(),
        forall|i: int| b <= i < s.len() ==> is_space(#[trigger] s[i]),
        b == 0 || !is_space(s[b - 1]),
    ensures
        trim_end(s) == s.subrange(0, b),
    decreases s.len() - b,
{
    if b < s.len() {
        let t = s.drop_last();
        assert(is_space(s[s.len() - 1]));
        assert forall|i: int| b <= i < t.len() implies is_space(#[trigger] t[i]) by {
            assert(t[i] == s[i]);
        }
        if b > 0 {
            assert(t[b - 1] == s[b - 1]);
        }
        lemma_trim_end_at(t, b);
        assert(t.subrange(0, b) =~= s.subrange(0, b));
    } else {
        assert(s.subrange(0, b) =~= s);
    }
}

/// A sequence with no whitespace at either end is its own trim.
pub proof fn lemma_trim_of_trimmed(s: Seq<char>)
    requires
        s.len() == 0 || (!is_space(s[0]) && !is_space(s.last())),
    ensures
        trim(s) == s,
{
    lemma_trim_start_at(s, 0);
    assert(s.subrange(0, s.len() as int) =~= s);
    lemma_trim_end_at(s, s.len() as int);
    assert(s.subrange(0, s.len() as int) =~= s);
}

/// The bounds of `trim(v[lo..hi])` inside `v`.
pub fn trim_range(v: &Vec<char>, lo: usize, hi: usize) -> (r: (usize, usize))
    requires
        lo <= hi <= v@.len(),
    ensures
        lo <= r.0 <= r.1 <= hi,
        v@.subrange(r.0 as int, r.1 as int) == trim(v@.subrange(lo as int, hi as int)),
{
    let ghost s = v@.subrange(lo as int, hi as int);
    let mut a = lo;
    while a < hi && char_is_space(v[a])
        invariant
            lo <= a <= hi <= v@.len(),
            s == v@.subrange(lo as int, hi as int),
            forall|i: int| 0 <= i < a - lo ==> is_space(#[trigger] s[i]),
        decreases hi - a,
    {
        assert(s[a - lo] == v@[a as int]);
        a = a + 1;
    }
    proof {
        if a < hi {
            assert(s[a - lo] == v@[a as int]);
        }
        lemma_trim_start_at(s, a - lo);
    }
    let ghost t = v@.subrange(a as int, hi as int);
    assert(t =~= s.subrange(a - lo, s.len() as int));
    let mut b = hi;
    while b > a && char_is_space(v[b - 1])
        invariant
            lo <= a <= b <= hi <= v@.len(),
            t == v@.subrange(a as int, hi as int),
            forall|i: int| b - a <= i < t.len() ==> is_space(#[trigger] t[i]),
        decreases b - a,
    {
        assert(t[b - 1 - a] == v@[b - 1]);
        b = b - 1;
    }
    proof {
        if b > a {
            assert(t[b - 1 - a] == v@[b - 1]);
        }
        lemma_trim_end_at(t, b - a);
        assert(t.subrange(0, b - a) =~= v@.subrange(a as int, b as int));
    }
    (a, b)
}

/// What `str::trim` gives, as an owned string.
pub fn trim_str(s: &str) -> (r: String)
    ensures
        r@ == trim(s@),
{
    let v = chars_of(s);
    let (a, b) = trim_range(&v, 0, v.len());
    assert(v@.subrange(0, v@.len() as int) =~= v@);
    s.substring_char(a, b).to_owned()
}


/// The lines of `s` that a `'\n'` ends, in order.
pub open spec fn lines_done(s: Seq<char>) -> Seq<Seq<char>>
    decreases s.len(),
{
    if s.len() == 0 {
        Seq::empty()
    } else if s.last() == '\n' {
        lines_done(s.drop_last()).push(line_tail(s.drop_last()))
    } else {
        lines_done(s.drop_last())
    }
}

/// What follows the last `'\n'` of `s` (all of `s` when it has none).
pub open spec fn line_tail(s: Seq<char>) -> Seq<char>
    decreases s.len(),
{
    if s.len() == 0 {
        Seq::empty()
    } else if s.last() == '\n' {
        Seq::empty()
    } else {
        line_tail(s.drop_last()).push(s.last())
    }
}

/// The pieces of `s` between `'\n'` characters, the piece after the last
/// one included. Once trimmed, these are the lines that `str::lines`
/// yields, up to a final empty piece.
pub open spec fn split_lines(s: Seq<char>) -> Seq<Seq<char>> {
    lines_done(s).push(line_tail(s))
}

/// Each line followed by `'\n'`, concatenated.
pub open spec fn unlines(ls: Seq<Seq<char>>) -> Seq<char>
    decreases ls.len(),
{
    if ls.len() == 0 {
        Seq::empty()
    } else {
        unlines(ls.drop_last()) + ls.last() + seq!['\n']
    }
}

pub open spec fn has_no_newline(l: Seq<char>) -> bool {
    forall|i: int| 0 <= i < l.len() ==> #[trigger] l[i] != '\n'
}

proof fn lemma_append_plain(s: Seq<char>, l: Seq<char>)
    requires
        has_no_newline(l),
    ensures
        lines_done(s + l) == lines_done(s),
        line_tail(s + l) == line_tail(s) + l,
    decreases l.len(),
{
    if l.len() == 0 {
        assert(s + l =~= s);
        assert(line_tail(s) + l =~= line_tail(s));
    } else {
        let m = l.drop_last();
        assert((s + l).drop_last() =~= s + m);
        assert((s + l).last() == l.last());
        assert(l[l.len() - 1] != '\n');
        lemma_append_plain(s, m);
        assert(line_tail(s) + l =~= (line_tail(s) + m).push(l.last()));
    }
}

/// Splitting what `unlines` joined gives the lines back, and an empty piece.
pub proof fn lemma_split_unlines(ls: Seq<Seq<char>>)
    requires
        forall|k: int| 0 <= k < ls.len() ==> has_no_newline(#[trigger] ls[k]),
    ensures
        lines_done(unlines(ls)) == ls,
        line_tail(unlines(ls)) == Seq::<char>::empty(),
        split_lines(unlines(ls)) == ls.push(Seq::<char>::empty()),
    decreases ls.len(),
{
    if ls.len() > 0 {
        let rest = ls.drop_last();
        assert forall|k: int| 0 <= k < rest.len() implies has_no_newline(#[trigger] rest[k]) by {
            assert(rest[k] == ls[k]);
        }
        lemma_split_unlines(rest);
        let u = unlines(rest);
        let l = ls.last();
        assert(has_no_newline(ls[ls.len() - 1]));
        lemma_append_plain(u, l);
        let t = u + l + seq!['\n'];
        assert(t.drop_last() =~= u + l);
        assert(line_tail(u) + l =~= l);
        assert(rest.push(l) =~= ls);
    }
}

// ---------------------------------------------------------------------------
// Decimal numbers
// ---------------------------------------------------------------------------

pub open spec fn is_digit(c: char) -> bool {
    '0' <= c && c <= '9'
}

pub open spec fn digit_value(c: char) -> int {
    c as int - '0' as int
}

pub open spec fn all_digits(s: Seq<char>) -> bool {
    forall|i: int| 0 <= i < s.len() ==> is_digit(#[trigger] s[i])
}

/// The number that a string of decimal digits denotes.
pub open spec fn digits_value(s: Seq<char>) -> int
    decreases s.len(),
{
    if s.len() == 0 {
        0
    } else {
        digits_value(s.drop_last()) * 10 + digit_value(s.last())
    }
}

/// The sign-free digits after an optional leading `'+'`.
pub open spec fn without_plus(s: Seq<char>) -> Seq<char> {
    if s.len() > 0 && s[0] == '+' {
        s.drop_first()
    } else {
        s
    }
}

/// What `<u16 as FromStr>::from_str` gives: an optional `'+'`, then one or
/// more ASCII digits whose value fits.
pub open spec fn parse_u16(s: Seq<char>) -> Option<u16> {
    let d = without_plus(s);
    if d.len() > 0 && all_digits(d) && digits_value(d) <= u16::MAX {
        Some(digits_value(d) as u16)
    } else {
        None
    }
}

/// What `<i32 as FromStr>::from_str` gives: an optional sign, then one or
/// more ASCII digits whose signed value fits.
pub open spec fn parse_i32(s: Seq<char>) -> Option<i32> {
    if s.len() > 0 && s[0] == '-' {
        let d = s.drop_first();
        if d.len() > 0 && all_digits(d) && digits_value(d) <= 0x8000_0000 {
            Some((-digits_value(d)) as i32)
        } else {
            None
        }
    } else {
        let d = without_plus(s);
        if d.len() > 0 && all_digits(d) && digits_value(d) <= i32::MAX {
            Some(digits_value(d) as i32)
        } else {
            None
        }
    }
}

pub open spec fn digit_char(d: nat) -> char
    recommends
        d < 10,
{
    ('0' as nat + d) as char
}

/// The decimal digits of `n`, without leading zeros (`"0"` for zero).
pub open spec fn nat_decimal(n: nat) -> Seq<char>
    decreases n,
{
    if n < 10 {
        seq![digit_char(n)]
    } else {
        nat_decimal(n / 10).push(digit_char(n % 10))
    }
}

/// What `Display` writes for an integer: a `'-'` before negative numbers.
pub open spec fn int_decimal(n: int) -> Seq<char> {
    if n < 0 {
        seq!['-'] + nat_decimal((-n) as nat)
    } else {
        nat_decimal(n as nat)
    }
}

proof fn lemma_digit_char(d: nat)
    requires
        d < 10,
    ensures
        is_digit(digit_char(d)),
        digit_value(digit_char(d)) == d,
{
}

proof fn lemma_digits_nonneg(s: Seq<char>)
    requires
        all_digits(s),
    ensures
        digits_value(s) >= 0,
    decreases s.len(),
{
    if s.len() > 0 {
        let t = s.drop_last();
        assert forall|i: int| 0 <= i < t.len() implies is_digit(#[trigger] t[i]) by {
            assert(t[i] == s[i]);
        }
        lemma_digits_nonneg(t);
        assert(is_digit(s[s.len() - 1]));
    }
}

/// A digit string is worth at least any of its prefixes.
proof fn lemma_digits_prefix(s: Seq<char>, k: int)
    requires
        all_digits(s),
        0 <= k <= s.len(),
    ensures
        digits_value(s) >= digits_value(s.take(k)),
    decreases s.len(),
{
    if k < s.len() {
        let t = s.drop_last();
        assert forall|i: int| 0 <= i < t.len() implies is_digit(#[trigger] t[i]) by {
            assert(t[i] == s[i]);
        }
        lemma_digits_prefix(t, k);
        assert(t.take(k) =~= s.take(k));
        lemma_digits_nonneg(t);
        assert(is_digit(s[s.len() - 1]));
    } else {
        assert(s.take(k) =~= s);
    }
}

proof fn lemma_nat_decimal(n: nat)
    ensures
        nat_decimal(n).len() > 0,
        all_digits(nat_decimal(n)),
        digits_value(nat_decimal(n)) == n,
    decreases n,
{
    lemma_digit_char(n % 10);
    vstd::arithmetic::div_mod::lemma_fundamental_div_mod(n as int, 10);
    if n >= 10 {
        lemma_nat_decimal(n / 10);
        let s = nat_decimal(n);
        assert(s.drop_last() =~= nat_decimal(n / 10));
        assert(s.last() == digit_char(n % 10));
        assert(digits_value(s) == digits_value(nat_decimal(n / 10)) * 10 + digit_value(digit_char(n % 10)));
        assert(digits_value(s) == (n / 10) * 10 + n % 10);
        assert forall|i: int| 0 <= i < s.len() implies is_digit(#[trigger] s[i]) by {
            if i < s.len() - 1 {
                assert(s[i] == nat_decimal(n / 10)[i]);
            }
        }
    } else {
        lemma_digit_char(n);
        let s = seq![digit_char(n)];
        assert(s.drop_last() =~= Seq::<char>::empty());
        assert(digits_value(s) == digits_value(s.drop_last()) * 10 + digit_value(s.last()));
    }
}

/// Reading back a written `u16` gives it again.
pub proof fn lemma_u16_round_trip(n: u16)
    ensures
        parse_u16(nat_decimal(n as nat)) == Some(n),
{
    lemma_nat_decimal(n as nat);
    let s = nat_decimal(n as nat);
    assert(is_digit(s[0]));
    assert(without_plus(s) == s);
}

/// Reading back a written `i32` gives it again.
pub proof fn lemma_i32_round_trip(n: i32)
    ensures
        parse_i32(int_decimal(n as int)) == Some(n),
{
    if n < 0 {
        let m = (-n) as nat;
        lemma_nat_decimal(m);
        let s = int_decimal(n as int);
        assert(s.drop_first() =~= nat_decimal(m));
    } else {
        lemma_nat_decimal(n as nat);
        let s = nat_decimal(n as nat);
        assert(is_digit(s[0]));
        assert(without_plus(s) == s);
    }
}

/// Written numbers are plain characters: digits and perhaps a leading `'-'`.
pub proof fn lemma_int_decimal_plain(n: int)
    ensures
        int_decimal(n).len() > 0,
        forall|i: int|
            0 <= i < int_decimal(n).len() ==> {
                let c = #[trigger] int_decimal(n)[i];
                is_digit(c) || c == '-'
            },
        is_digit(int_decimal(n).last()),
{
    if n < 0 {
        lemma_nat_decimal((-n) as nat);
        let d = nat_decimal((-n) as nat);
        let s = int_decimal(n);
        assert forall|i: int| 0 <= i < s.len() implies is_digit(#[trigger] s[i]) || s[i] == '-' by {
            if i > 0 {
                assert(s[i] == d[i - 1]);
            }
        }
        assert(s.last() == d.last());
    } else {
        lemma_nat_decimal(n as nat);
    }
}

/// The value of the digits `v[a..b]`, checking them as `from_str` does.
fn read_digits(v: &Vec<char>, a: usize, b: usize, bound: u64) -> (r: Option<u64>)
    requires
        a < b <= v@.len(),
        bound <= 0x1_0000_0000,
    ensures
        r is Some <==> (all_digits(v@.subrange(a as int, b as int)) && digits_value(
            v@.subrange(a as int, b as int),
        ) <= bound),
        r matches Some(x) ==> x as int == digits_value(v@.subrange(a as int, b as int)),
{
    let ghost d = v@.subrange(a as int, b as int);
    let mut acc: u64 = 0;
    let mut i = a;
    while i < b
        invariant
            a <= i <= b <= v@.len(),
            bound <= 0x1_0000_0000,
            d == v@.subrange(a as int, b as int),
            all_digits(d.take(i - a)),
            acc as int == digits_value(d.take(i - a)),
            acc <= bound,
        decreases b - i,
    {
        let c = v[i];
        assert(c == d[i - a]);
        if !('0' <= c && c <= '9') {
            assert(!all_digits(d));
            return None;
        }
        let dv = (c as u32 - '0' as u32) as u64;
        assert(d.take(i - a + 1).drop_last() =~= d.take(i - a));
        assert(d.take(i - a + 1).last() == c);
        assert forall|j: int| 0 <= j < i - a + 1 implies is_digit(#[trigger] d.take(i - a + 1)[j]) by {
            if j < i - a {
                assert(d.take(i - a + 1)[j] == d.take(i - a)[j]);
            }
        }
        acc = acc * 10 + dv;
        i = i + 1;
        if acc > bound {
            proof {
                if all_digits(d) {
                    lemma_digits_prefix(d, i - a);
                }
            }
            return None;
        }
    }
    assert(d.take(i - a) =~= d);
    Some(acc)
}

/// What `<u16 as FromStr>::from_str` gives for `v[a..b]`.
pub fn parse_u16_at(v: &Vec<char>, a: usize, b: usize) -> (r: Option<u16>)
    requires
        a <= b <= v@.len(),
    ensures
        r == parse_u16(v@.subrange(a as int, b as int)),
{
    let ghost s = v@.subrange(a as int, b as int);
    let mut i = a;
    if i < b && v[i] == '+' {
        i = i + 1;
    }
    assert(without_plus(s) =~= v@.subrange(i as int, b as int));
    if i == b {
        return None;
    }
    match read_digits(v, i, b, 0xffff) {
        Some(x) => Some(x as u16),
        None => None,
    }
}

/// What `<i32 as FromStr>::from_str` gives for `v[a..b]`.
pub fn parse_i32_at(v: &Vec<char>, a: usize, b: usize) -> (r: Option<i32>)
    requires
        a <= b <= v@.len(),
    ensures
        r == parse_i32(v@.subrange(a as int, b as int)),
{
    let ghost s = v@.subrange(a as int, b as int);
    if a < b && v[a] == '-' {
        assert(s.drop_first() =~= v@.subrange(a + 1, b as int));
        if a + 1 == b {
            return None;
        }
        match read_digits(v, a + 1, b, 0x8000_0000) {
            Some(x) => Some((0 - (x as i64)) as i32),
            None => None,
        }
    } else {
        let mut i = a;
        if i < b && v[i] == '+' {
            i = i + 1;
        }
        assert(without_plus(s) =~= v@.subrange(i as int, b as int));
        if i == b {
            return None;
        }
        match read_digits(v, i, b, 0x7fff_ffff) {
            Some(x) => Some(x as i32),
            None => None,
        }
    }
}

/// The one-character string of a decimal digit.
fn digit_str(d: u32) -> (s: &'static str)
    requires
        d < 10,
    ensures
        s@ == seq![digit_char(d as nat)],
{
    proof {
        reveal_strlit("0");
        reveal_strlit("1");
        reveal_strlit("2");
        reveal_strlit("3");
        reveal_strlit("4");
        reveal_strlit("5");
        reveal_strlit("6");
        reveal_strlit("7");
        reveal_strlit("8");
        reveal_strlit("9");
    }
    match d {
        0 => "0",
        1 => "1",
        2 => "2",
        3 => "3",
        4 => "4",
        5 => "5",
        6 => "6",
        7 => "7",
        8 => "8",
        _ => "9",
    }
}

/// Appends the decimal digits of `n`.
pub fn push_nat(out: &mut String, n: u32)
    ensures
        final(out)@ == old(out)@ + nat_decimal(n as nat),
    decreases n,
{
    if n >= 10 {
        push_nat(out, n / 10);
    }
    out.append(digit_str(n % 10));
    proof {
        if n >= 10 {
            assert(old(out)@ + nat_decimal(n as nat) =~= old(out)@ + nat_decimal((n / 10) as nat)
                + seq![digit_char((n % 10) as nat)]);
        } else {
            assert(old(out)@ + nat_decimal(n as nat) =~= old(out)@ + seq![digit_char(n as nat)]);
        }
    }
}

/// Appends what `Display` writes for `n`.
pub fn push_i32(out: &mut String, n: i32)
    ensures
        final(out)@ == old(out)@ + int_decimal(n as int),
{
    if n < 0 {
        proof {
            reveal_strlit("-");
        }
        out.append("-");
        let m = (0 - (n as i64)) as u32;
        push_nat(out, m);
        assert(old(out)@ + int_decimal(n as int) =~= old(out)@ + seq!['-'] + nat_decimal(m as nat));
    } else {
        push_nat(out, n as u32);
    }
}

} // verus!
