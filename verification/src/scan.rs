//! Text scanning: characters of a string, lines, whitespace-separated words,
//! trimming, and hexadecimal numbers.
use vstd::prelude::*;
use vstd::std_specs::iter::IteratorSpec;

verus! {

broadcast use vstd::string::axiom_spec_iter, vstd::string::next_postcondition;

/// Unicode `White_Space`, the set of characters `char::is_whitespace` accepts.
pub open spec fn is_ws(c: char) -> bool {
    let v = c as u32;
    ||| 0x09 <= v <= 0x0D
    ||| v == 0x20
    ||| v == 0x85
    ||| v == 0xA0
    ||| v == 0x1680
    ||| 0x2000 <= v <= 0x200A
    ||| v == 0x2028
    ||| v == 0x2029
    ||| v == 0x202F
    ||| v == 0x205F
    ||| v == 0x3000
}

/// `s` begins with `p`.
pub open spec fn starts_with(s: Seq<char>, p: Seq<char>) -> bool {
    p.len() <= s.len() && s.take(p.len() as int) == p
}

/// Position of the first line feed in `s`, or `s.len()` when there is none.
pub open spec fn first_newline(s: Seq<char>) -> nat
    decreases s.len(),
{
    if s.len() == 0 {
        0
    } else if s[0] == '\n' {
        0
    } else {
        1 + first_newline(s.drop_first())
    }
}

/// A line that ended in a line feed loses a carriage return before it.
pub open spec fn strip_cr(line: Seq<char>) -> Seq<char> {
    if line.len() > 0 && line.last() == '\r' {
        line.drop_last()
    } else {
        line
    }
}

/// The lines of `s`: split at each line feed, a carriage return just before it
/// dropped too; a final line feed ends the last line and starts no new one.
pub open spec fn lines(s: Seq<char>) -> Seq<Seq<char>>
    decreases s.len(),
{
    if s.len() == 0 {
        seq![]
    } else {
        let n = first_newline(s);
        proof {
            lemma_first_newline_bound(s);
        }
        if n == s.len() {
            seq![s]
        } else {
            seq![strip_cr(s.take(n as int))] + lines(s.skip(n + 1 as int))
        }
    }
}

/// Length of the run of non-whitespace characters at the start of `s`.
pub open spec fn word_len(s: Seq<char>) -> nat
    decreases s.len(),
{
    if s.len() == 0 || is_ws(s[0]) {
        0
    } else {
        1 + word_len(s.drop_first())
    }
}

/// The maximal runs of non-whitespace characters of `s`, in order.
pub open spec fn tokens(s: Seq<char>) -> Seq<Seq<char>>
    decreases s.len(),
{
    if s.len() == 0 {
        seq![]
    } else if is_ws(s[0]) {
        tokens(s.drop_first())
    } else {
        let n = word_len(s);
        proof {
            lemma_word_len_bound(s);
        }
        seq![s.take(n as int)] + tokens(s.skip(n as int))
    }
}

pub open spec fn trim_start(s: Seq<char>) -> Seq<char>
    decreases s.len(),
{
    if s.len() > 0 && is_ws(s[0]) {
        trim_start(s.drop_first())
    } else {
        s
    }
}

pub open spec fn trim_end(s: Seq<char>) -> Seq<char>
    decreases s.len(),
{
    if s.len() > 0 && is_ws(s.last()) {
        trim_end(s.drop_last())
    } else {
        s
    }
}

/// `s` without leading and trailing whitespace.
pub open spec fn trim(s: Seq<char>) -> Seq<char> {
    trim_end(trim_start(s))
}

/// The value of a hexadecimal digit (either case).
pub open spec fn hex_digit_value(c: char) -> Option<nat> {
    let v = c as u32;
    if 0x30 <= v <= 0x39 {
        Some((v - 0x30) as nat)
    } else if 0x61 <= v <= 0x66 {
        Some((v - 0x61 + 10) as nat)
    } else if 0x41 <= v <= 0x46 {
        Some((v - 0x41 + 10) as nat)
    } else {
        None
    }
}

pub open spec fn all_hex(s: Seq<char>) -> bool {
    forall|i: int| 0 <= i < s.len() ==> (#[trigger] hex_digit_value(s[i])) is Some
}

/// The number the hexadecimal digits `s` spell (invalid digits count as 0).
pub open spec fn hex_value(s: Seq<char>) -> nat
    decreases s.len(),
{
    if s.len() == 0 {
        0
    } else {
        hex_value(s.drop_last()) * 16 + match hex_digit_value(s.last()) {
            Some(d) => d,
            None => 0,
        }
    }
}

/// What `u64::from_str_radix(s, 16)` accepts and gives: an optional `+`, then
/// one or more hexadecimal digits whose value fits in 64 bits.
pub open spec fn parse_hex_u64(s: Seq<char>) -> Option<u64> {
    let digits = if s.len() > 0 && s[0] == '+' { s.drop_first() } else { s };
    if digits.len() == 0 || !all_hex(digits) || hex_value(digits) > u64::MAX {
        None
    } else {
        Some(hex_value(digits) as u64)
    }
}

proof fn lemma_first_newline_at(t: Seq<char>, m: int)
    requires
        0 <= m <= t.len(),
        forall|k: int| 0 <= k < m ==> t[k] != '\n',
        m < t.len() ==> t[m] == '\n',
    ensures
        first_newline(t) == m,
    decreases m,
{
    if m > 0 {
        lemma_first_newline_at(t.drop_first(), m - 1);
    }
}

pub proof fn lemma_word_len_bound(s: Seq<char>)
    ensures
        word_len(s) <= s.len(),
        s.len() > 0 && !is_ws(s[0]) ==> word_len(s) >= 1,
    decreases s.len(),
{
    if s.len() > 0 && !is_ws(s[0]) {
        lemma_word_len_bound(s.drop_first());
    }
}

pub proof fn lemma_first_newline_bound(s: Seq<char>)
    ensures
        first_newline(s) <= s.len(),
    decreases s.len(),
{
    if s.len() > 0 && s[0] != '\n' {
        lemma_first_newline_bound(s.drop_first());
    }
}

proof fn lemma_word_len_at(t: Seq<char>, m: int)
    requires
        0 <= m <= t.len(),
        forall|k: int| 0 <= k < m ==> !is_ws(#[trigger] t[k]),
        m < t.len() ==> is_ws(t[m]),
    ensures
        word_len(t) == m,
    decreases m,
{
    if m > 0 {
        lemma_word_len_at(t.drop_first(), m - 1);
    }
}

proof fn lemma_hex_value_prefix(s: Seq<char>, k: int)
    requires
        0 <= k <= s.len(),
    ensures
        hex_value(s.take(k)) <= hex_value(s),
    decreases s.len(),
{
    if k < s.len() {
        lemma_hex_value_prefix(s.drop_last(), k);
        assert(s.drop_last().take(k) =~= s.take(k));
    } else {
        assert(s.take(k) =~= s);
    }
}

/// The characters of `s`.
pub fn chars_of(s: &str) -> (r: Vec<char>)
    ensures
        r@ == s@,
{
    let mut out: Vec<char> = Vec::new();
    let mut it = s.chars();
    loop
        invariant
            out@ + it.remaining() == s@,
            it.decrease() is Some,
        decreases it.decrease()->0,
    {
        match it.next() {
            Some(c) => {
                out.push(c);
            },
            None => {
                assert(out@ =~= s@);
                return out;
            },
        }
    }
}

/// Whether `c` is whitespace (`char::is_whitespace`).
pub fn is_whitespace(c: char) -> (r: bool)
    ensures
        r == is_ws(c),
{
    let v = c as u32;
    (0x09 <= v && v <= 0x0D) || v == 0x20 || v == 0x85 || v == 0xA0 || v == 0x1680 || (0x2000
        <= v && v <= 0x200A) || v == 0x2028 || v == 0x2029 || v == 0x202F || v == 0x205F || v
        == 0x3000
}

/// The characters `cs[a..b]`.
pub fn copy_range(cs: &[char], a: usize, b: usize) -> (r: Vec<char>)
    requires
        a <= b <= cs@.len(),
    ensures
        r@ == cs@.subrange(a as int, b as int),
{
    let mut out: Vec<char> = Vec::with_capacity(b - a);
    let mut i: usize = a;
    while i < b
        invariant
            a <= i <= b <= cs@.len(),
            out@ == cs@.subrange(a as int, i as int),
        decreases b - i,
    {
        out.push(cs[i]);
        assert(cs@.subrange(a as int, i + 1) =~= cs@.subrange(a as int, i as int).push(cs@[i as int]));
        i += 1;
    }
    out
}

/// Whether `s` begins with `p`.
pub fn has_prefix(s: &[char], p: &[char]) -> (r: bool)
    ensures
        r == starts_with(s@, p@),
{
    if p.len() > s.len() {
        return false;
    }
    let mut i: usize = 0;
    while i < p.len()
        invariant
            p@.len() <= s@.len(),
            i <= p@.len(),
            forall|k: int| 0 <= k < i ==> s@[k] == p@[k],
        decreases p@.len() - i,
    {
        if s[i] != p[i] {
            assert(s@.take(p@.len() as int)[i as int] != p@[i as int]);
            return false;
        }
        i += 1;
    }
    assert(s@.take(p@.len() as int) =~= p@);
    true
}

/// The lines of `cs`, as `str::lines` splits them.
pub fn split_lines(cs: &[char]) -> (r: Vec<Vec<char>>)
    ensures
        r@.len() == lines(cs@).len(),
        forall|k: int| 0 <= k < r@.len() ==> (#[trigger] r@[k])@ == lines(cs@)[k],
{
    let ghost s = cs@;
    let mut out: Vec<Vec<char>> = Vec::new();
    let mut start: usize = 0;
    let mut i: usize = 0;
    assert(s.skip(0) =~= s);
    assert(Seq::new(out@.len(), |k: int| out@[k]@) + lines(s) =~= lines(s));
    while i < cs.len()
        invariant
            s == cs@,
            start <= i <= s.len(),
            forall|k: int| start <= k < i ==> s[k] != '\n',
            lines(s) == Seq::new(out@.len(), |k: int| out@[k]@) + lines(s.skip(start as int)),
        decreases s.len() - i,
    {
        if cs[i] == '\n' {
            let ghost t = s.skip(start as int);
            proof {
                lemma_first_newline_at(t, i - start);
                assert(t.take(i - start) =~= s.subrange(start as int, i as int));
                assert(t.skip(i - start + 1) =~= s.skip(i + 1));
            }
            let line = if i > start && cs[i - 1] == '\r' {
                assert(s.subrange(start as int, i - 1) =~= s.subrange(start as int, i as int).drop_last());
                copy_range(cs, start, i - 1)
            } else {
                copy_range(cs, start, i)
            };
            let ghost prev = Seq::new(out@.len(), |k: int| out@[k]@);
            out.push(line);
            proof {
                assert(Seq::new(out@.len(), |k: int| out@[k]@) =~= prev.push(strip_cr(t.take(i - start))));
                assert(prev + lines(t) =~= prev.push(strip_cr(t.take(i - start))) + lines(s.skip(i + 1)));
            }
            start = i + 1;
        }
        i += 1;
    }
    let ghost prev = Seq::new(out@.len(), |k: int| out@[k]@);
    if start < cs.len() {
        let ghost t = s.skip(start as int);
        proof {
            lemma_first_newline_at(t, t.len() as int);
        }
        let line = copy_range(cs, start, cs.len());
        assert(line@ =~= t);
        out.push(line);
        assert(Seq::new(out@.len(), |k: int| out@[k]@) =~= prev + lines(t));
    } else {
        assert(s.skip(start as int) =~= Seq::<char>::empty());
        assert(prev + lines(s.skip(start as int)) =~= prev);
    }
    out
}

/// The whitespace-separated words of `cs`, as `str::split_whitespace` yields them.
pub fn split_words(cs: &[char]) -> (r: Vec<Vec<char>>)
    ensures
        r@.len() == tokens(cs@).len(),
        forall|k: int| 0 <= k < r@.len() ==> (#[trigger] r@[k])@ == tokens(cs@)[k],
{
    let ghost s = cs@;
    let mut out: Vec<Vec<char>> = Vec::new();
    let mut i: usize = 0;
    assert(s.skip(0) =~= s);
    assert(Seq::new(out@.len(), |k: int| out@[k]@) + tokens(s) =~= tokens(s));
    while i < cs.len()
        invariant
            s == cs@,
            i <= s.len(),
            tokens(s) == Seq::new(out@.len(), |k: int| out@[k]@) + tokens(s.skip(i as int)),
        decreases s.len() - i,
    {
        let ghost prev = Seq::new(out@.len(), |k: int| out@[k]@);
        if is_whitespace(cs[i]) {
            assert(s.skip(i as int).drop_first() =~= s.skip(i + 1));
            i += 1;
        } else {
            let mut j: usize = i + 1;
            while j < cs.len() && !is_whitespace(cs[j])
                invariant
                    s == cs@,
                    i < j <= s.len(),
                    forall|k: int| i <= k < j ==> !is_ws(#[trigger] s[k]),
                decreases s.len() - j,
            {
                j += 1;
            }
            let ghost t = s.skip(i as int);
            proof {
                assert forall|k: int| 0 <= k < j - i implies !is_ws(#[trigger] t[k]) by {
                    assert(t[k] == s[i + k]);
                }
                lemma_word_len_at(t, j - i);
                assert(t.take(j - i) =~= s.subrange(i as int, j as int));
                assert(t.skip(j - i) =~= s.skip(j as int));
            }
            let word = copy_range(cs, i, j);
            out.push(word);
            assert(Seq::new(out@.len(), |k: int| out@[k]@) =~= prev.push(t.take(j - i)));
            assert(prev + tokens(t) =~= prev.push(t.take(j - i)) + tokens(s.skip(j as int)));
            i = j;
        }
    }
    assert(s.skip(i as int) =~= Seq::<char>::empty());
    assert(Seq::new(out@.len(), |k: int| out@[k]@) + tokens(s.skip(i as int)) =~= Seq::new(
        out@.len(),
        |k: int| out@[k]@,
    ));
    out
}

/// The bounds `(a, b)` of `cs` without leading and trailing whitespace.
pub fn trim_bounds(cs: &[char]) -> (r: (usize, usize))
    ensures
        r.0 <= r.1 <= cs@.len(),
        cs@.subrange(r.0 as int, r.1 as int) == trim(cs@),
{
    let ghost s = cs@;
    let mut a: usize = 0;
    assert(s.skip(0) =~= s);
    while a < cs.len() && is_whitespace(cs[a])
        invariant
            s == cs@,
            a <= s.len(),
            trim_start(s) == trim_start(s.skip(a as int)),
        decreases s.len() - a,
    {
        assert(s.skip(a as int).drop_first() =~= s.skip(a + 1));
        a += 1;
    }
    assert(trim_start(s) == s.skip(a as int));
    let mut b: usize = cs.len();
    assert(s.skip(a as int) =~= s.subrange(a as int, b as int));
    while b > a && is_whitespace(cs[b - 1])
        invariant
            s == cs@,
            a <= b <= s.len(),
            trim_end(s.skip(a as int)) == trim_end(s.subrange(a as int, b as int)),
        decreases b,
    {
        assert(s.subrange(a as int, b as int).drop_last() =~= s.subrange(a as int, b - 1));
        b -= 1;
    }
    (a, b)
}

/// The value of the hexadecimal number in `cs[a..b]`, as `u64::from_str_radix`
/// with radix 16 reads it.
pub fn parse_hex(cs: &[char], a: usize, b: usize) -> (r: Option<u64>)
    requires
        a <= b <= cs@.len(),
    ensures
        r == parse_hex_u64(cs@.subrange(a as int, b as int)),
{
    let ghost s = cs@.subrange(a as int, b as int);
    let start: usize = if a < b && cs[a] == '+' { a + 1 } else { a };
    let ghost d = cs@.subrange(start as int, b as int);
    assert(d =~= if s.len() > 0 && s[0] == '+' { s.drop_first() } else { s });
    if start == b {
        return None;
    }
    let mut acc: u64 = 0;
    let mut i: usize = start;
    while i < b
        invariant
            a <= start <= i <= b <= cs@.len(),
            d == cs@.subrange(start as int, b as int),
            s == cs@.subrange(a as int, b as int),
            d == (if s.len() > 0 && s[0] == '+' { s.drop_first() } else { s }),
            forall|k: int| 0 <= k < i - start ==> (#[trigger] hex_digit_value(d[k])) is Some,
            acc == hex_value(d.take(i - start)),
        decreases b - i,
    {
        let c = cs[i];
        let v = c as u32;
        let digit: u64 = if 0x30 <= v && v <= 0x39 {
            (v - 0x30) as u64
        } else if 0x61 <= v && v <= 0x66 {
            (v - 0x61 + 10) as u64
        } else if 0x41 <= v && v <= 0x46 {
            (v - 0x41 + 10) as u64
        } else {
            assert(hex_digit_value(d[i - start]) is None);
            assert(!all_hex(d));
            return None;
        };
        assert(d.take(i - start + 1).drop_last() =~= d.take(i - start));
        assert(hex_value(d.take(i - start + 1)) == acc * 16 + digit);
        if acc > 0x0FFF_FFFF_FFFF_FFFF || acc * 16 > u64::MAX - digit {
            proof {
                lemma_hex_value_prefix(d, i - start + 1);
            }
            assert(hex_value(d) > u64::MAX);
            return None;
        }
        acc = acc * 16 + digit;
        i += 1;
    }
    assert(d.take(b - start) =~= d);
    Some(acc)
}

/// The value of a decimal digit.
pub open spec fn dec_digit_value(c: char) -> Option<nat> {
    let v = c as u32;
    if 0x30 <= v <= 0x39 {
        Some((v - 0x30) as nat)
    } else {
        None
    }
}

pub open spec fn all_dec(s: Seq<char>) -> bool {
    forall|i: int| 0 <= i < s.len() ==> (#[trigger] dec_digit_value(s[i])) is Some
}

/// The number the decimal digits `s` spell (invalid digits count as 0).
pub open spec fn dec_value(s: Seq<char>) -> nat
    decreases s.len(),
{
    if s.len() == 0 {
        0
    } else {
        dec_value(s.drop_last()) * 10 + match dec_digit_value(s.last()) {
            Some(d) => d,
            None => 0,
        }
    }
}

/// What `str::parse::<i32>` accepts and gives: an optional `+` or `-`, then
/// one or more decimal digits whose signed value fits in 32 bits.
pub open spec fn parse_i32_dec(s: Seq<char>) -> Option<i32> {
    let neg = s.len() > 0 && s[0] == '-';
    let digits = if s.len() > 0 && (s[0] == '+' || s[0] == '-') { s.drop_first() } else { s };
    let v: int = if neg { -dec_value(digits) } else { dec_value(digits) as int };
    if digits.len() == 0 || !all_dec(digits) || v < i32::MIN || v > i32::MAX {
        None
    } else {
        Some(v as i32)
    }
}

proof fn lemma_dec_value_prefix(s: Seq<char>, k: int)
    requires
        0 <= k <= s.len(),
    ensures
        dec_value(s.take(k)) <= dec_value(s),
    decreases s.len(),
{
    if k < s.len() {
        lemma_dec_value_prefix(s.drop_last(), k);
        assert(s.drop_last().take(k) =~= s.take(k));
    } else {
        assert(s.take(k) =~= s);
    }
}

/// The `i32` in `cs[a..b]`, as `str::parse::<i32>` reads it.
pub fn parse_i32(cs: &[char], a: usize, b: usize) -> (r: Option<i32>)
    requires
        a <= b <= cs@.len(),
    ensures
        r == parse_i32_dec(cs@.subrange(a as int, b as int)),
{
    let ghost s = cs@.subrange(a as int, b as int);
    let neg = a < b && cs[a] == '-';
    let start: usize = if a < b && (cs[a] == '+' || cs[a] == '-') { a + 1 } else { a };
    let ghost d = cs@.subrange(start as int, b as int);
    assert(d =~= if s.len() > 0 && (s[0] == '+' || s[0] == '-') { s.drop_first() } else { s });
    if start == b {
        return None;
    }
    // The magnitude is accumulated up to 2^31, the largest a negative value allows.
    let mut acc: u64 = 0;
    let mut i: usize = start;
    while i < b
        invariant
            a <= start <= i <= b <= cs@.len(),
            d == cs@.subrange(start as int, b as int),
            s == cs@.subrange(a as int, b as int),
            d == (if s.len() > 0 && (s[0] == '+' || s[0] == '-') { s.drop_first() } else { s }),
            neg == (s.len() > 0 && s[0] == '-'),
            forall|k: int| 0 <= k < i - start ==> (#[trigger] dec_digit_value(d[k])) is Some,
            acc == dec_value(d.take(i - start)),
            acc <= 0x8000_0000,
        decreases b - i,
    {
        let v = cs[i] as u32;
        if v < 0x30 || v > 0x39 {
            assert(dec_digit_value(d[i - start]) is None);
            assert(!all_dec(d));
            return None;
        }
        let digit: u64 = (v - 0x30) as u64;
        assert(d.take(i - start + 1).drop_last() =~= d.take(i - start));
        assert(dec_value(d.take(i - start + 1)) == acc * 10 + digit);
        if acc * 10 + digit > 0x8000_0000 {
            proof {
                lemma_dec_value_prefix(d, i - start + 1);
            }
            assert(dec_value(d) > 0x8000_0000);
            return None;
        }
        acc = acc * 10 + digit;
        i += 1;
    }
    assert(d.take(b - start) =~= d);
    if neg {
        Some((0 - (acc as i64)) as i32)
    } else if acc > 0x7FFF_FFFF {
        None
    } else {
        Some(acc as i32)
    }
}

} // verus!
