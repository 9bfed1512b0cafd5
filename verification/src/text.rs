//! Character-level text handling: Unicode white space, trimming, and
//! decimal integer parsing with the exact acceptance rules of Rust's
//! `str::parse::<i32>()` / `str::parse::<u32>()`.

use vstd::prelude::*;

verus! {

/// The Unicode `White_Space` property, which is what `char::is_whitespace`
/// and therefore `str::trim` go by.
pub open spec fn is_white_space(c: char) -> bool {
    let u = c as u32;
    ||| 0x09 <= u <= 0x0D
    ||| u == 0x20
    ||| u == 0x85
    ||| u == 0xA0
    ||| u == 0x1680
    ||| 0x2000 <= u <= 0x200A
    ||| u == 0x2028
    ||| u == 0x2029
    ||| u == 0x202F
    ||| u == 0x205F
    ||| u == 0x3000
}

/// `s` with its leading white space removed.
pub open spec fn trim_start(s: Seq<char>) -> Seq<char>
    decreases s.len(),
{
    if s.len() > 0 && is_white_space(s[0]) {
        trim_start(s.drop_first())
    } else {
        s
    }
}

/// `s` with its trailing white space removed.
pub open spec fn trim_end(s: Seq<char>) -> Seq<char>
    decreases s.len(),
{
    if s.len() > 0 && is_white_space(s.last()) {
        trim_end(s.drop_last())
    } else {
        s
    }
}

/// `s` with white space removed from both ends, as `str::trim` does.
pub open spec fn trim(s: Seq<char>) -> Seq<char> {
    trim_end(trim_start(s))
}

pub open spec fn is_digit(c: char) -> bool {
    0x30 <= (c as u32) <= 0x39
}

pub open spec fn digit_value(c: char) -> int {
    (c as u32) - 0x30
}

pub open spec fn all_digits(s: Seq<char>) -> bool {
    forall|i: int| 0 <= i < s.len() ==> #[trigger] is_digit(s[i])
}

/// The value of a run of decimal digits, most significant first.
pub open spec fn digits_value(s: Seq<char>) -> nat
    decreases s.len(),
{
    if s.len() == 0 {
        0
    } else {
        (digits_value(s.drop_last()) * 10 + digit_value(s.last())) as nat
    }
}

/// What `str::parse::<i32>()` gives: an optional `+` or `-` sign followed
/// by at least one ASCII digit and nothing else, whose value fits in `i32`.
pub open spec fn parse_i32(s: Seq<char>) -> Option<i32> {
    if s.len() == 0 {
        None
    } else {
        let neg = s[0] == '-';
        let body = if s[0] == '-' || s[0] == '+' {
            s.drop_first()
        } else {
            s
        };
        if body.len() == 0 || !all_digits(body) {
            None
        } else {
            let v: int = if neg {
                -digits_value(body)
            } else {
                digits_value(body) as int
            };
            if i32::MIN <= v <= i32::MAX {
                Some(v as i32)
            } else {
                None
            }
        }
    }
}

/// What `str::parse::<u32>()` gives: an optional `+` sign followed by at
/// least one ASCII digit and nothing else, whose value fits in `u32`.
pub open spec fn parse_u32(s: Seq<char>) -> Option<u32> {
    if s.len() == 0 {
        None
    } else {
        let body = if s[0] == '+' {
            s.drop_first()
        } else {
            s
        };
        if body.len() == 0 || !all_digits(body) {
            None
        } else if digits_value(body) <= u32::MAX {
            Some(digits_value(body) as u32)
        } else {
            None
        }
    }
}

pub open spec fn min_nat(a: nat, b: nat) -> nat {
    if a <= b {
        a
    } else {
        b
    }
}

/// Index of the first `c` in `s`, or `s.len()` when there is none.
pub open spec fn first_index_of(s: Seq<char>, c: char) -> nat
    decreases s.len(),
{
    if s.len() == 0 {
        0
    } else if s[0] == c {
        0
    } else {
        1 + first_index_of(s.drop_first(), c)
    }
}

/// The ASCII digit for `d` (`0 <= d < 10`).
pub open spec fn digit_char(d: nat) -> char {
    (d + 0x30) as char
}

/// The decimal rendering of `n`, without leading zeros.
pub open spec fn decimal(n: nat) -> Seq<char>
    decreases n,
{
    if n < 10 {
        seq![digit_char(n)]
    } else {
        decimal(n / 10).push(digit_char(n % 10))
    }
}

/// How `i32`'s `Display` writes `x`: a `-` for negative values, then the
/// decimal digits of its magnitude.
pub open spec fn render_i32(x: i32) -> Seq<char> {
    if x < 0 {
        seq!['-'] + decimal((-x) as nat)
    } else {
        decimal(x as nat)
    }
}

pub open spec fn all_white_space(s: Seq<char>) -> bool {
    forall|i: int| 0 <= i < s.len() ==> #[trigger] is_white_space(s[i])
}

pub proof fn lemma_decimal(n: nat)
    ensures
        decimal(n).len() >= 1,
        all_digits(decimal(n)),
        digits_value(decimal(n)) == n,
        is_digit(decimal(n)[0]),
        is_digit(decimal(n).last()),
    decreases n,
{
    if n < 10 {
        assert(((n + 0x30) as char) as u32 == n + 0x30);
        assert(decimal(n).drop_last() =~= Seq::<char>::empty());
        assert(digits_value(Seq::<char>::empty()) == 0);
        assert(digit_value(decimal(n).last()) == n);
    } else {
        lemma_decimal(n / 10);
        let c = digit_char(n % 10);
        assert(c as u32 == n % 10 + 0x30);
        lemma_digits_value_push(decimal(n / 10), c);
        assert(n == (n / 10) * 10 + n % 10) by (nonlinear_arith);
    }
}

/// Parsing what `i32`'s `Display` writes gives the value back.
pub proof fn lemma_parse_render_i32(x: i32)
    ensures
        parse_i32(render_i32(x)) == Some(x),
        render_i32(x).len() >= 1,
        !is_white_space(render_i32(x)[0]),
        render_i32(x)[0] != ',',
        is_digit(render_i32(x).last()),
        forall|i: int| 0 <= i < render_i32(x).len() ==> #[trigger] render_i32(x)[i] != ',' && !is_white_space(render_i32(x)[i]),
{
    let r = render_i32(x);
    if x < 0 {
        let m = (-x) as nat;
        lemma_decimal(m);
        assert(r.drop_first() =~= decimal(m));
        assert forall|i: int| 0 <= i < r.len() implies #[trigger] r[i] != ',' && !is_white_space(r[i]) by {
            if i > 0 {
                assert(r[i] == decimal(m)[i - 1]);
                assert(is_digit(decimal(m)[i - 1]));
            }
        }
    } else {
        lemma_decimal(x as nat);
        assert forall|i: int| 0 <= i < r.len() implies #[trigger] r[i] != ',' && !is_white_space(r[i]) by {
            assert(is_digit(r[i]));
        }
    }
}

proof fn lemma_trim_start_ws_prefix(w: Seq<char>, rest: Seq<char>)
    requires
        all_white_space(w),
    ensures
        trim_start(w + rest) == trim_start(rest),
    decreases w.len(),
{
    if w.len() > 0 {
        assert((w + rest)[0] == w[0]);
        assert((w + rest).drop_first() =~= w.drop_first() + rest);
        assert(all_white_space(w.drop_first())) by {
            assert forall|i: int| 0 <= i < w.drop_first().len() implies #[trigger] is_white_space(
                w.drop_first()[i],
            ) by {
                assert(w.drop_first()[i] == w[i + 1]);
            }
        }
        lemma_trim_start_ws_prefix(w.drop_first(), rest);
    } else {
        assert(w + rest =~= rest);
    }
}

proof fn lemma_trim_end_ws_suffix(rest: Seq<char>, w: Seq<char>)
    requires
        all_white_space(w),
    ensures
        trim_end(rest + w) == trim_end(rest),
    decreases w.len(),
{
    if w.len() > 0 {
        assert((rest + w).last() == w.last());
        assert((rest + w).drop_last() =~= rest + w.drop_last());
        assert(all_white_space(w.drop_last())) by {
            assert forall|i: int| 0 <= i < w.drop_last().len() implies #[trigger] is_white_space(
                w.drop_last()[i],
            ) by {
                assert(w.drop_last()[i] == w[i]);
            }
        }
        assert(is_white_space(w[w.len() - 1]));
        lemma_trim_end_ws_suffix(rest, w.drop_last());
    } else {
        assert(rest + w =~= rest);
    }
}

/// Trimming white space that surrounds a core which neither starts nor
/// ends with white space gives the core back.
pub proof fn lemma_trim_padded(w1: Seq<char>, core: Seq<char>, w2: Seq<char>)
    requires
        all_white_space(w1),
        all_white_space(w2),
        core.len() > 0,
        !is_white_space(core[0]),
        !is_white_space(core.last()),
    ensures
        trim(w1 + core + w2) == core,
{
    assert(w1 + core + w2 =~= w1 + (core + w2));
    lemma_trim_start_ws_prefix(w1, core + w2);
    assert((core + w2)[0] == core[0]);
    lemma_trim_end_ws_suffix(core, w2);
    assert(trim(w1 + core + w2) == trim_end(core + w2));
}

pub proof fn lemma_first_index_of(s: Seq<char>, c: char, k: int)
    requires
        0 <= k <= s.len(),
        k < s.len() ==> s[k] == c,
        forall|i: int| 0 <= i < k ==> s[i] != c,
    ensures
        first_index_of(s, c) == k,
    decreases s.len(),
{
    if s.len() > 0 && k > 0 {
        assert forall|i: int| 0 <= i < k - 1 implies s.drop_first()[i] != c by {
            assert(s.drop_first()[i] == s[i + 1]);
        }
        lemma_first_index_of(s.drop_first(), c, k - 1);
    }
}

/// The characters of a string slice, in order.
pub fn chars_of(s: &str) -> (v: Vec<char>)
    ensures
        v@ == s@,
{
    let mut v: Vec<char> = Vec::new();
    for c in it: s.chars()
        invariant
            v@ == it.seq().take(it.index() as int),
            it.seq() == s@,
    {
        v.push(c);
    }
    v
}

/// Whether `c` is Unicode white space (as `char::is_whitespace`).
pub fn is_white_space_char(c: char) -> (r: bool)
    ensures
        r == is_white_space(c),
{
    let u = c as u32;
    (0x09 <= u && u <= 0x0D) || u == 0x20 || u == 0x85 || u == 0xA0 || u == 0x1680 || (0x2000
        <= u && u <= 0x200A) || u == 0x2028 || u == 0x2029 || u == 0x202F || u == 0x205F || u
        == 0x3000
}

/// The bounds of `s[lo..hi]` once white space is trimmed from both ends.
pub fn trim_bounds(s: &Vec<char>, lo: usize, hi: usize) -> (r: (usize, usize))
    requires
        lo <= hi <= s.len(),
    ensures
        lo <= r.0 <= r.1 <= hi,
        trim(s@.subrange(lo as int, hi as int)) == s@.subrange(r.0 as int, r.1 as int),
{
    let mut a = lo;
    while a < hi && is_white_space_char(s[a])
        invariant
            lo <= a <= hi <= s.len(),
            trim_start(s@.subrange(lo as int, hi as int)) == trim_start(
                s@.subrange(a as int, hi as int),
            ),
        decreases hi - a,
    {
        assert(s@.subrange(a as int, hi as int).drop_first() =~= s@.subrange(
            a + 1,
            hi as int,
        ));
        a = a + 1;
    }
    assert(trim_start(s@.subrange(lo as int, hi as int)) == s@.subrange(a as int, hi as int));
    let mut b = hi;
    while b > a && is_white_space_char(s[b - 1])
        invariant
            lo <= a <= b <= hi <= s.len(),
            trim_end(s@.subrange(a as int, hi as int)) == trim_end(
                s@.subrange(a as int, b as int),
            ),
        decreases b - a,
    {
        assert(s@.subrange(a as int, b as int).drop_last() =~= s@.subrange(
            a as int,
            b - 1,
        ));
        b = b - 1;
    }
    (a, b)
}

proof fn lemma_digits_value_push(s: Seq<char>, c: char)
    requires
        is_digit(c),
    ensures
        digits_value(s.push(c)) == digits_value(s) * 10 + digit_value(c),
        all_digits(s) ==> all_digits(s.push(c)),
{
    assert(s.push(c).drop_last() =~= s);
    if all_digits(s) {
        assert forall|i: int| 0 <= i < s.push(c).len() implies #[trigger] is_digit(
            s.push(c)[i],
        ) by {
            if i < s.len() {
                assert(s.push(c)[i] == s[i]);
            }
        }
    }
}

/// The value of the decimal digits `s[lo..hi]`, capped at `cap`; `None`
/// when the range is empty or holds a character that is not a digit.
fn capped_digits_value(s: &Vec<char>, lo: usize, hi: usize, cap: u64) -> (r: Option<u64>)
    requires
        lo <= hi <= s.len(),
        cap <= 0x1_0000_0000,
    ensures
        ({
            let body = s@.subrange(lo as int, hi as int);
            match r {
                Some(v) => body.len() > 0 && all_digits(body) && v == min_nat(
                    digits_value(body),
                    cap as nat,
                ),
                None => body.len() == 0 || !all_digits(body),
            }
        }),
{
    if lo == hi {
        return None;
    }
    let mut acc: u64 = 0;
    let mut j = lo;
    while j < hi
        invariant
            lo <= j <= hi <= s.len(),
            cap <= 0x1_0000_0000,
            all_digits(s@.subrange(lo as int, j as int)),
            acc == min_nat(digits_value(s@.subrange(lo as int, j as int)), cap as nat),
        decreases hi - j,
    {
        let c = s[j];
        let u = c as u32;
        if !(0x30 <= u && u <= 0x39) {
            assert(s@.subrange(lo as int, hi as int)[j - lo] == c);
            assert(!is_digit(s@.subrange(lo as int, hi as int)[j - lo]));
            return None;
        }
        let d = (u - 0x30) as u64;
        proof {
            assert(s@.subrange(lo as int, j + 1) =~= s@.subrange(lo as int, j as int).push(c));
            lemma_digits_value_push(s@.subrange(lo as int, j as int), c);
        }
        let next = acc * 10 + d;
        acc = if next < cap {
            next
        } else {
            cap
        };
        j = j + 1;
    }
    Some(acc)
}

/// Parses `s[lo..hi]` as `str::parse::<i32>()` would.
pub fn parse_i32_range(s: &Vec<char>, lo: usize, hi: usize) -> (r: Option<i32>)
    requires
        lo <= hi <= s.len(),
    ensures
        r == parse_i32(s@.subrange(lo as int, hi as int)),
{
    let ghost t = s@.subrange(lo as int, hi as int);
    if lo == hi {
        return None;
    }
    let first = s[lo];
    let neg = first == '-';
    let start = if first == '-' || first == '+' {
        lo + 1
    } else {
        lo
    };
    assert(t[0] == first);
    assert(s@.subrange(start as int, hi as int) =~= (if first == '-' || first == '+' {
        t.drop_first()
    } else {
        t
    }));
    match capped_digits_value(s, start, hi, 0x8000_0001) {
        None => None,
        Some(v) => {
            if neg {
                if v <= 0x8000_0000 {
                    Some((0 - (v as i64)) as i32)
                } else {
                    None
                }
            } else {
                if v <= 0x7FFF_FFFF {
                    Some(v as i32)
                } else {
                    None
                }
            }
        },
    }
}

/// Parses `s[lo..hi]` as `str::parse::<u32>()` would.
pub fn parse_u32_range(s: &Vec<char>, lo: usize, hi: usize) -> (r: Option<u32>)
    requires
        lo <= hi <= s.len(),
    ensures
        r == parse_u32(s@.subrange(lo as int, hi as int)),
{
    let ghost t = s@.subrange(lo as int, hi as int);
    if lo == hi {
        return None;
    }
    let first = s[lo];
    let start = if first == '+' {
        lo + 1
    } else {
        lo
    };
    assert(t[0] == first);
    assert(s@.subrange(start as int, hi as int) =~= (if first == '+' {
        t.drop_first()
    } else {
        t
    }));
    match capped_digits_value(s, start, hi, 0x1_0000_0000) {
        None => None,
        Some(v) => {
            if v <= 0xFFFF_FFFF {
                Some(v as u32)
            } else {
                None
            }
        },
    }
}

} // verus!
