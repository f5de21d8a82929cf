use vstd::prelude::*;

use crate::rect::fits_i32;

verus! {

/// Index of the first '/' at or after `i`, or the length where there is none.
pub open spec fn slash_from(s: Seq<char>, i: int) -> int
    decreases s.len() - i,
{
    if i >= s.len() {
        s.len() as int
    } else if s[i] == '/' {
        i
    } else {
        slash_from(s, i + 1)
    }
}

/// Where the `k`-th '/'-separated segment of `s` starts, if it exists.
pub open spec fn segment_start(s: Seq<char>, k: nat) -> Option<int>
    decreases k,
{
    if k == 0 {
        Some(0)
    } else {
        match segment_start(s, (k - 1) as nat) {
            Some(p) => {
                let e = slash_from(s, p);
                if e < s.len() {
                    Some(e + 1)
                } else {
                    None
                }
            },
            None => None,
        }
    }
}

/// The `k`-th '/'-separated segment of `s`; empty where there is none.
pub open spec fn segment(s: Seq<char>, k: nat) -> Seq<char> {
    match segment_start(s, k) {
        Some(p) => s.subrange(p, slash_from(s, p)),
        None => Seq::empty(),
    }
}

/// Everything from the `k`-th segment on, separators kept; empty where
/// there is no such segment.
pub open spec fn tail_from(s: Seq<char>, k: nat) -> Seq<char> {
    match segment_start(s, k) {
        Some(p) => s.subrange(p, s.len() as int),
        None => Seq::empty(),
    }
}

pub open spec fn is_digit(c: char) -> bool {
    '0' <= c <= '9'
}

pub open spec fn digit_value(c: char) -> int {
    (c as u32) - ('0' as u32)
}

/// The value of a string of decimal digits.
pub open spec fn digits_value(s: Seq<char>) -> int
    decreases s.len(),
{
    if s.len() == 0 {
        0
    } else {
        digits_value(s.drop_last()) * 10 + digit_value(s.last())
    }
}

pub open spec fn all_digits(s: Seq<char>) -> bool {
    s.len() > 0 && forall|i: int| 0 <= i < s.len() ==> is_digit(#[trigger] s[i])
}

/// A decimal integer with an optional sign, as `str::parse` reads it.
pub open spec fn parse_int(s: Seq<char>) -> Option<int> {
    if s.len() > 0 && s[0] == '-' {
        if all_digits(s.skip(1)) {
            Some(-digits_value(s.skip(1)))
        } else {
            None
        }
    } else if s.len() > 0 && s[0] == '+' {
        if all_digits(s.skip(1)) {
            Some(digits_value(s.skip(1)))
        } else {
            None
        }
    } else if all_digits(s) {
        Some(digits_value(s))
    } else {
        None
    }
}

/// A numeric field of an open path: its value where it reads as an `i32`,
/// else zero.
pub open spec fn field_value(s: Seq<char>) -> int {
    match parse_int(s) {
        Some(v) => if fits_i32(v) {
            v
        } else {
            0
        },
        None => 0,
    }
}

/// The fields of an open path `/<x>/<y>/<width>/<height>/<title...>`.
pub struct OpenPath {
    pub x: i32,
    pub y: i32,
    pub w: i32,
    pub h: i32,
    pub title: Vec<char>,
}

/// Saturation bound of the digit accumulator: above every `i32` magnitude.
const DIGIT_CAP: i64 = 0x1_0000_0000;

/// Index of the first '/' at or after `i`.
fn find_slash(s: &Vec<char>, i: usize) -> (r: usize)
    requires
        i <= s@.len(),
    ensures
        r == slash_from(s@, i as int),
        i <= r <= s@.len(),
{
    let mut j = i;
    while j < s.len()
        invariant
            i <= j <= s@.len(),
            slash_from(s@, i as int) == slash_from(s@, j as int),
        decreases s@.len() - j,
    {
        if s[j] == '/' {
            return j;
        }
        j = j + 1;
    }
    j
}

/// The value of the digits `s[from..to]`, capped at `DIGIT_CAP`.
fn digits_capped(s: &Vec<char>, from: usize, to: usize) -> (r: i64)
    requires
        from <= to <= s@.len(),
        forall|k: int| from <= k < to ==> is_digit(#[trigger] s@[k]),
    ensures
        0 <= r <= DIGIT_CAP,
        r == if digits_value(s@.subrange(from as int, to as int)) < DIGIT_CAP {
            digits_value(s@.subrange(from as int, to as int))
        } else {
            DIGIT_CAP as int
        },
{
    let mut acc: i64 = 0;
    let mut j = from;
    while j < to
        invariant
            from <= j <= to <= s@.len(),
            0 <= acc <= DIGIT_CAP,
            acc == if digits_value(s@.subrange(from as int, j as int)) < DIGIT_CAP {
                digits_value(s@.subrange(from as int, j as int))
            } else {
                DIGIT_CAP as int
            },
            forall|k: int| from <= k < to ==> is_digit(#[trigger] s@[k]),
        decreases to - j,
    {
        let ghost prev = s@.subrange(from as int, j as int);
        let ghost next = s@.subrange(from as int, j + 1);
        assert(next.drop_last() =~= prev);
        assert(is_digit(s@[j as int]));
        let d = (s[j] as u32 - '0' as u32) as i64;
        proof { lemma_digits_nonneg(prev); }
        assert(digits_value(next) == digits_value(prev) * 10 + d);
        let v = acc * 10 + d;
        acc = if v < DIGIT_CAP { v } else { DIGIT_CAP };
        j = j + 1;
    }
    acc
}

proof fn lemma_digits_nonneg(s: Seq<char>)
    requires
        forall|i: int| 0 <= i < s.len() ==> is_digit(#[trigger] s[i]),
    ensures
        digits_value(s) >= 0,
    decreases s.len(),
{
    if s.len() > 0 {
        lemma_digits_nonneg(s.drop_last());
    }
}

/// Reads `s[from..to]` as a numeric field of an open path.
fn parse_field(s: &Vec<char>, from: usize, to: usize) -> (r: i32)
    requires
        from <= to <= s@.len(),
    ensures
        r == field_value(s@.subrange(from as int, to as int)),
{
    let ghost t = s@.subrange(from as int, to as int);
    if from == to {
        return 0;
    }
    let first = s[from];
    assert(t[0] == first);
    let start = if first == '-' || first == '+' { from + 1 } else { from };
    assert(s@.subrange(start as int, to as int) =~= if start > from { t.skip(1) } else { t });
    if start == to {
        return 0;
    }
    let mut j = start;
    while j < to
        invariant
            start <= j <= to <= s@.len(),
            from < to,
            t == s@.subrange(from as int, to as int),
            first == s@[from as int],
            start == if first == '-' || first == '+' { from + 1 } else { from as int },
            forall|k: int| start <= k < j ==> is_digit(#[trigger] s@[k]),
        decreases to - j,
    {
        if !(s[j] >= '0' && s[j] <= '9') {
            let ghost body = s@.subrange(start as int, to as int);
            assert(!is_digit(body[j - start]));
            assert(!all_digits(body));
            if start > from {
                assert(body =~= t.skip(1));
            } else {
                assert(body =~= t);
            }
            assert(parse_int(t) is None);
            return 0;
        }
        j = j + 1;
    }
    assert(all_digits(s@.subrange(start as int, to as int)));
    let v = digits_capped(s, start, to);
    proof { lemma_digits_nonneg(s@.subrange(start as int, to as int)); }
    if first == '-' {
        if v <= 0x8000_0000 {
            (-v) as i32
        } else {
            0
        }
    } else {
        if v <= 0x7fff_ffff {
            v as i32
        } else {
            0
        }
    }
}

/// Splits an open path into its geometry and title. Missing or malformed
/// numeric fields read as zero; the title is the rest of the path, '/'
/// separators kept.
pub fn parse_open_path(path: &Vec<char>) -> (r: OpenPath)
    ensures
        r.x == field_value(segment(path@, 1)),
        r.y == field_value(segment(path@, 2)),
        r.w == field_value(segment(path@, 3)),
        r.h == field_value(segment(path@, 4)),
        r.title@ == tail_from(path@, 5),
{
    let ghost s = path@;
    let n = path.len();
    let e0 = find_slash(path, 0);
    let mut fields: Vec<i32> = Vec::new();
    let mut start: Option<usize> = if e0 < n { Some(e0 + 1) } else { None };
    assert(segment_start(s, 0) == Some(0int));
    assert(segment_start(s, 1) == if e0 < n { Some(e0 + 1) } else { None::<int> });
    let mut k: usize = 1;
    while k < 5
        invariant
            1 <= k <= 5,
            path@ == s,
            n == s.len(),
            fields@.len() == k - 1,
            forall|m: nat| 1 <= m < k ==> fields@[m - 1] == field_value(#[trigger] segment(s, m)),
            match start {
                Some(p) => segment_start(s, k as nat) == Some(p as int) && p <= n,
                None => segment_start(s, k as nat) is None,
            },
        decreases 5 - k,
    {
        match start {
            Some(p) => {
                let e = find_slash(path, p);
                fields.push(parse_field(path, p, e));
                start = if e < n { Some(e + 1) } else { None };
            },
            None => {
                assert(segment(s, k as nat) =~= Seq::<char>::empty());
                assert(parse_int(Seq::<char>::empty()) is None);
                fields.push(0);
            },
        }
        k = k + 1;
    }
    let mut title: Vec<char> = Vec::new();
    match start {
        Some(p) => {
            let mut j = p;
            while j < n
                invariant
                    p <= j <= n,
                    n == path@.len(),
                    title@ == path@.subrange(p as int, j as int),
                decreases n - j,
            {
                title.push(path[j]);
                j = j + 1;
            }
        },
        None => {},
    }
    assert(fields@[0] == field_value(segment(s, 1)));
    assert(fields@[1] == field_value(segment(s, 2)));
    assert(fields@[2] == field_value(segment(s, 3)));
    assert(fields@[3] == field_value(segment(s, 4)));
    OpenPath { x: fields[0], y: fields[1], w: fields[2], h: fields[3], title }
}

pub open spec fn digit_char(d: int) -> char {
    if d == 0 {
        '0'
    } else if d == 1 {
        '1'
    } else if d == 2 {
        '2'
    } else if d == 3 {
        '3'
    } else if d == 4 {
        '4'
    } else if d == 5 {
        '5'
    } else if d == 6 {
        '6'
    } else if d == 7 {
        '7'
    } else if d == 8 {
        '8'
    } else {
        '9'
    }
}

/// The decimal digits of `n`, most significant first.
pub open spec fn nat_digits(n: nat) -> Seq<char>
    decreases n,
{
    if n < 10 {
        seq![digit_char(n as int)]
    } else {
        nat_digits(n / 10).push(digit_char((n % 10) as int))
    }
}

/// The decimal text of `v`, with a leading '-' where it is negative.
pub open spec fn decimal(v: int) -> Seq<char> {
    if v < 0 {
        seq!['-'] + nat_digits((-v) as nat)
    } else {
        nat_digits(v as nat)
    }
}

fn push_digit(out: &mut Vec<char>, d: u64)
    requires
        d < 10,
    ensures
        final(out)@ == old(out)@.push(digit_char(d as int)),
{
    let c = if d == 0 {
        '0'
    } else if d == 1 {
        '1'
    } else if d == 2 {
        '2'
    } else if d == 3 {
        '3'
    } else if d == 4 {
        '4'
    } else if d == 5 {
        '5'
    } else if d == 6 {
        '6'
    } else if d == 7 {
        '7'
    } else if d == 8 {
        '8'
    } else {
        '9'
    };
    out.push(c);
}

fn push_nat(out: &mut Vec<char>, n: u64)
    ensures
        final(out)@ == old(out)@ + nat_digits(n as nat),
    decreases n,
{
    if n >= 10 {
        push_nat(out, n / 10);
        push_digit(out, n % 10);
        assert(final(out)@ =~= old(out)@ + nat_digits(n as nat));
    } else {
        push_digit(out, n);
        assert(final(out)@ =~= old(out)@ + nat_digits(n as nat));
    }
}

/// Appends the decimal text of `v`.
pub fn push_decimal(out: &mut Vec<char>, v: i32)
    ensures
        final(out)@ == old(out)@ + decimal(v as int),
{
    if v < 0 {
        out.push('-');
        let m = (-(v as i64)) as u64;
        push_nat(out, m);
        assert(final(out)@ =~= old(out)@ + decimal(v as int));
    } else {
        push_nat(out, v as u64);
    }
}

} // verus!
