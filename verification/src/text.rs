//! Character-level helpers: decimal digit strings, fixed-point decimal
//! numbers, and conversions between `str`/`String` and `Vec<char>`.

use vstd::prelude::*;
use vstd::string::StrSliceExecFns;
use vstd::std_specs::iter::IteratorSpec;

verus! {

// ---------------------------------------------------------------------------
// Digits
// ---------------------------------------------------------------------------
pub open spec fn is_digit(c: char) -> bool {
    ('0' as u32) <= (c as u32) && (c as u32) <= ('9' as u32)
}

pub open spec fn digit_val(c: char) -> nat {
    ((c as u32) - ('0' as u32)) as nat
}

/// A non-empty, all-digit character sequence.
pub open spec fn is_digits(s: Seq<char>) -> bool {
    s.len() > 0 && forall|i: int| 0 <= i < s.len() ==> is_digit(#[trigger] s[i])
}

/// The value of a digit string, most significant digit first.
pub open spec fn digits_val(s: Seq<char>) -> nat
    decreases s.len(),
{
    if s.len() == 0 {
        0
    } else {
        digits_val(s.drop_last()) * 10 + digit_val(s.last())
    }
}

proof fn lemma_digits_prefix_le(s: Seq<char>, k: int)
    requires
        0 <= k <= s.len(),
    ensures
        digits_val(s.take(k)) <= digits_val(s),
    decreases s.len() - k,
{
    if k < s.len() {
        assert(s.take(k + 1).drop_last() =~= s.take(k));
        lemma_digits_prefix_le(s, k + 1);
    } else {
        assert(s.take(k) =~= s);
    }
}

/// Parses the digit string `v[from..to]` as an unsigned integer.
/// Returns `None` when the range is empty, holds a non-digit, or the value
/// does not fit in `u64`.
pub fn parse_u64(v: &Vec<char>, from: usize, to: usize) -> (r: Option<u64>)
    requires
        from <= to <= v@.len(),
    ensures
        ({
            let s = v@.subrange(from as int, to as int);
            match r {
                Some(x) => is_digits(s) && x == digits_val(s),
                None => !is_digits(s) || digits_val(s) > u64::MAX,
            }
        }),
{
    let ghost s = v@.subrange(from as int, to as int);
    if from == to {
        return None;
    }
    let mut acc: u64 = 0;
    let mut i: usize = from;
    while i < to
        invariant
            from <= i <= to <= v@.len(),
            s == v@.subrange(from as int, to as int),
            forall|j: int| from <= j < i ==> is_digit(#[trigger] v@[j]),
            acc == digits_val(v@.subrange(from as int, i as int)),
        decreases to - i,
    {
        let c = v[i];
        let cu = c as u32;
        if !(cu >= '0' as u32 && cu <= '9' as u32) {
            assert(s[i - from] == v@[i as int]);
            assert(!is_digit(s[i - from]));
            return None;
        }
        let d: u64 = (cu - '0' as u32) as u64;
        proof {
            assert(v@.subrange(from as int, i + 1).drop_last() =~= v@.subrange(
                from as int,
                i as int,
            ));
            assert(v@.subrange(from as int, i + 1).last() == v@[i as int]);
        }
        if acc > (u64::MAX - d) / 10 {
            proof {
                assert(digits_val(v@.subrange(from as int, i + 1)) > u64::MAX);
                assert(s.take(i + 1 - from) =~= v@.subrange(from as int, i + 1));
                lemma_digits_prefix_le(s, i + 1 - from);
            }
            return None;
        }
        acc = acc * 10 + d;
        i = i + 1;
    }
    proof {
        assert(s =~= v@.subrange(from as int, i as int));
        assert forall|j: int| 0 <= j < s.len() implies is_digit(#[trigger] s[j]) by {
            assert(s[j] == v@[from + j]);
        }
    }
    Some(acc)
}

// ---------------------------------------------------------------------------
// Decimal number grammar: digits, optionally followed by '.' and more digits
// ---------------------------------------------------------------------------
/// Index of the first `'.'` in `s` at or after `i`, or `s.len()` if none.
pub open spec fn first_dot(s: Seq<char>, i: int) -> int
    decreases s.len() - i
        when 0 <= i <= s.len()
{
    if i >= s.len() {
        i
    } else if s[i] == '.' {
        i
    } else {
        first_dot(s, i + 1)
    }
}

pub proof fn lemma_first_dot_props(s: Seq<char>, k: int)
    requires
        0 <= k <= s.len(),
    ensures
        k <= first_dot(s, k) <= s.len(),
        first_dot(s, k) < s.len() ==> s[first_dot(s, k)] == '.',
        forall|j: int| k <= j < first_dot(s, k) ==> s[j] != '.',
    decreases s.len() - k,
{
    if k < s.len() && s[k] != '.' {
        lemma_first_dot_props(s, k + 1);
    }
}

/// An unsigned decimal literal: `digits` or `digits.digits`.
pub open spec fn plain_dec_ok(s: Seq<char>) -> bool {
    let d = first_dot(s, 0);
    if d == s.len() {
        is_digits(s)
    } else {
        0 < d && d + 1 < s.len() && is_digits(s.take(d)) && is_digits(s.skip(d + 1))
    }
}

/// A signed decimal literal: an optional `'-'` or `'+'`, then `plain_dec_ok`.
pub open spec fn dec_ok(s: Seq<char>) -> bool {
    if s.len() > 0 && (s[0] == '-' || s[0] == '+') {
        plain_dec_ok(s.skip(1))
    } else {
        plain_dec_ok(s)
    }
}

/// The value of the first three fractional digits, in thousandths.
/// Fractional digits past the third carry less than a thousandth and are
/// dropped.
pub open spec fn frac_milli(b: Seq<char>) -> nat {
    if b.len() >= 3 {
        digits_val(b.take(3))
    } else if b.len() == 2 {
        digits_val(b) * 10
    } else if b.len() == 1 {
        digits_val(b) * 100
    } else {
        0
    }
}

/// The value of an unsigned decimal literal in thousandths.
pub open spec fn milli_val(s: Seq<char>) -> nat {
    let d = first_dot(s, 0);
    if d == s.len() {
        digits_val(s) * 1000
    } else {
        digits_val(s.take(d)) * 1000 + frac_milli(s.skip(d + 1))
    }
}

/// Parses `v[from..to]` as an unsigned decimal literal into thousandths,
/// keeping the first three fractional digits. Returns `None` when the text
/// is not a decimal literal or the value exceeds `u32::MAX` thousandths.
pub fn parse_milli(v: &Vec<char>, from: usize, to: usize) -> (r: Option<u32>)
    requires
        from <= to <= v@.len(),
    ensures
        ({
            let s = v@.subrange(from as int, to as int);
            match r {
                Some(x) => plain_dec_ok(s) && milli_val(s) <= u32::MAX && x == milli_val(s),
                None => !plain_dec_ok(s) || milli_val(s) > u32::MAX,
            }
        }),
{
    let ghost s = v@.subrange(from as int, to as int);
    proof {
        lemma_first_dot_props(s, 0);
    }
    // find the first dot
    let mut dot: usize = from;
    while dot < to && !(v[dot] == '.')
        invariant
            from <= dot <= to <= v@.len(),
            s == v@.subrange(from as int, to as int),
            forall|j: int| 0 <= j < dot - from ==> s[j] != '.',
        decreases to - dot,
    {
        assert(s[dot - from] == v@[dot as int]);
        dot = dot + 1;
    }
    proof {
        if dot < to {
            assert(s[dot - from] == v@[dot as int]);
        }
        assert(first_dot(s, 0) == dot - from) by {
            lemma_first_dot_step(s, dot - from);
        }
    }
    let int_val = match parse_u64(v, from, dot) {
        Some(x) => x,
        None => {
            proof {
                assert(s.take(dot - from) =~= v@.subrange(from as int, dot as int));
                if dot == to {
                    assert(s.take(dot - from) =~= s);
                }
                lemma_milli_int_large(s);
            }
            return None;
        },
    };
    proof {
        assert(s.take(dot - from) =~= v@.subrange(from as int, dot as int));
    }
    if int_val > (u32::MAX / 1000) as u64 {
        proof {
            lemma_milli_int_large(s);
        }
        return None;
    }
    let mut frac: u64 = 0;
    if dot < to {
        if dot + 1 == to {
            // a trailing dot with no fractional digits
            return None;
        }
        // all fractional characters must be digits
        let mut i: usize = dot + 1;
        while i < to
            invariant
                dot + 1 <= i <= to <= v@.len(),
                from <= dot < to,
                s == v@.subrange(from as int, to as int),
                first_dot(s, 0) == dot - from,
                forall|j: int| dot + 1 - from <= j < i - from ==> is_digit(#[trigger] s[j]),
            decreases to - i,
        {
            let c = v[i];
            let cu = c as u32;
            if !(cu >= '0' as u32 && cu <= '9' as u32) {
                assert(s[i - from] == v@[i as int]);
                assert(!is_digits(s.skip(dot - from + 1))) by {
                    assert(s.skip(dot - from + 1)[i - from - (dot - from + 1)] == s[i - from]);
                }
                return None;
            }
            assert(s[i - from] == v@[i as int]);
            i = i + 1;
        }
        let ghost b = s.skip(dot - from + 1);
        proof {
            assert forall|j: int| 0 <= j < b.len() implies is_digit(#[trigger] b[j]) by {
                assert(b[j] == s[j + dot - from + 1]);
            }
            assert(is_digits(b));
        }
        // value of the first three fractional digits
        let f_end = if to - (dot + 1) >= 3 {
            dot + 4
        } else {
            to
        };
        let ghost bt = v@.subrange(dot + 1, f_end as int);
        proof {
            assert(bt =~= b.take(f_end - (dot + 1)));
            assert forall|j: int| 0 <= j < bt.len() implies is_digit(#[trigger] bt[j]) by {
                assert(bt[j] == b[j]);
            }
            lemma_digits_val_bound(bt);
        }
        let f = match parse_u64(v, dot + 1, f_end) {
            Some(x) => x,
            None => {
                assert(false);
                return None;
            },
        };
        proof {
            if b.len() >= 3 {
                assert(bt =~= b.take(3));
            } else {
                assert(bt =~= b);
            }
        }
        if to - (dot + 1) >= 3 {
            frac = f;
        } else if to - (dot + 1) == 2 {
            frac = f * 10;
        } else {
            frac = f * 100;
        }
        assert(frac == frac_milli(b));
    }
    proof {
        lemma_frac_bound(s);
        if dot < to {
            assert(plain_dec_ok(s));
        } else {
            assert(s.take(dot - from) =~= s);
            assert(plain_dec_ok(s));
        }
    }
    let milli: u64 = int_val * 1000 + frac;
    if milli > u32::MAX as u64 {
        return None;
    }
    Some(milli as u32)
}

proof fn lemma_first_dot_step(s: Seq<char>, k: int)
    requires
        0 <= k <= s.len(),
        forall|j: int| 0 <= j < k ==> s[j] != '.',
        k < s.len() ==> s[k] == '.',
    ensures
        first_dot(s, 0) == k,
    decreases s.len(),
{
    lemma_first_dot_pin(s, 0, k);
}

proof fn lemma_first_dot_pin(s: Seq<char>, i: int, k: int)
    requires
        0 <= i <= k <= s.len(),
        forall|j: int| i <= j < k ==> s[j] != '.',
        k < s.len() ==> s[k] == '.',
    ensures
        first_dot(s, i) == k,
    decreases s.len() - i,
{
    if i < k {
        lemma_first_dot_pin(s, i + 1, k);
    }
}

/// If the integer part exceeds `u32::MAX / 1000`, the whole value in
/// thousandths exceeds `u32::MAX`.
proof fn lemma_milli_int_large(s: Seq<char>)
    ensures
        ({
            let d = first_dot(s, 0);
            let ip = if d == s.len() {
                s
            } else {
                s.take(d)
            };
            digits_val(ip) > (u32::MAX / 1000) as nat ==> milli_val(s) > u32::MAX
        }),
{
    lemma_first_dot_props(s, 0);
}

proof fn lemma_frac_milli_bound(b: Seq<char>)
    requires
        is_digits(b) || b.len() == 0,
    ensures
        frac_milli(b) < 1000,
{
    if b.len() >= 3 {
        lemma_digits_val_bound(b.take(3));
    } else if b.len() == 2 {
        lemma_digits_val_bound(b);
    } else if b.len() == 1 {
        lemma_digits_val_bound(b);
    }
}

/// A digit string of length n has value < 10^n (stated for n <= 3).
proof fn lemma_digits_val_bound(s: Seq<char>)
    requires
        forall|i: int| 0 <= i < s.len() ==> is_digit(#[trigger] s[i]),
        s.len() <= 3,
    ensures
        s.len() <= 1 ==> digits_val(s) < 10,
        s.len() <= 2 ==> digits_val(s) < 100,
        s.len() <= 3 ==> digits_val(s) < 1000,
    decreases s.len(),
{
    if s.len() > 0 {
        lemma_digits_val_bound(s.drop_last());
    }
}

// ---------------------------------------------------------------------------
// Canonical form of a signed decimal literal
// ---------------------------------------------------------------------------
/// Drops redundant leading zeros of the integer part: a `'0'` is dropped
/// while another digit follows it.
pub open spec fn strip_zeros(s: Seq<char>) -> Seq<char>
    decreases s.len(),
{
    if s.len() >= 2 && s[0] == '0' && is_digit(s[1]) {
        strip_zeros(s.skip(1))
    } else {
        s
    }
}

/// The canonical text of a signed decimal literal: a `'+'` sign is dropped,
/// a `'-'` sign is kept, and redundant leading zeros are removed.
pub open spec fn dec_canon(s: Seq<char>) -> Seq<char> {
    if s.len() > 0 && s[0] == '-' {
        seq!['-'] + strip_zeros(s.skip(1))
    } else if s.len() > 0 && s[0] == '+' {
        strip_zeros(s.skip(1))
    } else {
        strip_zeros(s)
    }
}

/// Validates `v[from..to]` as a signed decimal literal and returns its
/// canonical text, or `None` when the text is not a decimal literal.
pub fn canon_decimal(v: &Vec<char>, from: usize, to: usize) -> (r: Option<Vec<char>>)
    requires
        from <= to <= v@.len(),
    ensures
        ({
            let s = v@.subrange(from as int, to as int);
            match r {
                Some(c) => dec_ok(s) && c@ == dec_canon(s),
                None => !dec_ok(s),
            }
        }),
{
    let ghost s = v@.subrange(from as int, to as int);
    if from == to {
        return None;
    }
    let c0 = v[from];
    assert(s[0] == v@[from as int]);
    let neg = c0 == '-';
    let signed = neg || c0 == '+';
    let st = if signed {
        from + 1
    } else {
        from
    };
    let ghost p = v@.subrange(st as int, to as int);
    proof {
        if signed {
            assert(p =~= s.skip(1));
        } else {
            assert(p =~= s);
        }
    }
    let ok = check_plain_dec(v, st, to);
    if !ok {
        return None;
    }
    // strip leading zeros
    let mut z: usize = st;
    let mut stop = false;
    while to - z > 1 && !stop
        invariant
            st <= z <= to <= v@.len(),
            p == v@.subrange(st as int, to as int),
            strip_zeros(p) == strip_zeros(v@.subrange(z as int, to as int)),
            stop ==> strip_zeros(v@.subrange(z as int, to as int)) == v@.subrange(
                z as int,
                to as int,
            ),
        decreases to - z, (if stop {
            0int
        } else {
            1int
        }),
    {
        let ghost q = v@.subrange(z as int, to as int);
        proof {
            assert(q[0] == v@[z as int]);
            assert(q[1] == v@[z + 1]);
        }
        let c1 = v[z];
        let c2u = v[z + 1] as u32;
        if c1 == '0' && c2u >= '0' as u32 && c2u <= '9' as u32 {
            proof {
                assert(q.skip(1) =~= v@.subrange(z + 1, to as int));
            }
            z = z + 1;
        } else {
            stop = true;
        }
    }
    proof {
        let q = v@.subrange(z as int, to as int);
        if !stop && q.len() >= 2 {
            assert(q[0] == v@[z as int]);
            assert(q[1] == v@[z + 1]);
        }
        assert(strip_zeros(q) == q);
    }
    let mut out: Vec<char> = Vec::new();
    if neg {
        out.push('-');
    }
    let mut i: usize = z;
    while i < to
        invariant
            z <= i <= to <= v@.len(),
            out@ == (if neg {
                seq!['-']
            } else {
                Seq::<char>::empty()
            }) + v@.subrange(z as int, i as int),
        decreases to - i,
    {
        let c = v[i];
        out.push(c);
        proof {
            assert(v@.subrange(z as int, i + 1) =~= v@.subrange(z as int, i as int).push(
                v@[i as int],
            ));
        }
        i = i + 1;
    }
    proof {
        assert(dec_canon(s) == out@);
    }
    Some(out)
}

/// Whether `v[from..to]` matches the unsigned decimal grammar.
fn check_plain_dec(v: &Vec<char>, from: usize, to: usize) -> (r: bool)
    requires
        from <= to <= v@.len(),
    ensures
        r == plain_dec_ok(v@.subrange(from as int, to as int)),
{
    let ghost s = v@.subrange(from as int, to as int);
    proof {
        lemma_first_dot_props(s, 0);
    }
    // find the first dot
    let mut dot: usize = from;
    while dot < to && !(v[dot] == '.')
        invariant
            from <= dot <= to <= v@.len(),
            s == v@.subrange(from as int, to as int),
            forall|j: int| 0 <= j < dot - from ==> s[j] != '.',
        decreases to - dot,
    {
        assert(s[dot - from] == v@[dot as int]);
        dot = dot + 1;
    }
    proof {
        if dot < to {
            assert(s[dot - from] == v@[dot as int]);
        }
        lemma_first_dot_step(s, dot - from);
    }
    proof {
        assert(s.take(dot - from) =~= v@.subrange(from as int, dot as int));
        if dot == to {
            assert(s.take(dot - from) =~= s);
        }
    }
    if !check_digits(v, from, dot) {
        return false;
    }
    if dot == to {
        return true;
    }
    if dot + 1 == to {
        return false;
    }
    if dot == from {
        return false;
    }
    proof {
        assert(s.skip(dot - from + 1) =~= v@.subrange(dot + 1, to as int));
    }
    check_digits(v, dot + 1, to)
}

/// Whether `v[from..to]` is a non-empty run of digits.
fn check_digits(v: &Vec<char>, from: usize, to: usize) -> (r: bool)
    requires
        from <= to <= v@.len(),
    ensures
        r == is_digits(v@.subrange(from as int, to as int)),
{
    let ghost s = v@.subrange(from as int, to as int);
    if from == to {
        return false;
    }
    let mut i: usize = from;
    while i < to
        invariant
            from <= i <= to <= v@.len(),
            s == v@.subrange(from as int, to as int),
            forall|j: int| 0 <= j < i - from ==> is_digit(#[trigger] s[j]),
        decreases to - i,
    {
        let cu = v[i] as u32;
        assert(s[i - from] == v@[i as int]);
        if !(cu >= '0' as u32 && cu <= '9' as u32) {
            return false;
        }
        i = i + 1;
    }
    true
}

// ---------------------------------------------------------------------------
// Formatting
// ---------------------------------------------------------------------------
pub open spec fn digit_char(d: nat) -> char {
    if d == 0 {
        '0'
    } else if d == 1 {
        '1'
    } else if d == 2 {
        '2'
    } else if d == 3 {
        '3'
    } else if d == 4 {
        '4'
    } else if d == 5 {
        '5'
    } else if d == 6 {
        '6'
    } else if d == 7 {
        '7'
    } else if d == 8 {
        '8'
    } else {
        '9'
    }
}

/// The decimal digit string of `n`, most significant digit first.
pub open spec fn u64_chars(n: nat) -> Seq<char>
    decreases n,
{
    if n < 10 {
        seq![digit_char(n)]
    } else {
        u64_chars(n / 10) + seq![digit_char(n % 10)]
    }
}

/// The character of a single decimal digit.
pub fn digit_to_char(d: u64) -> (r: char)
    requires
        d < 10,
    ensures
        r == digit_char(d as nat),
{
    if d == 0 {
        '0'
    } else if d == 1 {
        '1'
    } else if d == 2 {
        '2'
    } else if d == 3 {
        '3'
    } else if d == 4 {
        '4'
    } else if d == 5 {
        '5'
    } else if d == 6 {
        '6'
    } else if d == 7 {
        '7'
    } else if d == 8 {
        '8'
    } else {
        '9'
    }
}

/// Formats an unsigned integer in decimal.
pub fn fmt_u64(n: u64) -> (r: Vec<char>)
    ensures
        r@ == u64_chars(n as nat),
    decreases n,
{
    if n < 10 {
        let c = digit_to_char(n);
        let mut r: Vec<char> = Vec::new();
        r.push(c);
        assert(r@ =~= u64_chars(n as nat));
        r
    } else {
        let mut r = fmt_u64(n / 10);
        let c = digit_to_char(n % 10);
        r.push(c);
        assert(r@ =~= u64_chars(n as nat));
        r
    }
}

/// The decimal text of a heart-rate value held in thousandths of a unit:
/// the integer part, a dot, then the fractional digits with trailing zeros
/// removed (at least one fractional digit is kept).
pub open spec fn milli_chars(m: nat) -> Seq<char> {
    let f = m % 1000;
    let d1 = f / 100;
    let d2 = (f / 10) % 10;
    let d3 = f % 10;
    u64_chars(m / 1000) + seq!['.'] + (if f == 0 {
        seq!['0']
    } else if d3 != 0 {
        seq![digit_char(d1), digit_char(d2), digit_char(d3)]
    } else if d2 != 0 {
        seq![digit_char(d1), digit_char(d2)]
    } else {
        seq![digit_char(d1)]
    })
}

/// Formats a value held in thousandths as decimal text.
pub fn fmt_milli(m: u32) -> (r: Vec<char>)
    ensures
        r@ == milli_chars(m as nat),
{
    let mut r = fmt_u64((m / 1000) as u64);
    r.push('.');
    let f = m % 1000;
    if f == 0 {
        r.push('0');
    } else {
        let d1 = (f / 100) as u64;
        let d2 = ((f / 10) % 10) as u64;
        let d3 = (f % 10) as u64;
        r.push(digit_to_char(d1));
        if d3 != 0 {
            r.push(digit_to_char(d2));
            r.push(digit_to_char(d3));
        } else if d2 != 0 {
            r.push(digit_to_char(d2));
        }
    }
    assert(r@ =~= milli_chars(m as nat));
    r
}

// ---------------------------------------------------------------------------
// Conversions between `str`/`String` and `Vec<char>`
// ---------------------------------------------------------------------------
/// The characters of a string slice, as a vector.
pub fn chars_of(s: &str) -> (r: Vec<char>)
    ensures
        r@ == s@,
{
    broadcast use vstd::string::group_string_axioms;

    let mut it = s.chars();
    let mut r: Vec<char> = Vec::new();
    loop
        invariant
            it.obeys_prophetic_iter_laws(),
            it.decrease() is Some,
            r@ + it.remaining() == s@,
        decreases it.decrease()->0,
    {
        match it.next() {
            Some(c) => {
                r.push(c);
            },
            None => {
                assert(r@ =~= s@);
                return r;
            },
        }
    }
}

/// Relies on `String`'s `FromIterator<char>` implementation: collecting
/// characters yields the string of exactly those characters, in order.
#[verifier::external_body]
pub fn string_from_chars(v: &Vec<char>) -> (r: String)
    ensures
        r@ == v@,
{
    v.iter().collect()
}

/// Whether the characters `v[from..to]` equal the string `s`.
pub fn range_eq_str(v: &Vec<char>, from: usize, to: usize, s: &str) -> (r: bool)
    requires
        from <= to <= v@.len(),
    ensures
        r == (v@.subrange(from as int, to as int) == s@),
{
    let ghost sub = v@.subrange(from as int, to as int);
    let n = s.unicode_len();
    if n != to - from {
        return false;
    }
    let mut i: usize = 0;
    while i < n
        invariant
            0 <= i <= n,
            n == s@.len(),
            n == to - from,
            from <= to <= v@.len(),
            sub == v@.subrange(from as int, to as int),
            forall|j: int| 0 <= j < i ==> sub[j] == s@[j],
        decreases n - i,
    {
        let a = v[from + i];
        let b = s.get_char(i);
        assert(sub[i as int] == v@[from + i]);
        if a != b {
            return false;
        }
        i = i + 1;
    }
    proof {
        assert(sub =~= s@);
    }
    true
}

/// Whether two character vectors hold the same characters.
pub fn chars_eq_chars(a: &Vec<char>, b: &Vec<char>) -> (r: bool)
    ensures
        r == (a@ == b@),
{
    if a.len() != b.len() {
        return false;
    }
    let mut i: usize = 0;
    while i < a.len()
        invariant
            0 <= i <= a@.len(),
            a@.len() == b@.len(),
            forall|j: int| 0 <= j < i ==> a@[j] == b@[j],
        decreases a@.len() - i,
    {
        if a[i] != b[i] {
            return false;
        }
        i = i + 1;
    }
    proof {
        assert(a@ =~= b@);
    }
    true
}

/// Whether the characters of `v` equal the string `s`.
pub fn chars_eq_str(v: &Vec<char>, s: &str) -> (r: bool)
    ensures
        r == (v@ == s@),
{
    let r = range_eq_str(v, 0, v.len(), s);
    proof {
        assert(v@.subrange(0, v@.len() as int) =~= v@);
    }
    r
}

proof fn lemma_frac_bound(s: Seq<char>)
    ensures
        ({
            let d = first_dot(s, 0);
            d < s.len() && (is_digits(s.skip(d + 1)) || s.skip(d + 1).len() == 0)
                ==> milli_val(s) == digits_val(s.take(d)) * 1000 + frac_milli(s.skip(d + 1))
                && frac_milli(s.skip(d + 1)) < 1000
        }),
{
    lemma_first_dot_props(s, 0);
    let d = first_dot(s, 0);
    if d < s.len() && (is_digits(s.skip(d + 1)) || s.skip(d + 1).len() == 0) {
        lemma_frac_milli_bound(s.skip(d + 1));
    }
}

} // verus!
