//! Decimal parsing and rendering on byte sequences.
//!
//! The port reaper reads process identifiers out of the textual output of
//! OS tooling, and renders port numbers into the argument strings it hands
//! back to that tooling. Both directions are verified here: parsing follows
//! Rust's `i32` decimal grammar (optional sign, digits, range check) applied
//! to a whitespace-trimmed line, and rendering produces the canonical
//! decimal digits of a number.

use vstd::prelude::*;

verus! {

/// An ASCII whitespace byte, as `str::trim` removes at a line's ends.
pub open spec fn is_ws_byte(b: u8) -> bool {
    b == 32 || (9 <= b && b <= 13)
}

/// An ASCII decimal digit byte.
pub open spec fn is_digit_byte(b: u8) -> bool {
    48 <= b && b <= 57
}

/// Numeric value of a digit byte.
pub open spec fn digit_val(b: u8) -> int {
    b - 48
}

/// Every byte of `s` is a decimal digit.
pub open spec fn all_digits(s: Seq<u8>) -> bool {
    forall|i: int| 0 <= i < s.len() ==> is_digit_byte(s[i])
}

/// Value of a digit string read in base 10.
pub open spec fn digits_value(s: Seq<u8>) -> int
    decreases s.len(),
{
    if s.len() == 0 {
        0
    } else {
        digits_value(s.drop_last()) * 10 + digit_val(s.last())
    }
}

/// Index of the first non-whitespace byte at or after `i` (or `s.len()`).
pub open spec fn scan_ws(s: Seq<u8>, i: int) -> int
    decreases s.len() - i,
{
    if 0 <= i < s.len() && is_ws_byte(s[i]) {
        scan_ws(s, i + 1)
    } else {
        i
    }
}

/// End of the last non-whitespace byte strictly after `lo`, scanning back
/// from `j` (or `j` itself if `s[j - 1]` is not whitespace).
pub open spec fn scan_ws_back(s: Seq<u8>, j: int, lo: int) -> int
    decreases j - lo,
{
    if 0 <= lo < j <= s.len() && is_ws_byte(s[j - 1]) {
        scan_ws_back(s, j - 1, lo)
    } else {
        j
    }
}

/// `s` with leading and trailing ASCII whitespace removed.
pub open spec fn trimmed(s: Seq<u8>) -> Seq<u8> {
    let lo = scan_ws(s, 0);
    let hi = scan_ws_back(s, s.len() as int, lo);
    s.subrange(lo, hi)
}

/// What parsing the digit part (after an optional sign) of a trimmed line
/// yields: the signed value if the digits are well formed and in `i32`
/// range, and nothing otherwise.
pub open spec fn spec_parse_digits(ds: Seq<u8>, neg: bool) -> Option<i32> {
    if ds.len() == 0 || !all_digits(ds) {
        None
    } else if neg {
        if digits_value(ds) <= 0x8000_0000 {
            Some((-digits_value(ds)) as i32)
        } else {
            None
        }
    } else {
        if digits_value(ds) <= 0x7fff_ffff {
            Some(digits_value(ds) as i32)
        } else {
            None
        }
    }
}

/// What `line.trim().parse::<i32>()` yields on an ASCII line: trim, take an
/// optional `+`/`-` sign, then a nonempty run of digits whose value fits.
pub open spec fn spec_parse_i32(s: Seq<u8>) -> Option<i32> {
    let t = trimmed(s);
    if t.len() > 0 && (t[0] == 45 || t[0] == 43) {
        spec_parse_digits(t.drop_first(), t[0] == 45)
    } else {
        spec_parse_digits(t, false)
    }
}

/// Decimal digit bytes of `n`, most significant first, no sign, no padding.
pub open spec fn dec_digits(n: nat) -> Seq<u8>
    decreases n,
{
    if n < 10 {
        seq![(48 + n) as u8]
    } else {
        dec_digits(n / 10).push((48 + n % 10) as u8)
    }
}



/// Bounds and terminal fact of the whitespace scan: it stops inside the
/// string only on a non-whitespace byte.
pub proof fn lemma_scan_ws_bounds(s: Seq<u8>, i: int)
    requires
        0 <= i <= s.len(),
    ensures
        i <= scan_ws(s, i) <= s.len(),
        scan_ws(s, i) < s.len() ==> !is_ws_byte(s[scan_ws(s, i)]),
    decreases s.len() - i,
{
    if i < s.len() && is_ws_byte(s[i]) {
        lemma_scan_ws_bounds(s, i + 1);
    }
}

/// A nonempty digit string has a nonnegative value.
pub proof fn lemma_digits_value_nonneg(s: Seq<u8>)
    requires
        all_digits(s),
    ensures
        digits_value(s) >= 0,
    decreases s.len(),
{
    if s.len() > 0 {
        assert(all_digits(s.drop_last()));
        lemma_digits_value_nonneg(s.drop_last());
    }
}

/// Appending one digit multiplies the value by ten and adds the digit.
pub proof fn lemma_digits_value_push(s: Seq<u8>, d: u8)
    ensures
        digits_value(s.push(d)) == digits_value(s) * 10 + digit_val(d),
{
    assert(s.push(d).drop_last() =~= s);
    assert(s.push(d).last() == d);
}

/// A rendered number is a nonempty string of digit bytes.
pub proof fn lemma_dec_digits_all(n: nat)
    ensures
        dec_digits(n).len() >= 1,
        all_digits(dec_digits(n)),
    decreases n,
{
    if n >= 10 {
        lemma_dec_digits_all(n / 10);
        assert(all_digits(dec_digits(n))) by {
            assert(dec_digits(n) == dec_digits(n / 10).push((48 + n % 10) as u8));
            assert(forall|i: int| 0 <= i < dec_digits(n / 10).len()
                ==> dec_digits(n)[i] == dec_digits(n / 10)[i]);
        }
    }
}

/// Reading back the rendered digits of `n` yields `n`.
pub proof fn lemma_dec_digits_value(n: nat)
    ensures
        digits_value(dec_digits(n)) == n,
    decreases n,
{
    if n < 10 {
        let s = dec_digits(n);
        assert(s == seq![(48 + n) as u8]);
        assert(s.drop_last() =~= Seq::<u8>::empty());
        assert(s.last() == (48 + n) as u8);
        assert(digit_val((48 + n) as u8) == n);
        assert(digits_value(s) == digits_value(s.drop_last()) * 10 + digit_val(s.last()));
    } else {
        lemma_dec_digits_value(n / 10);
        lemma_digits_value_push(dec_digits(n / 10), (48 + n % 10) as u8);
        assert(dec_digits(n) == dec_digits(n / 10).push((48 + n % 10) as u8));
        assert(digit_val((48 + n % 10) as u8) == n % 10);
        assert(digits_value(dec_digits(n)) == (n / 10) * 10 + n % 10);
    }
}

/// Round trip: a nonnegative `i32` value rendered as decimal digits parses
/// back to itself.
pub proof fn lemma_parse_render_roundtrip(n: nat)
    requires
        n <= 0x7fff_ffff,
    ensures
        spec_parse_i32(dec_digits(n)) == Some(n as i32),
{
    let s = dec_digits(n);
    lemma_dec_digits_all(n);
    lemma_dec_digits_value(n);
    assert(is_digit_byte(s[0]));
    assert(is_digit_byte(s[s.len() - 1]));
    assert(scan_ws(s, 0) == 0);
    assert(scan_ws_back(s, s.len() as int, 0) == s.len() as int);
    assert(trimmed(s) =~= s);
}

/// Is `b` an ASCII whitespace byte?
pub fn ws_byte(b: u8) -> (r: bool)
    ensures
        r == is_ws_byte(b),
{
    b == 32 || (9 <= b && b <= 13)
}

/// Is `b` an ASCII decimal digit byte?
pub fn digit_byte(b: u8) -> (r: bool)
    ensures
        r == is_digit_byte(b),
{
    48 <= b && b <= 57
}

/// Parses a line of command output as a process identifier, exactly as
/// trimming ASCII whitespace and then reading a signed decimal `i32` would:
/// an optional `+` or `-` sign, a nonempty digit run, and a range check.
#[verifier::loop_isolation(false)]
pub fn parse_pid(line: &Vec<u8>) -> (r: Option<i32>)
    ensures
        r == spec_parse_i32(line@),
{
    let ghost s = line@;
    let len = line.len();
    let mut lo: usize = 0;
    while lo < len && ws_byte(line[lo])
        invariant
            0 <= lo <= len,
            len == s.len(),
            s == line@,
            scan_ws(s, 0) == scan_ws(s, lo as int),
        decreases len - lo,
    {
        lo += 1;
    }
    assert(scan_ws(s, 0) == lo as int);
    let mut hi: usize = len;
    while hi > lo && ws_byte(line[hi - 1])
        invariant
            lo <= hi <= len,
            len == s.len(),
            s == line@,
            scan_ws_back(s, len as int, lo as int) == scan_ws_back(s, hi as int, lo as int),
        decreases hi,
    {
        hi -= 1;
    }
    assert(scan_ws_back(s, len as int, lo as int) == hi as int);
    let ghost t = trimmed(s);
    assert(t =~= s.subrange(lo as int, hi as int));

    let mut i: usize = lo;
    let mut neg = false;
    if i < hi && (line[i] == 45 || line[i] == 43) {
        neg = line[i] == 45;
        i += 1;
    }
    let ghost ds = s.subrange(i as int, hi as int);
    let ghost had_sign = i > lo;
    assert(had_sign ==> ds =~= t.drop_first());

    let mut acc: u64 = 0;
    let mut big = false;
    let mut j: usize = i;
    while j < hi
        invariant
            lo <= i <= j <= hi <= len,
            len == s.len(),
            s == line@,
            ds == s.subrange(i as int, hi as int),
            all_digits(s.subrange(i as int, j as int)),
            !big ==> acc == digits_value(s.subrange(i as int, j as int)) && acc <= 0x8000_0000,
            big ==> digits_value(s.subrange(i as int, j as int)) > 0x8000_0000,
        decreases hi - j,
    {
        let ghost pre = s.subrange(i as int, j as int);
        let b = line[j];
        if !digit_byte(b) {
            assert(!all_digits(ds)) by {
                assert(ds[j - i] == b);
            }
            return None;
        }
        proof {
            assert(s.subrange(i as int, (j + 1) as int) =~= pre.push(b));
            lemma_digits_value_push(pre, b);
            if big {
                lemma_digits_value_nonneg(pre);
            }
        }
        if !big {
            let na = acc * 10 + ((b - 48) as u64);
            if na > 0x8000_0000 {
                big = true;
            } else {
                acc = na;
            }
        }
        j += 1;
    }
    assert(s.subrange(i as int, j as int) == ds);

    if i == hi {
        // empty after the optional sign: no digits at all
        return None;
    }
    if big {
        return None;
    }
    if neg {
        if acc == 0x8000_0000 {
            Some(i32::MIN)
        } else {
            Some(-(acc as i32))
        }
    } else {
        if acc <= 0x7fff_ffff {
            Some(acc as i32)
        } else {
            None
        }
    }
}

/// Appends the decimal digits of `n` to `out`.
pub fn push_dec_digits(n: u64, out: &mut Vec<u8>)
    ensures
        final(out)@ == old(out)@ + dec_digits(n as nat),
    decreases n,
{
    if n >= 10 {
        push_dec_digits(n / 10, out);
    }
    out.push(48 + (n % 10) as u8);
    assert(out@ =~= old(out)@ + dec_digits(n as nat));
}

/// Renders `n` as its decimal digit bytes.
pub fn render_u64(n: u64) -> (r: Vec<u8>)
    ensures
        r@ == dec_digits(n as nat),
{
    let mut out: Vec<u8> = Vec::new();
    push_dec_digits(n, &mut out);
    assert(out@ =~= dec_digits(n as nat));
    out
}

} // verus!
