//! Cleaning up after processed files: which rows go, and the summary that
//! is printed of what went.

use crate::server::database::ProcessStatus;
use crate::text::push_char;
use vstd::prelude::*;
use vstd::string::StringExecFns;

verus! {

/// The decimal digit for a value below ten.
pub open spec fn digit_of(d: int) -> char {
    if d == 0 {
        '0'
    } else if d == 1 {
        '1'
    } else if d == 2 {
        '2'
    } else if d == 3 {
        '3'
    } else if d == 4 {
        '4'
    } else if d == 5 {
        '5'
    } else if d == 6 {
        '6'
    } else if d == 7 {
        '7'
    } else if d == 8 {
        '8'
    } else {
        '9'
    }
}

/// A natural number in decimal, without leading zeros.
pub open spec fn decimal(n: nat) -> Seq<char>
    decreases n,
{
    if n < 10 {
        seq![digit_of(n as int)]
    } else {
        decimal(n / 10).push(digit_of((n % 10) as int))
    }
}

fn digit(d: u128) -> (c: char)
    requires
        d < 10,
    ensures
        c == digit_of(d as int),
{
    if d == 0 {
        '0'
    } else if d == 1 {
        '1'
    } else if d == 2 {
        '2'
    } else if d == 3 {
        '3'
    } else if d == 4 {
        '4'
    } else if d == 5 {
        '5'
    } else if d == 6 {
        '6'
    } else if d == 7 {
        '7'
    } else if d == 8 {
        '8'
    } else {
        '9'
    }
}

/// Appends a number in decimal.
fn push_decimal(out: &mut String, n: u128)
    ensures
        final(out)@ == old(out)@ + decimal(n as nat),
    decreases n,
{
    if n >= 10 {
        push_decimal(out, n / 10);
    }
    push_char(out, digit(n % 10));
    proof {
        if n >= 10 {
            assert(final(out)@ =~= old(out)@ + decimal(n as nat));
        } else {
            assert(final(out)@ =~= old(out)@ + decimal(n as nat));
        }
    }
}

/// The quotient of `n` by `d`, rounded to the nearest integer, and to the
/// even one of two that are equally near.
pub open spec fn round_half_even(n: int, d: int) -> int {
    let q = n / d;
    let r = n % d;
    if 2 * r > d || (2 * r == d && q % 2 == 1) {
        q + 1
    } else {
        q
    }
}

/// Two to the power 53: up to here every integer is a double-precision
/// number.
pub const EXACT_LIMIT: u128 = 9007199254740992;

/// The distance between neighbouring double-precision numbers around
/// `size`, or one where every integer around it is such a number.
pub open spec fn spacing(size: int, step: int) -> int
    decreases 64 - step,
{
    if step >= 64 || size < EXACT_LIMIT * pow2(step) {
        pow2(step)
    } else {
        spacing(size, step + 1)
    }
}

/// Two to the power `k`.
pub open spec fn pow2(k: int) -> int
    decreases k,
{
    if k <= 0 {
        1
    } else {
        2 * pow2(k - 1)
    }
}

/// The double-precision number nearest to `size`, which is the number that
/// a size is measured by.
pub open spec fn measured(size: u64) -> int {
    let unit = spacing(size as int, 0);
    round_half_even(size as int, unit) * unit
}

/// The number of tenths of `unit` in `size`, rounded.
pub open spec fn tenths(size: u64, unit: int) -> int {
    round_half_even(measured(size) * 10, unit)
}

/// 1024.
pub const KIBI: u64 = 1024;

/// 1024 * 1024.
pub const MEBI: u64 = 1048576;

/// 1024 * 1024 * 1024.
pub const GIBI: u64 = 1073741824;

/// A size with one decimal and its unit.
pub open spec fn scaled(size: u64, unit: int, name: Seq<char>) -> Seq<char> {
    decimal((tenths(size, unit) / 10) as nat) + seq!['.'] + seq![
        digit_of(tenths(size, unit) % 10),
    ] + seq![' '] + name
}

/// A size for a reader: in bytes up to 1024, and beyond that in the
/// largest of kiB, MiB and GiB that it exceeds, with one decimal.
pub open spec fn size_text(size: u64) -> Seq<char> {
    if size > GIBI {
        scaled(size, GIBI as int, "GiB"@)
    } else if size > MEBI {
        scaled(size, MEBI as int, "MiB"@)
    } else if size > KIBI {
        scaled(size, KIBI as int, "kiB"@)
    } else {
        decimal(size as nat) + " B"@
    }
}

proof fn lemma_pow2_values()
    ensures
        pow2(0) == 1,
        pow2(1) == 2,
        pow2(2) == 4,
        pow2(3) == 8,
        pow2(4) == 16,
        pow2(5) == 32,
        pow2(6) == 64,
        pow2(7) == 128,
        pow2(8) == 256,
        pow2(9) == 512,
        pow2(10) == 1024,
        pow2(11) == 2048,
{
    reveal_with_fuel(pow2, 13);
}

/// Rounds a quotient to the nearest integer, and to the even one of two
/// that are equally near.
fn rounded(n: u128, d: u128) -> (q: u128)
    requires
        d > 0,
        n <= 0xffff_ffff_ffff_ffff_ffff,
    ensures
        q == round_half_even(n as int, d as int),
        q <= n + 1,
{
    let q = n / d;
    let r = n % d;
    proof {
        vstd::arithmetic::div_mod::lemma_div_is_ordered_by_denominator(n as int, 1, d as int);
        assert(n as int / 1 == n);
        vstd::arithmetic::div_mod::lemma_mod_bound(n as int, d as int);
    }
    if r > d - r || (r == d - r && q % 2 == 1) {
        q + 1
    } else {
        q
    }
}

/// The double-precision number nearest to `size`.
fn measure(size: u64) -> (m: u128)
    ensures
        m == measured(size),
        m <= 0x1_0000_0000_0000_0000,
{
    let mut unit: u128 = 1;
    let mut step: u32 = 0;
    proof {
        lemma_pow2_values();
    }
    while step < 11 && size as u128 >= EXACT_LIMIT * unit
        invariant
            step <= 11,
            unit == pow2(step as int),
            unit <= 2048,
            spacing(size as int, 0) == spacing(size as int, step as int),
        decreases 11 - step,
    {
        proof {
            lemma_pow2_values();
            assert(pow2(step as int + 1) == 2 * pow2(step as int));
        }
        unit = unit * 2;
        step = step + 1;
    }
    proof {
        lemma_pow2_values();
        assert(size < EXACT_LIMIT * pow2(11));
        assert(spacing(size as int, step as int) == unit);
    }
    let q = rounded(size as u128, unit);
    proof {
        assert(q * unit <= 0x1_0000_0000_0000_0000) by {
            lemma_measure_bound(size as int, unit as int, q as int);
        }
    }
    q * unit
}

proof fn lemma_measure_bound(size: int, unit: int, q: int)
    requires
        0 <= size < 0x1_0000_0000_0000_0000,
        unit == 1 || unit == 2 || unit == 4 || unit == 8 || unit == 16 || unit == 32 || unit == 64
            || unit == 128 || unit == 256 || unit == 512 || unit == 1024 || unit == 2048,
        q == round_half_even(size, unit),
    ensures
        0 <= q * unit <= 0x1_0000_0000_0000_0000,
{
    vstd::arithmetic::div_mod::lemma_fundamental_div_mod(size, unit);
    vstd::arithmetic::div_mod::lemma_mod_bound(size, unit);
    let d = size / unit;
    assert(size == unit * d + size % unit);
    assert(unit * d <= size) by (nonlinear_arith)
        requires
            size == unit * d + size % unit,
            size % unit >= 0,
    {}
    assert(0x1_0000_0000_0000_0000int % unit == 0);
    assert(d >= 0) by (nonlinear_arith)
        requires
            size >= 0,
            unit > 0,
            d == size / unit,
    {}
    if q == d + 1 {
        // unit * d is a multiple of unit below two to the 64, which is one too
        let top = 0x1_0000_0000_0000_0000int / unit;
        vstd::arithmetic::div_mod::lemma_fundamental_div_mod(0x1_0000_0000_0000_0000int, unit);
        assert(unit * top == 0x1_0000_0000_0000_0000int);
        assert(d < top) by (nonlinear_arith)
            requires
                unit * d <= size,
                size < unit * top,
                unit > 0,
        {}
        assert((d + 1) * unit <= top * unit) by (nonlinear_arith)
            requires
                d + 1 <= top,
                unit > 0,
        {}
        assert(top * unit == unit * top) by (nonlinear_arith);
    } else {
        assert(q * unit == unit * d) by (nonlinear_arith)
            requires
                q == d,
        {}
    }
    assert(q * unit >= 0) by (nonlinear_arith)
        requires
            q >= 0,
            unit > 0,
    {}
}

/// Appends a size with one decimal and its unit.
fn push_scaled(out: &mut String, size: u64, unit: u64, name: &str)
    requires
        unit > 0,
    ensures
        final(out)@ == old(out)@ + scaled(size, unit as int, name@),
{
    let m = measure(size);
    let t = rounded(m * 10, unit as u128);
    push_decimal(out, t / 10);
    push_char(out, '.');
    push_char(out, digit(t % 10));
    push_char(out, ' ');
    out.append(name);
    proof {
        assert(final(out)@ =~= old(out)@ + scaled(size, unit as int, name@));
    }
}

/// A size for a reader: in bytes up to 1024, and beyond that in the
/// largest of kiB, MiB and GiB that it exceeds, with one decimal.
pub fn format_size(size: u64) -> (text: String)
    ensures
        text@ == size_text(size),
{
    let mut text = String::new();
    if size > GIBI {
        push_scaled(&mut text, size, GIBI, "GiB");
    } else if size > MEBI {
        push_scaled(&mut text, size, MEBI, "MiB");
    } else if size > KIBI {
        push_scaled(&mut text, size, KIBI, "kiB");
    } else {
        push_decimal(&mut text, size as u128);
        text.append(" B");
    }
    proof {
        assert(text@ =~= size_text(size));
    }
    text
}

/// What a cleaning removed: the number of files and the sum of their
/// sizes.
#[derive(Clone, Copy, Debug, PartialEq, Eq, Structural)]
pub struct CleanSummary {
    pub nfiles: u32,
    pub total_size: u64,
}

/// The line that reports a summary.
pub open spec fn summary_text(summary: CleanSummary) -> Seq<char> {
    "deleted "@ + decimal(summary.nfiles as nat) + " files ("@ + size_text(summary.total_size)
        + ")"@
}

impl CleanSummary {
    /// The summary of a cleaning that has removed nothing yet.
    pub fn new() -> (summary: CleanSummary)
        ensures
            summary == (CleanSummary { nfiles: 0, total_size: 0 }),
    {
        CleanSummary { nfiles: 0, total_size: 0 }
    }

    /// Whether a file of `size` bytes can be counted in: the count and the
    /// sum stay within their types.
    pub open spec fn has_room(&self, size: u64) -> bool {
        self.nfiles < u32::MAX && self.total_size + size <= u64::MAX
    }

    /// Whether a file of `size` bytes can be counted in.
    pub fn can_add(&self, size: u64) -> (yes: bool)
        ensures
            yes == self.has_room(size),
    {
        self.nfiles < u32::MAX && size <= u64::MAX - self.total_size
    }

    /// Counts in a file of `size` bytes.
    pub fn add(&mut self, size: u64)
        requires
            old(self).has_room(size),
        ensures
            final(self).nfiles == old(self).nfiles + 1,
            final(self).total_size == old(self).total_size + size,
    {
        self.nfiles += 1;
        self.total_size += size;
    }

    /// The line that reports the summary.
    pub fn to_string(&self) -> (text: String)
        ensures
            text@ == summary_text(*self),
    {
        let mut text = String::from_str("deleted ");
        push_decimal(&mut text, self.nfiles as u128);
        text.append(" files (");
        let size = format_size(self.total_size);
        text.append(size.as_str());
        text.append(")");
        proof {
            assert(text@ =~= summary_text(*self));
        }
        text
    }
}

/// The states whose rows a cleaning removes: `ToPrune`, and before it
/// `Done` where that is asked for.
pub open spec fn cleaned_states(include_done: bool) -> Seq<ProcessStatus> {
    if include_done {
        seq![ProcessStatus::Done, ProcessStatus::ToPrune]
    } else {
        seq![ProcessStatus::ToPrune]
    }
}

/// The states whose rows a cleaning removes, in the order in which it
/// takes them.
pub fn clean_states(include_done: bool) -> (states: Vec<ProcessStatus>)
    ensures
        states@ == cleaned_states(include_done),
{
    let mut states: Vec<ProcessStatus> = Vec::new();
    if include_done {
        states.push(ProcessStatus::Done);
    }
    states.push(ProcessStatus::ToPrune);
    proof {
        assert(states@ =~= cleaned_states(include_done));
    }
    states
}

} // verus!
