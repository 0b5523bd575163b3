//! The text that the table shows: byte counts with binary units, inline
//! sparklines, utilization bars and link rates.

use vstd::prelude::*;
use vstd::arithmetic::power2::pow2;

use crate::text::{
    char_is_ascii_digit, char_is_whitespace, is_ascii_digit, is_whitespace, lemma_split_while,
    lemma_take_while_prefix, lemma_trim_end, push_char, skip_while, take_while, trim, trim_end,
};

verus! {

/// The character of a decimal digit.
pub open spec fn digit_char(d: nat) -> char {
    if d == 0 {
        '0'
    } else if d == 1 {
        '1'
    } else if d == 2 {
        '2'
    } else if d == 3 {
        '3'
    } else if d == 4 {
        '4'
    } else if d == 5 {
        '5'
    } else if d == 6 {
        '6'
    } else if d == 7 {
        '7'
    } else if d == 8 {
        '8'
    } else {
        '9'
    }
}

/// Decimal notation of `n`, without leading zeros.
pub open spec fn decimal(n: nat) -> Seq<char>
    decreases n,
{
    if n < 10 {
        seq![digit_char(n)]
    } else {
        decimal(n / 10).push(digit_char(n % 10))
    }
}

fn digit(d: u64) -> (c: char)
    requires
        d < 10,
    ensures
        c == digit_char(d as nat),
{
    if d == 0 {
        '0'
    } else if d == 1 {
        '1'
    } else if d == 2 {
        '2'
    } else if d == 3 {
        '3'
    } else if d == 4 {
        '4'
    } else if d == 5 {
        '5'
    } else if d == 6 {
        '6'
    } else if d == 7 {
        '7'
    } else if d == 8 {
        '8'
    } else {
        '9'
    }
}

/// Append the decimal notation of `n` to `s`.
fn push_decimal(s: &mut String, n: u64)
    ensures
        final(s)@ == old(s)@ + decimal(n as nat),
    decreases n,
{
    if n >= 10 {
        push_decimal(s, n / 10);
    }
    push_char(s, digit(n % 10));
    proof {
        if n < 10 {
            assert(n % 10 == n);
        }
        assert(old(s)@ + decimal(n as nat) =~= if n >= 10 {
            (old(s)@ + decimal((n / 10) as nat)).push(digit_char((n % 10) as nat))
        } else {
            old(s)@.push(digit_char(n as nat))
        });
    }
}

/// Name of the binary unit with index `unit`: B, KB, MB, GB, TB, PB.
pub open spec fn byte_unit(unit: nat) -> Seq<char> {
    if unit == 0 {
        seq!['B']
    } else if unit == 1 {
        seq!['K', 'B']
    } else if unit == 2 {
        seq!['M', 'B']
    } else if unit == 3 {
        seq!['G', 'B']
    } else if unit == 4 {
        seq!['T', 'B']
    } else {
        seq!['P', 'B']
    }
}

/// Scale `value`, counted in the unit with index `unit`, down by 1024 per
/// step while it is at least 1024 and a larger unit (up to PB) exists;
/// the scaled value and its unit index.
pub open spec fn byte_scale(value: nat, unit: nat) -> (nat, nat)
    decreases 5 - unit,
{
    if value >= 1024 && unit < 5 {
        byte_scale(value / 1024, unit + 1)
    } else {
        (value, unit)
    }
}

/// The text of `bytes`: the whole count in the largest unit it fills (up
/// to PB), and past bytes one decimal digit, the tenths of the next
/// smaller unit's count rounded down (`1023B`, `1.0KB`, `1.5MB`).
pub open spec fn bytes_text(bytes: u64) -> Seq<char> {
    let (value, unit) = byte_scale(bytes as nat, 0);
    if unit == 0 {
        decimal(value) + byte_unit(0)
    } else {
        let fractional = (bytes as nat / pow2((10 * (unit - 1)) as nat)) % 1024;
        decimal(value) + seq!['.'] + decimal(fractional * 10 / 1024) + byte_unit(unit)
    }
}

fn push_byte_unit(s: &mut String, unit: usize)
    ensures
        final(s)@ == old(s)@ + byte_unit(unit as nat),
{
    let ghost start = s@;
    if unit == 0 {
        push_char(s, 'B');
        assert(s@ =~= start + byte_unit(0));
        return;
    } else if unit == 1 {
        push_char(s, 'K');
    } else if unit == 2 {
        push_char(s, 'M');
    } else if unit == 3 {
        push_char(s, 'G');
    } else if unit == 4 {
        push_char(s, 'T');
    } else {
        push_char(s, 'P');
    }
    push_char(s, 'B');
    assert(s@ =~= start + byte_unit(unit as nat));
}

/// Format a byte count with binary units (1024 bytes to the KB), e.g.
/// `1023B`, `1.0KB`, `1.0PB`.
pub fn format_bytes(bytes: u64) -> (text: String)
    ensures
        text@ == bytes_text(bytes),
{
    let mut value = bytes;
    let mut unit_index: usize = 0;

    while value >= 1024 && unit_index < 5
        invariant
            unit_index <= 5,
            byte_scale(value as nat, unit_index as nat) == byte_scale(bytes as nat, 0),
        decreases 5 - unit_index,
    {
        value /= 1024;
        unit_index += 1;
    }
    let mut text = String::new();
    push_decimal(&mut text, value);
    if unit_index == 0 {
        push_byte_unit(&mut text, unit_index);
    } else {
        let shift = (10 * (unit_index - 1)) as u64;
        proof {
            vstd::bits::lemma_u64_shr_is_div(bytes, shift);
        }
        let fractional = (bytes >> shift) % 1024;
        let decimal_part = (fractional * 10) / 1024;
        push_char(&mut text, '.');
        push_decimal(&mut text, decimal_part);
        push_byte_unit(&mut text, unit_index);
    }
    proof {
        assert(text@ =~= bytes_text(bytes));
    }
    text
}

/// The sparkline glyph of a sample: level 0..=7 from the lowest bar to the
/// full block; samples above 7 show the full block.
pub open spec fn spark_glyph(sample: u64) -> char {
    if sample == 0 {
        '▁'
    } else if sample == 1 {
        '▂'
    } else if sample == 2 {
        '▃'
    } else if sample == 3 {
        '▄'
    } else if sample == 4 {
        '▅'
    } else if sample == 5 {
        '▆'
    } else if sample == 6 {
        '▇'
    } else {
        '█'
    }
}

fn spark_char(sample: u64) -> (c: char)
    ensures
        c == spark_glyph(sample),
{
    if sample == 0 {
        '▁'
    } else if sample == 1 {
        '▂'
    } else if sample == 2 {
        '▃'
    } else if sample == 3 {
        '▄'
    } else if sample == 4 {
        '▅'
    } else if sample == 5 {
        '▆'
    } else if sample == 6 {
        '▇'
    } else {
        '█'
    }
}

/// Render an inline sparkline as Unicode characters: one glyph per sample.
pub fn render_inline_sparkline(data: &[u64]) -> (line: String)
    ensures
        line@ == data@.map_values(|sample: u64| spark_glyph(sample)),
{
    let mut line = String::new();
    let mut i: usize = 0;
    while i < data.len()
        invariant
            0 <= i <= data@.len(),
            line@ == data@.take(i as int).map_values(|sample: u64| spark_glyph(sample)),
        decreases data@.len() - i,
    {
        push_char(&mut line, spark_char(data[i]));
        assert(data@.take(i + 1) =~= data@.take(i as int).push(data@[i as int]));
        i += 1;
        assert(line@ =~= data@.take(i as int).map_values(|sample: u64| spark_glyph(sample)));
    }
    assert(data@.take(data@.len() as int) =~= data@);
    line
}

/// The cells of a utilization bar `width` cells wide: the first `filled`
/// full, the rest light.
pub open spec fn bar_cells(filled: usize, width: usize) -> Seq<char> {
    Seq::new(width as nat, |i: int| if i < filled { '█' } else { '░' })
}

/// Render a utilization bar of `width` cells with `filled` of them full
/// (all of them when `filled` exceeds `width`).
pub fn utilization_bar(filled: usize, width: usize) -> (bar: String)
    ensures
        bar@ == bar_cells(filled, width),
{
    let mut bar = String::new();
    let mut i: usize = 0;
    while i < width
        invariant
            0 <= i <= width,
            bar@ == bar_cells(filled, width).take(i as int),
        decreases width - i,
    {
        push_char(&mut bar, if i < filled { '█' } else { '░' });
        i += 1;
        assert(bar@ =~= bar_cells(filled, width).take(i as int));
    }
    assert(bar@ =~= bar_cells(filled, width));
    bar
}

/// Index of the first `stop` in `s` (which has `n` characters), or `n`
/// when there is none.
fn index_of_char(s: &str, n: usize, stop: char) -> (k: usize)
    requires
        n == s@.len(),
    ensures
        k <= n,
        forall|i: int| 0 <= i < k ==> s@[i] != stop,
        k < n ==> s@[k as int] == stop,
{
    let mut k: usize = 0;
    while k < n && s.get_char(k) != stop
        invariant
            n == s@.len(),
            k <= n,
            forall|i: int| 0 <= i < k ==> s@[i] != stop,
        decreases n - k,
    {
        k += 1;
    }
    k
}

/// The part of a link rate before any parenthesised detail, without
/// surrounding whitespace, e.g. "100 Gb/sec (4X EDR)" gives "100 Gb/sec".
pub open spec fn rate_summary(rate: Seq<char>) -> Seq<char> {
    trim(take_while(rate, |c: char| c != '('))
}

/// Truncate rate string for display: the speed part, up to any '('.
pub fn truncate_rate(rate: &str) -> (summary: String)
    ensures
        summary@ == rate_summary(rate@),
{
    let n = rate.unicode_len();
    let cut = index_of_char(rate, n, '(');
    let mut start: usize = 0;
    while start < cut && char_is_whitespace(rate.get_char(start))
        invariant
            n == rate@.len(),
            cut <= n,
            start <= cut,
            forall|i: int| 0 <= i < start ==> is_whitespace(#[trigger] rate@[i]),
        decreases cut - start,
    {
        start += 1;
    }
    let mut end: usize = cut;
    while end > start && char_is_whitespace(rate.get_char(end - 1))
        invariant
            n == rate@.len(),
            cut <= n,
            start <= end <= cut,
            forall|i: int| end <= i < cut ==> is_whitespace(#[trigger] rate@[i]),
        decreases end - start,
    {
        end -= 1;
    }
    proof {
        let s = rate@;
        let prefix = s.take(cut as int);
        lemma_split_while(s, |c: char| c != '(', cut as int);
        assert forall|i: int| 0 <= i < start implies is_whitespace(#[trigger] prefix[i]) by {
            assert(prefix[i] == s[i]);
        }
        lemma_split_while(prefix, |c: char| is_whitespace(c), start as int);
        let rest = prefix.skip(start as int);
        assert forall|i: int| end - start <= i < rest.len() implies is_whitespace(
            #[trigger] rest[i],
        ) by {
            assert(rest[i] == s[i + start]);
        }
        if end > start {
            assert(rest[end - start - 1] == s[end - 1]);
        }
        lemma_trim_end(rest, end - start);
        assert(rest.take(end - start) =~= s.subrange(start as int, end as int));
    }
    String::from_str(rate.substring_char(start, end))
}

/// The ASCII digits that a string starts with.
pub open spec fn leading_digits(s: Seq<char>) -> Seq<char> {
    take_while(s, |c: char| is_ascii_digit(c))
}

/// The run of ASCII digits that a link rate starts with, e.g. "400" for
/// "400 Gb/sec (4X NDR)"; empty when it starts otherwise.
pub fn leading_ascii_digits(rate: &str) -> (digits: String)
    ensures
        digits@ == leading_digits(rate@),
{
    let n = rate.unicode_len();
    let mut k: usize = 0;
    while k < n && char_is_ascii_digit(rate.get_char(k))
        invariant
            n == rate@.len(),
            k <= n,
            forall|i: int| 0 <= i < k ==> is_ascii_digit(#[trigger] rate@[i]),
        decreases n - k,
    {
        k += 1;
    }
    proof {
        lemma_split_while(rate@, |c: char| is_ascii_digit(c), k as int);
        assert(rate@.take(k as int) =~= rate@.subrange(0, k as int));
    }
    String::from_str(rate.substring_char(0, k))
}

/// The digits read from a link rate are its longest prefix of ASCII
/// digits: a prefix of the rate, made only of '0'..='9', and followed (if
/// anything follows) by a character outside '0'..='9'.
pub proof fn lemma_leading_digits_are_longest_digit_prefix(rate: Seq<char>)
    ensures
        leading_digits(rate).len() <= rate.len(),
        leading_digits(rate) == rate.take(leading_digits(rate).len() as int),
        forall|i: int|
            0 <= i < leading_digits(rate).len() ==> '0' <= #[trigger] leading_digits(rate)[i]
                <= '9',
        leading_digits(rate).len() < rate.len() ==> !('0' <= rate[leading_digits(
            rate,
        ).len() as int] <= '9'),
{
    lemma_take_while_prefix(rate, |c: char| is_ascii_digit(c));
    let d = leading_digits(rate);
    assert forall|i: int| 0 <= i < d.len() implies '0' <= #[trigger] d[i] <= '9' by {
        assert(d[i] == rate[i]);
    }
}

/// A utilization bar has `width` cells; cell `i` is full exactly when
/// `i < filled`, so the full cells come first, all cells are full once
/// `filled` reaches `width`, and filling more never empties a cell.
pub proof fn lemma_bar_cells_fill_from_the_left(
    filled: usize,
    more: usize,
    width: usize,
    i: int,
    j: int,
)
    requires
        filled <= more,
        0 <= i <= j < width,
    ensures
        bar_cells(filled, width).len() == width,
        (bar_cells(filled, width)[j] == '█') == (j < filled),
        bar_cells(filled, width)[j] == '█' || bar_cells(filled, width)[j] == '░',
        bar_cells(filled, width)[j] == '█' ==> bar_cells(filled, width)[i] == '█',
        bar_cells(filled, width)[j] == '█' ==> bar_cells(more, width)[j] == '█',
        filled >= width ==> bar_cells(filled, width)[j] == '█',
{
}

/// 1024 to the power `u`.
pub open spec fn kib_power(u: nat) -> nat
    decreases u,
{
    if u == 0 {
        1
    } else {
        1024 * kib_power((u - 1) as nat)
    }
}

proof fn lemma_kib_powers()
    ensures
        kib_power(0) == 1,
        kib_power(1) == 1024,
        kib_power(2) == 1048576,
        kib_power(3) == 1073741824,
        kib_power(4) == 1099511627776,
        kib_power(5) == 1125899906842624,
        kib_power(6) == 1152921504606846976,
{
    reveal_with_fuel(kib_power, 7);
}

/// Scaling down by 1024 from unit `i`, `j` times, reaches the value
/// `v / 1024^j` in unit `i + j` when `v` lies in `[1024^j, 1024^(j+1))`
/// (or at least `1024^j` when `i + j` is the largest unit).
proof fn lemma_byte_scale_steps(v: nat, i: nat, j: nat)
    requires
        i + j <= 5,
        kib_power(j) <= v,
        i + j < 5 ==> v < kib_power(j + 1),
    ensures
        byte_scale(v, i) == (v / kib_power(j), i + j),
    decreases j,
{
    lemma_kib_powers();
    if j == 0 {
        assert(v < 1024 || i == 5);
        assert(v / 1 == v);
    } else {
        let k = kib_power((j - 1) as nat);
        assert(kib_power(j) == 1024 * k);
        assert(kib_power(j + 1) == 1024 * kib_power(j));
        assert(k >= 1) by {
            assert(j - 1 <= 4);
        }
        assert(v >= 1024) by (nonlinear_arith)
            requires
                v >= 1024 * k,
                k >= 1,
        ;
        let w = v / 1024;
        assert(k <= w) by (nonlinear_arith)
            requires
                v >= 1024 * k,
                w == v / 1024,
        ;
        if i + j < 5 {
            assert(w < kib_power(j)) by (nonlinear_arith)
                requires
                    v < 1024 * kib_power(j),
                    w == v / 1024,
            ;
        }
        lemma_byte_scale_steps(w, i + 1, (j - 1) as nat);
        vstd::arithmetic::div_mod::lemma_div_denominator(v as int, 1024, k as int);
        assert(w / k == v / kib_power(j));
        assert(byte_scale(v, i) == byte_scale(w, i + 1));
    }
}

/// A count shown in unit `u` (KB and up) reads as the whole number of
/// that unit, a point, and the tenths of the next smaller unit's
/// remainder, rounded down: `bytes / 1024^u`, then
/// `((bytes / 1024^(u-1)) mod 1024) * 10 / 1024`. The unit is the one that
/// `bytes` fills: `1024^u <= bytes < 1024^(u+1)`, or at least `1024^5`
/// for PB.
pub proof fn lemma_bytes_text_tenths(bytes: u64, u: nat)
    requires
        1 <= u <= 5,
        kib_power(u) <= bytes,
        u < 5 ==> bytes < kib_power(u + 1),
    ensures
        bytes_text(bytes) == decimal(bytes as nat / kib_power(u)) + seq!['.'] + decimal(
            ((bytes as nat / kib_power((u - 1) as nat)) % 1024) * 10 / 1024,
        ) + byte_unit(u),
{
    lemma_byte_scale_steps(bytes as nat, 0, u);
    lemma_kib_powers();
    vstd::arithmetic::power2::lemma2_to64();
    vstd::arithmetic::power2::lemma2_to64_rest();
    assert(pow2((10 * (u - 1)) as nat) == kib_power((u - 1) as nat));
}

/// The host name to show: the one looked up, or "unknown" when the lookup
/// failed.
pub fn hostname_or_unknown(lookup: Option<String>) -> (name: String)
    ensures
        name@ == match lookup {
            Some(found) => found@,
            None => "unknown"@,
        },
{
    match lookup {
        Some(found) => found,
        None => String::from_str("unknown"),
    }
}

} // verus!
