//! Byte sizes and elapsed times, and their human-readable renderings.
use vstd::prelude::*;
use vstd::string::StringExecFns;

verus! {

/// Bytes in one kibibyte.
pub const KIB: u64 = 1024;

/// Bytes in one mebibyte.
pub const MIB: u64 = 1048576;

/// The character of a decimal digit.
pub open spec fn digit_char(d: nat) -> char {
    if d == 0 { '0' }
    else if d == 1 { '1' }
    else if d == 2 { '2' }
    else if d == 3 { '3' }
    else if d == 4 { '4' }
    else if d == 5 { '5' }
    else if d == 6 { '6' }
    else if d == 7 { '7' }
    else if d == 8 { '8' }
    else { '9' }
}

/// The decimal rendering of `n`, without leading zeros (`"0"` for zero).
pub open spec fn decimal(n: nat) -> Seq<char>
    decreases n,
{
    if n < 10 {
        seq![digit_char(n)]
    } else {
        decimal(n / 10).push(digit_char(n % 10))
    }
}

/// The decimal rendering of `n` padded on the left with `'0'` to two places.
pub open spec fn decimal_pad2(n: nat) -> Seq<char> {
    if n < 10 {
        seq!['0', digit_char(n)]
    } else {
        decimal(n)
    }
}

pub(crate) fn digit_str(d: u64) -> (s: &'static str)
    requires
        d < 10,
    ensures
        s@ == seq![digit_char(d as nat)],
{
    if d == 0 {
        proof { reveal_strlit("0"); }
        "0"
    } else if d == 1 {
        proof { reveal_strlit("1"); }
        "1"
    } else if d == 2 {
        proof { reveal_strlit("2"); }
        "2"
    } else if d == 3 {
        proof { reveal_strlit("3"); }
        "3"
    } else if d == 4 {
        proof { reveal_strlit("4"); }
        "4"
    } else if d == 5 {
        proof { reveal_strlit("5"); }
        "5"
    } else if d == 6 {
        proof { reveal_strlit("6"); }
        "6"
    } else if d == 7 {
        proof { reveal_strlit("7"); }
        "7"
    } else if d == 8 {
        proof { reveal_strlit("8"); }
        "8"
    } else {
        proof { reveal_strlit("9"); }
        "9"
    }
}

/// Appends the decimal rendering of `n` to `s`.
pub fn push_decimal(s: &mut String, n: u64)
    ensures
        final(s)@ == old(s)@ + decimal(n as nat),
    decreases n,
{
    if n >= 10 {
        push_decimal(s, n / 10);
    }
    let d = digit_str(n % 10);
    s.append(d);
    proof {
        if n >= 10 {
            assert(decimal(n as nat) == decimal((n / 10) as nat).push(digit_char((n % 10) as nat)));
        }
    }
}

/// Converts mebibytes to bytes.
pub fn mib_to_bytes(val: u64) -> (bytes: u64)
    requires
        val * MIB <= u64::MAX,
    ensures
        bytes == val * MIB,
{
    val * MIB
}

/// `byte_count` in units of `conversion`, with two truncated decimals, then `suffix`.
pub open spec fn in_format(byte_count: nat, conversion: nat, suffix: Seq<char>) -> Seq<char> {
    decimal(byte_count / conversion) + seq!['.'] + decimal_pad2(
        (byte_count % conversion) * 100 / conversion,
    ) + suffix
}

/// Renders `byte_count` in units of `conversion` with two truncated decimal places.
pub fn get_in_format(byte_count: u64, conversion: u64, suffix: &str) -> (s: String)
    requires
        conversion > 0,
        (byte_count % conversion) * 100 <= u64::MAX,
    ensures
        s@ == in_format(byte_count as nat, conversion as nat, suffix@),
{
    let converted_value = byte_count / conversion;
    let rem = byte_count % conversion;
    let decimal_part = rem * 100 / conversion;
    assert(decimal_part < 100) by (nonlinear_arith)
        requires decimal_part == (rem * 100) as int / conversion as int, rem < conversion, conversion > 0;
    let mut s = String::new();
    push_decimal(&mut s, converted_value);
    proof { reveal_strlit("."); }
    s.append(".");
    if decimal_part < 10 {
        proof { reveal_strlit("0"); }
        s.append("0");
    }
    push_decimal(&mut s, decimal_part);
    s.append(suffix);
    proof {
        if decimal_part < 10 {
            assert(decimal(decimal_part as nat) == seq![digit_char(decimal_part as nat)]);
        }
    }
    s
}

/// The rendering of a byte count: in KiB below one MiB, in MiB from there on.
pub open spec fn bytes_display(val: nat) -> Seq<char> {
    if val < MIB {
        in_format(val, KIB as nat, seq!['K', 'i', 'B'])
    } else {
        in_format(val, MIB as nat, seq!['M', 'i', 'B'])
    }
}

/// Renders a byte count for people, in KiB or MiB with two decimals.
pub fn bytes_to_display(val: u64) -> (s: String)
    ensures
        s@ == bytes_display(val as nat),
{
    if val < MIB {
        proof { reveal_strlit("KiB"); }
        get_in_format(val, KIB, "KiB")
    } else {
        proof { reveal_strlit("MiB"); }
        get_in_format(val, MIB, "MiB")
    }
}

/// The rendering of a span of milliseconds: `"<n>ms"` under a second,
/// `"<n>s"` under a minute, `"<m>m<s>s"` from there on.
pub open spec fn elapsed_display(elapsed: nat) -> Seq<char> {
    if elapsed < 1000 {
        decimal(elapsed) + seq!['m', 's']
    } else if elapsed < 60000 {
        decimal(elapsed / 1000) + seq!['s']
    } else {
        decimal(elapsed / 1000 / 60) + seq!['m'] + decimal(elapsed / 1000 % 60) + seq!['s']
    }
}

/// Renders an elapsed time given in milliseconds for people.
pub fn human_elapsed(elapsed: u64) -> (s: String)
    ensures
        s@ == elapsed_display(elapsed as nat),
{
    let mut s = String::new();
    if elapsed < 1000 {
        push_decimal(&mut s, elapsed);
        proof { reveal_strlit("ms"); }
        s.append("ms");
        return s;
    }
    if elapsed < 60000 {
        push_decimal(&mut s, elapsed / 1000);
        proof { reveal_strlit("s"); }
        s.append("s");
        return s;
    }
    let seconds = elapsed / 1000;
    let minutes = seconds / 60;
    let seconds_remainder = seconds % 60;
    push_decimal(&mut s, minutes);
    proof { reveal_strlit("m"); reveal_strlit("s"); }
    s.append("m");
    push_decimal(&mut s, seconds_remainder);
    s.append("s");
    s
}

} // verus!
