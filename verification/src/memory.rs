//! The installed memory: its total size in gibibytes with two decimals, as the
//! agent prints it from a 64-bit float, and its speed.
use vstd::prelude::*;
use vstd::utf8::{decode_utf8, valid_utf8};

use crate::digits::{digit_run_match, find_digit_run};
use crate::getinfo::{gib, trimmed_output, CommandOutput};
use crate::strings::{decode_strict, lossy_chars, string_from_chars};
use crate::text::{
    append_chars, chars_of, decimal, digit_char, parse_u32, parse_u64, spec_parse_u32,
    spec_parse_u64, to_decimal, trim,
};

verus! {

// ---------------------------------------------------------------------------
// The value of a 64-bit integer as a 64-bit float
// ---------------------------------------------------------------------------

/// Two to the power `e`.
pub open spec fn two_to(e: nat) -> nat
    decreases e,
{
    if e == 0 {
        1
    } else {
        2 * two_to((e - 1) as nat)
    }
}

/// The number of binary digits of `n` (0 for 0).
pub open spec fn bit_length(n: nat) -> nat
    decreases n,
{
    if n == 0 {
        0
    } else {
        1 + bit_length(n / 2)
    }
}

/// `num / den` rounded to the nearest integer, ties to the even one.
pub open spec fn round_half_even(num: nat, den: nat) -> nat
    recommends
        den > 0,
{
    let q = num / den;
    let r = num % den;
    if 2 * r > den || (2 * r == den && q % 2 == 1) {
        q + 1
    } else {
        q
    }
}

/// The value that `n as f64` holds: `n` rounded to 53 significant bits, ties
/// to even (IEEE 754 round to nearest).
pub open spec fn as_f64(n: nat) -> nat {
    if bit_length(n) <= 53 {
        n
    } else {
        let e = (bit_length(n) - 53) as nat;
        round_half_even(n, two_to(e)) * two_to(e)
    }
}

/// The hundredths of a gibibyte that `format!("{:.2}", n as f64 / 2^30)` shows:
/// the float's exact value rounded to two decimals, ties to even.
pub open spec fn gib_hundredths(n: nat) -> nat {
    round_half_even(100 * as_f64(n), gib())
}

/// Two decimal digits of `k < 100`.
pub open spec fn two_digits(k: nat) -> Seq<char> {
    seq![digit_char(k / 10), digit_char(k % 10)]
}

/// `n` bytes in gibibytes with two decimals, as `format!("{:.2}", n as f64 / 2^30)`
/// writes them.
pub open spec fn gib_text(n: nat) -> Seq<char> {
    decimal(gib_hundredths(n) / 100) + seq!['.'] + two_digits(gib_hundredths(n) % 100)
}

proof fn lemma_bit_length_bound(n: nat, k: nat)
    requires
        n < two_to(k),
    ensures
        bit_length(n) <= k,
    decreases k,
{
    if k > 0 && n > 0 {
        lemma_bit_length_bound(n / 2, (k - 1) as nat);
    }
}

/// `num / den` rounded to the nearest integer, ties to even.
fn round_half_even_exec(num: u128, den: u128) -> (q: u128)
    requires
        den > 0,
        num / den < u128::MAX,
    ensures
        q == round_half_even(num as nat, den as nat),
{
    let q = num / den;
    let r = num % den;
    assert(r < den);
    if r > den - r || (r == den - r && q % 2 == 1) {
        q + 1
    } else {
        q
    }
}

/// The value of `n as f64`, as an integer.
fn f64_value(n: u64) -> (v: u128)
    ensures
        v == as_f64(n as nat),
        v <= 0x1_0000_0000_0000_0800,
{
    let mut len: u64 = 0;
    let mut m: u64 = n;
    proof {
        reveal_with_fuel(two_to, 65);
        lemma_bit_length_bound(n as nat, 64);
    }
    while m > 0
        invariant
            bit_length(n as nat) == len + bit_length(m as nat),
            bit_length(n as nat) <= 64,
        decreases m,
    {
        m = m / 2;
        len = len + 1;
    }
    if len <= 53 {
        n as u128
    } else {
        let e = len - 53;
        let mut p: u128 = 1;
        let mut i: u64 = 0;
        while i < e
            invariant
                i <= e <= 11,
                p == two_to(i as nat),
                p <= 2048,
            decreases e - i,
        {
            proof {
                reveal_with_fuel(two_to, 12);
            }
            assert(two_to((i + 1) as nat) == 2 * two_to(i as nat));
            p = p * 2;
            i = i + 1;
            assert(p <= 2048) by {
                reveal_with_fuel(two_to, 12);
            }
        }
        let nn = n as u128;
        assert(nn / p <= nn) by (nonlinear_arith)
            requires
                p >= 1,
        ;
        let q = round_half_even_exec(nn, p);
        assert(q * p <= nn + p) by (nonlinear_arith)
            requires
                p >= 1,
                q <= nn / p + 1,
        ;
        q * p
    }
}

/// `n` bytes in gibibytes with two decimals.
pub fn gib_two_decimals(n: u64) -> (s: Vec<char>)
    ensures
        s@ == gib_text(n as nat),
{
    let f = f64_value(n);
    let num = 100 * f;
    let h = round_half_even_exec(num, 1073741824);
    assert(h <= num / 1073741824 + 1);
    assert(h / 100 <= 0xffff_ffff_ffff_ffff) by (nonlinear_arith)
        requires
            h <= num / 1073741824 + 1,
            num == 100 * f,
            f <= 0x1_0000_0000_0000_0800,
    ;
    let whole = (h / 100) as u64;
    let frac = (h % 100) as u64;
    let mut out = to_decimal(whole);
    out.push('.');
    let tens = ((frac / 10) as u8 + 48u8) as char;
    let ones = ((frac % 10) as u8 + 48u8) as char;
    out.push(tens);
    out.push(ones);
    assert(out@ =~= gib_text(n as nat));
    out
}

// ---------------------------------------------------------------------------
// The memory report
// ---------------------------------------------------------------------------

/// The speed that the memory speed query reports: the first run of digits in
/// its output, read as a 32-bit number. Nothing when the query could not run,
/// its output is not UTF-8, holds no digits, or the digits do not fit.
pub open spec fn ram_speed(output: Option<CommandOutput>) -> Option<u32> {
    match output {
        Some(o) => if valid_utf8(o.stdout@) {
            match digit_run_match(decode_utf8(o.stdout@)) {
                Some((a, b)) => spec_parse_u32(decode_utf8(o.stdout@).subrange(a, b)),
                None => None,
            }
        } else {
            None
        },
        None => None,
    }
}

/// The speed of the memory, in MHz, from the output of the speed query.
pub fn get_ram_speed(output: Option<CommandOutput>) -> (speed: Option<u32>)
    ensures
        speed == ram_speed(output),
{
    let o = match output {
        Some(o) => o,
        None => return None,
    };
    let text = match decode_strict(o.stdout) {
        Some(t) => t,
        None => return None,
    };
    match find_digit_run(text.as_str()) {
        Some(m) => {
            let digits = chars_of(m.as_str());
            parse_u32(digits.as_slice())
        },
        None => None,
    }
}

/// The memory report for `bytes` of memory running at `speed`:
/// `<size> GB <speed>MHz`, or `<size> GB` when the speed is unknown.
pub open spec fn ram_text(bytes: nat, speed: Option<u32>) -> Seq<char> {
    match speed {
        Some(mhz) => gib_text(bytes) + " GB "@ + decimal(mhz as nat) + "MHz"@,
        None => gib_text(bytes) + " GB"@,
    }
}

/// The report of the total memory: the capacity that the query sums, in
/// gibibytes with two decimals, and the speed when it is known; or the error
/// that stopped it.
pub open spec fn total_ram_report(output: Option<CommandOutput>, speed: Option<u32>) -> Seq<char> {
    match output {
        Some(o) => if o.success {
            match spec_parse_u64(trimmed_output(o)) {
                Some(bytes) => ram_text(bytes as nat, speed),
                None => "Erro ao processar a memória total"@,
            }
        } else {
            "Erro ao executar o comando PowerShell"@
        },
        None => "Erro ao executar o comando"@,
    }
}

/// The total memory, from the output of the capacity query and the speed that
/// `get_ram_speed` found (which is only asked for when the query succeeded).
pub fn get_total_ram(output: Option<CommandOutput>, speed: Option<u32>) -> (s: String)
    ensures
        s@ == total_ram_report(output, speed),
{
    match output {
        Some(o) => {
            if o.success {
                let text = lossy_chars(o.stdout.as_slice());
                let t = trim(text.as_slice());
                match parse_u64(t.as_slice()) {
                    Some(bytes) => {
                        let mut out = gib_two_decimals(bytes);
                        match speed {
                            Some(mhz) => {
                                let sep = chars_of(" GB ");
                                append_chars(&mut out, sep.as_slice());
                                let digits = to_decimal(mhz as u64);
                                append_chars(&mut out, digits.as_slice());
                                let unit = chars_of("MHz");
                                append_chars(&mut out, unit.as_slice());
                            },
                            None => {
                                let unit = chars_of(" GB");
                                append_chars(&mut out, unit.as_slice());
                            },
                        }
                        string_from_chars(out.as_slice())
                    },
                    None => "Erro ao processar a memória total".to_owned(),
                }
            } else {
                "Erro ao executar o comando PowerShell".to_owned()
            }
        },
        None => "Erro ao executar o comando".to_owned(),
    }
}

} // verus!
