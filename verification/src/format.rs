//! Format selection and human-readable number rendering.
use vstd::prelude::*;
use vstd::string::StringExecFns;

use crate::chars::{push_char, spec_u64_dec, spec_digit_char, u64_dec};
use crate::err::TydleError;

verus! {

/// The stream-selection formats the command line accepts.
#[derive(Debug, Clone, Copy, PartialEq, Eq, Structural)]
pub enum Format {
    BestAudio,
    BestVideo,
    WorstAudio,
    WorstVideo,
}

pub open spec fn spec_parse_format(s: Seq<char>) -> Option<Format> {
    if s == "bestaudio"@ {
        Some(Format::BestAudio)
    } else if s == "bestvideo"@ {
        Some(Format::BestVideo)
    } else if s == "worstaudio"@ {
        Some(Format::WorstAudio)
    } else if s == "worstvideo"@ {
        Some(Format::WorstVideo)
    } else {
        None
    }
}

/// Parses a format selector; fails exactly on the unknown names.
pub fn parse_format(format: &str) -> (r: Result<Format, TydleError>)
    ensures
        (r matches Ok(f) ==> spec_parse_format(format@) == Some(f)),
        r is Err <==> spec_parse_format(format@) is None,
        (r matches Err(e) ==> e == TydleError::InvalidInput),
{
    if crate::chars::str_eq(format, "bestaudio") {
        Ok(Format::BestAudio)
    } else if crate::chars::str_eq(format, "bestvideo") {
        Ok(Format::BestVideo)
    } else if crate::chars::str_eq(format, "worstaudio") {
        Ok(Format::WorstAudio)
    } else if crate::chars::str_eq(format, "worstvideo") {
        Ok(Format::WorstVideo)
    } else {
        Err(TydleError::InvalidInput)
    }
}

/// The compact rendering of `n`: one decimal digit of the fraction,
/// truncated, with a `K`, `M` or `B` suffix past each power of a thousand.
pub open spec fn spec_compact_num(n: nat) -> Seq<char> {
    if n >= 1_000_000_000 {
        spec_u64_dec(n / 1_000_000_000) + seq!['.'] + seq![
            spec_digit_char((n % 1_000_000_000) / 100_000_000),
        ] + seq!['B']
    } else if n >= 1_000_000 {
        spec_u64_dec(n / 1_000_000) + seq!['.'] + seq![spec_digit_char((n % 1_000_000) / 100_000)]
            + seq!['M']
    } else if n >= 1_000 {
        spec_u64_dec(n / 1_000) + seq!['.'] + seq![spec_digit_char((n % 1_000) / 100)] + seq!['K']
    } else {
        spec_u64_dec(n)
    }
}

/// Renders `n` compactly: `1.0K` at a thousand, `1.0M` at a million,
/// `1.0B` at a billion; plain decimal below a thousand.
pub fn compact_num(n: u64) -> (r: String)
    ensures
        r@ == spec_compact_num(n as nat),
{
    if n >= 1_000_000_000 {
        let mut s = u64_dec(n / 1_000_000_000);
        push_char(&mut s, '.');
        push_char(&mut s, crate::chars::digit_char((n % 1_000_000_000) / 100_000_000));
        push_char(&mut s, 'B');
        proof {
            lemma_push_shape(spec_u64_dec((n / 1_000_000_000) as nat), spec_digit_char(
                (((n as nat) % 1_000_000_000) / 100_000_000),
            ), 'B');
        }
        s
    } else if n >= 1_000_000 {
        let mut s = u64_dec(n / 1_000_000);
        push_char(&mut s, '.');
        push_char(&mut s, crate::chars::digit_char((n % 1_000_000) / 100_000));
        push_char(&mut s, 'M');
        proof {
            lemma_push_shape(spec_u64_dec((n / 1_000_000) as nat), spec_digit_char(
                (((n as nat) % 1_000_000) / 100_000),
            ), 'M');
        }
        s
    } else if n >= 1_000 {
        let mut s = u64_dec(n / 1_000);
        push_char(&mut s, '.');
        push_char(&mut s, crate::chars::digit_char((n % 1_000) / 100));
        push_char(&mut s, 'K');
        proof {
            lemma_push_shape(spec_u64_dec((n / 1_000) as nat), spec_digit_char(
                (((n as nat) % 1_000) / 100),
            ), 'K');
        }
        s
    } else {
        u64_dec(n)
    }
}

proof fn lemma_push_shape(base: Seq<char>, frac: char, suffix: char)
    ensures
        base.push('.').push(frac).push(suffix) =~= base + seq!['.'] + seq![frac] + seq![suffix],
{
}

/// The human-readable size of `bytes`: two fraction digits, truncated,
/// against binary unit steps.
pub open spec fn spec_human_size(b: nat) -> Seq<char> {
    let gib: nat = 0x40000000;
    let mib: nat = 0x100000;
    let kib: nat = 1024;
    if b >= gib {
        spec_size_with_unit(b, gib, "GiB"@)
    } else if b >= mib {
        spec_size_with_unit(b, mib, "MiB"@)
    } else if b >= kib {
        spec_size_with_unit(b, kib, "KiB"@)
    } else {
        spec_u64_dec(b) + seq!['B']
    }
}

pub open spec fn spec_size_with_unit(b: nat, unit: nat, name: Seq<char>) -> Seq<char>
    recommends
        unit >= 1,
{
    spec_u64_dec(b / unit) + seq!['.'] + seq![spec_digit_char(((b % unit) * 100 / unit) / 10)]
        + seq![spec_digit_char(((b % unit) * 100 / unit) % 10)] + name
}

fn size_with_unit(b: u64, unit: u64, name: &str) -> (r: String)
    requires
        1024 <= unit <= 0x40000000,
    ensures
        r@ == spec_size_with_unit(b as nat, unit as nat, name@),
{
    let mut s = u64_dec(b / unit);
    let bm = b % unit;
    proof {
        assert((bm as int) * 100 <= 0x40000000 * 100) by (nonlinear_arith)
            requires
                0 <= (bm as int) < (unit as int) <= 0x40000000,
        ;
    }
    let frac = bm * 100 / unit;
    proof {
        assert((frac as int) < 100) by (nonlinear_arith)
            requires
                (frac as int) == (bm as int) * 100 / (unit as int),
                0 <= (bm as int) < (unit as int),
                (unit as int) >= 1,
        ;
    }
    push_char(&mut s, '.');
    push_char(&mut s, crate::chars::digit_char(frac / 10));
    push_char(&mut s, crate::chars::digit_char(frac % 10));
    let mut out = s;
    out.append(name);
    proof {
        assert(spec_u64_dec((b / unit) as nat).push('.').push(
            spec_digit_char(((frac / 10) as nat)),
        ).push(spec_digit_char(((frac % 10) as nat))) + name@ =~= spec_size_with_unit(
            b as nat,
            unit as nat,
            name@,
        ));
    }
    out
}

/// Renders `bytes` as `B`, `KiB`, `MiB` or `GiB` with two fraction digits.
pub fn human_readable_size(bytes: u64) -> (r: String)
    ensures
        r@ == spec_human_size(bytes as nat),
{
    if bytes >= 0x40000000 {
        size_with_unit(bytes, 0x40000000, "GiB")
    } else if bytes >= 0x100000 {
        size_with_unit(bytes, 0x100000, "MiB")
    } else if bytes >= 1024 {
        size_with_unit(bytes, 1024, "KiB")
    } else {
        let mut s = u64_dec(bytes);
        push_char(&mut s, 'B');
        proof {
            assert(spec_u64_dec(bytes as nat).push('B') =~= spec_u64_dec(bytes as nat)
                + seq!['B']);
        }
        s
    }
}

/// The `<height>x<width>` rendering when both sides are known, else empty.
pub open spec fn spec_resolution(height: Option<u64>, width: Option<u64>) -> Seq<char> {
    match (height, width) {
        (Some(h), Some(w)) => spec_u64_dec(h as nat) + seq!['x'] + spec_u64_dec(w as nat),
        _ => Seq::empty(),
    }
}

/// Renders `<height>x<width>`, or the empty string when either is unknown.
pub fn get_resolution(height: Option<u64>, width: Option<u64>) -> (r: String)
    ensures
        r@ == spec_resolution(height, width),
{
    match (height, width) {
        (Some(h), Some(w)) => {
            let mut s = u64_dec(h);
            push_char(&mut s, 'x');
            let mut out = s;
            let tail = u64_dec(w);
            out.append(tail.as_str());
            proof {
                assert(spec_u64_dec(h as nat).push('x') + spec_u64_dec(w as nat)
                    =~= spec_u64_dec(h as nat) + seq!['x'] + spec_u64_dec(w as nat));
            }
            out
        },
        _ => String::new(),
    }
}

} // verus!
