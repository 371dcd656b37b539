//! Decimal rendering of the numeric configuration fields.
//!
//! Every number that ends up in an argument token goes through these
//! functions: plain decimals, kilobit rates with a `k` suffix, and
//! fixed-point values shown with three (or two) fractional digits.

use vstd::prelude::*;

verus! {

/// The character for a single decimal digit value.
pub open spec fn spec_digit(d: nat) -> char {
    if d == 0 {
        '0'
    } else if d == 1 {
        '1'
    } else if d == 2 {
        '2'
    } else if d == 3 {
        '3'
    } else if d == 4 {
        '4'
    } else if d == 5 {
        '5'
    } else if d == 6 {
        '6'
    } else if d == 7 {
        '7'
    } else if d == 8 {
        '8'
    } else {
        '9'
    }
}

/// The usual decimal rendering of a natural number, without sign or padding.
pub open spec fn spec_dec(n: nat) -> Seq<char>
    decreases n,
{
    if n < 10 {
        seq![spec_digit(n)]
    } else {
        spec_dec(n / 10).push(spec_digit(n % 10))
    }
}

pub open spec fn is_digit_char(c: char) -> bool {
    '0' <= c && c <= '9'
}

/// Every character of a decimal rendering is a digit; in particular the
/// first one is, so a rendered number never looks like a flag token.
pub proof fn lemma_spec_dec_digits(n: nat)
    ensures
        spec_dec(n).len() >= 1,
        forall|i: int| 0 <= i < spec_dec(n).len() ==> is_digit_char(#[trigger] spec_dec(n)[i]),
    decreases n,
{
    if n >= 10 {
        lemma_spec_dec_digits(n / 10);
    }
}

/// Distinct numbers render to distinct digit strings.
pub proof fn lemma_spec_dec_injective(a: nat, b: nat)
    requires
        spec_dec(a) == spec_dec(b),
    ensures
        a == b,
    decreases a,
{
    if a < 10 && b < 10 {
        assert(spec_dec(a)[0] == spec_digit(a));
        assert(spec_dec(b)[0] == spec_digit(b));
        assert(spec_digit(a) == spec_digit(b));
        assert(a == b);
    } else if a < 10 && b >= 10 {
        lemma_spec_dec_digits(b / 10);
        assert(spec_dec(b).len() >= 2);
    } else if a >= 10 && b < 10 {
        lemma_spec_dec_digits(a / 10);
        assert(spec_dec(a).len() >= 2);
    } else {
        let pa = spec_dec(a / 10);
        let pb = spec_dec(b / 10);
        assert(pa.push(spec_digit(a % 10)).last() == spec_digit(a % 10));
        assert(pb.push(spec_digit(b % 10)).last() == spec_digit(b % 10));
        assert(a % 10 == b % 10);
        assert(pa =~= pb) by {
            assert(pa.push(spec_digit(a % 10)).drop_last() =~= pa);
            assert(pb.push(spec_digit(b % 10)).drop_last() =~= pb);
        }
        lemma_spec_dec_injective(a / 10, b / 10);
    }
}

fn digit_char(d: u64) -> (c: char)
    requires
        d < 10,
    ensures
        c == spec_digit(d as nat),
{
    match d {
        0 => '0',
        1 => '1',
        2 => '2',
        3 => '3',
        4 => '4',
        5 => '5',
        6 => '6',
        7 => '7',
        8 => '8',
        _ => '9',
    }
}

/// Appends the given character; the one string operation std has that
/// vstd leaves unspecified.  Relies on `String::push`, which appends
/// exactly the given `char` to the end of the string.
#[verifier::external_body]
pub fn push_char(s: &mut String, c: char)
    ensures
        final(s)@ == old(s)@.push(c),
{
    s.push(c);
}

/// Renders `n` in decimal.
pub fn u64_to_dec(n: u64) -> (r: String)
    ensures
        r@ == spec_dec(n as nat),
    decreases n,
{
    if n < 10 {
        let mut s = String::new();
        push_char(&mut s, digit_char(n));
        s
    } else {
        let mut s = u64_to_dec(n / 10);
        push_char(&mut s, digit_char(n % 10));
        s
    }
}

/// A kilobit-per-second rate as the transcoder wants it, e.g. `2000k`.
pub open spec fn spec_kbps(n: nat) -> Seq<char> {
    spec_dec(n) + "k"@
}

pub fn kbps_token(n: u32) -> (r: String)
    ensures
        r@ == spec_kbps(n as nat),
{
    let mut s = u64_to_dec(n as u64);
    push_char(&mut s, 'k');
    proof {
        reveal_strlit("k");
        assert(s@ =~= spec_kbps(n as nat));
    }
    s
}

/// A value held in thousandths, rendered with exactly three fractional
/// digits, e.g. 29970 thousandths renders as `29.970`.
pub open spec fn spec_milli3(m: nat) -> Seq<char> {
    spec_dec(m / 1000) + "."@ + spec_pad3(m % 1000)
}

/// Three-digit zero-padded rendering of a value below 1000.
pub open spec fn spec_pad3(f: nat) -> Seq<char> {
    if f < 10 {
        "00"@ + spec_dec(f)
    } else if f < 100 {
        "0"@ + spec_dec(f)
    } else {
        spec_dec(f)
    }
}

pub fn milli3_token(m: u32) -> (r: String)
    ensures
        r@ == spec_milli3(m as nat),
{
    let mut s = u64_to_dec((m / 1000) as u64);
    push_char(&mut s, '.');
    let f: u32 = m % 1000;
    if f < 10 {
        push_char(&mut s, '0');
        push_char(&mut s, '0');
    } else if f < 100 {
        push_char(&mut s, '0');
    }
    let fs = u64_to_dec(f as u64);
    let r = s.concat(fs.as_str());
    proof {
        reveal_strlit(".");
        reveal_strlit("0");
        reveal_strlit("00");
        assert(r@ =~= spec_milli3(m as nat));
    }
    r
}

pub proof fn lemma_spec_dec_len_small(n: nat)
    ensures
        n < 10 ==> spec_dec(n).len() == 1,
        10 <= n < 100 ==> spec_dec(n).len() == 2,
        100 <= n < 1000 ==> spec_dec(n).len() == 3,
    decreases n,
{
    if n >= 10 {
        lemma_spec_dec_len_small(n / 10);
    }
}

/// A zero-padded fraction is always three digits wide.
pub proof fn lemma_pad3_len(f: nat)
    ensures
        f < 1000 ==> spec_pad3(f).len() == 3,
        spec_pad3(f).len() >= 1,
{
    reveal_strlit("0");
    reveal_strlit("00");
    lemma_spec_dec_len_small(f);
    lemma_spec_dec_digits(f);
}

/// A value held in thousandths, rendered with exactly two fractional
/// digits (truncating the third), e.g. 90500 thousandths renders `90.50`.
pub open spec fn spec_milli2(m: nat) -> Seq<char> {
    spec_dec(m / 1000) + "."@ + spec_pad2((m % 1000) / 10)
}

/// Two-digit zero-padded rendering of a value below 100.
pub open spec fn spec_pad2(f: nat) -> Seq<char> {
    if f < 10 {
        "0"@ + spec_dec(f)
    } else {
        spec_dec(f)
    }
}

pub fn milli2_token(m: u64) -> (r: String)
    ensures
        r@ == spec_milli2(m as nat),
{
    let mut s = u64_to_dec(m / 1000);
    push_char(&mut s, '.');
    let f: u64 = (m % 1000) / 10;
    if f < 10 {
        push_char(&mut s, '0');
    }
    let fs = u64_to_dec(f);
    let r = s.concat(fs.as_str());
    proof {
        reveal_strlit(".");
        reveal_strlit("0");
        assert(r@ =~= spec_milli2(m as nat));
    }
    r
}

} // verus!
