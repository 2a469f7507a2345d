//! Fresh identifiers and their text form.

use vstd::prelude::*;

verus! {

/// Relies on `uuid::Uuid::new_v4` and `Uuid::as_u128`: a freshly generated
/// random identifier, handed out as its 128-bit value. The value is random,
/// so nothing is promised of it: callers hold for every outcome.
#[verifier::external_body]
pub fn fresh_uuid() -> (r: u128) {
    uuid::Uuid::new_v4().as_u128()
}

/// The ASCII byte of a hexadecimal digit value, lower case.
pub open spec fn hex_digit_byte(v: u8) -> u8 {
    if v < 10 {
        (0x30 + v) as u8
    } else {
        (0x57 + v) as u8
    }
}

/// The `n` low hexadecimal digits of `x`, most significant first.
pub open spec fn hex_digits(x: u128, n: nat) -> Seq<u8>
    decreases n,
{
    if n == 0 {
        Seq::empty()
    } else {
        hex_digits(x / 16, (n - 1) as nat) + seq![hex_digit_byte((x % 16) as u8)]
    }
}

proof fn lemma_hex_digits_len(x: u128, n: nat)
    ensures
        hex_digits(x, n).len() == n,
    decreases n,
{
    if n > 0 {
        lemma_hex_digits_len(x / 16, (n - 1) as nat);
    }
}

/// The hyphenated text form of a 128-bit identifier: its 32 hexadecimal
/// digits, most significant first, in five groups of 8, 4, 4, 4 and 12
/// joined by hyphens.
pub open spec fn hyphenated(x: u128) -> Seq<u8> {
    let d = hex_digits(x, 32);
    d.take(8) + seq![0x2du8] + d.subrange(8, 12) + seq![0x2du8] + d.subrange(12, 16) + seq![0x2du8]
        + d.subrange(16, 20) + seq![0x2du8] + d.subrange(20, 32)
}

fn hex_digit_exec(v: u8) -> (r: u8)
    requires
        v < 16,
    ensures
        r == hex_digit_byte(v),
{
    if v < 10 {
        0x30 + v
    } else {
        0x57 + v
    }
}

fn hex_digits_exec(x: u128) -> (r: Vec<u8>)
    ensures
        r@ == hex_digits(x, 32),
{
    let mut acc: Vec<u8> = Vec::new();
    let mut y = x;
    let mut j: usize = 0;
    proof {
        assert(hex_digits(x, 32) =~= hex_digits(x, 32) + acc@);
    }
    while j < 32
        invariant
            j <= 32,
            acc@.len() == j,
            hex_digits(x, 32) == hex_digits(y, (32 - j) as nat) + acc@,
        decreases 32 - j,
    {
        let ghost prev_acc = acc@;
        let ghost m = (32 - j) as nat;
        let d = (y % 16) as u8;
        assert(d < 16 && d == y % 16);
        let c = hex_digit_exec(d);
        acc.insert(0, c);
        y = y / 16;
        j = j + 1;
        proof {
            assert(hex_digits(x, 32) == (hex_digits(y, (m - 1) as nat) + seq![c]) + prev_acc);
            assert(acc@ =~= seq![c] + prev_acc);
            assert((hex_digits(y, (m - 1) as nat) + seq![c]) + prev_acc =~= hex_digits(
                y,
                (m - 1) as nat,
            ) + acc@);
        }
    }
    proof {
        assert(hex_digits(y, 0) =~= Seq::<u8>::empty());
        assert(hex_digits(y, 0) + acc@ =~= acc@);
    }
    acc
}

fn push_range(out: &mut Vec<u8>, d: &Vec<u8>, a: usize, b: usize)
    requires
        a <= b <= d@.len(),
    ensures
        final(out)@ == old(out)@ + d@.subrange(a as int, b as int),
{
    let ghost prev = out@;
    let mut i: usize = a;
    proof {
        assert(prev + d@.subrange(a as int, a as int) =~= prev);
    }
    while i < b
        invariant
            a <= i <= b <= d@.len(),
            out@ == prev + d@.subrange(a as int, i as int),
        decreases b - i,
    {
        out.push(d[i]);
        i = i + 1;
        proof {
            assert(prev + d@.subrange(a as int, i as int) =~= (prev + d@.subrange(
                a as int,
                i - 1,
            )).push(d@[i - 1]));
        }
    }
}

/// The hyphenated text form of an identifier, as `hyphenated` describes;
/// it is always 36 bytes long.
pub fn format_request_id(x: u128) -> (r: Vec<u8>)
    ensures
        r@ == hyphenated(x),
        r@.len() == 36,
{
    let d = hex_digits_exec(x);
    proof {
        lemma_hex_digits_len(x, 32);
    }
    let mut out: Vec<u8> = Vec::new();
    push_range(&mut out, &d, 0, 8);
    out.push(0x2d);
    push_range(&mut out, &d, 8, 12);
    out.push(0x2d);
    push_range(&mut out, &d, 12, 16);
    out.push(0x2d);
    push_range(&mut out, &d, 16, 20);
    out.push(0x2d);
    push_range(&mut out, &d, 20, 32);
    proof {
        assert(d@.subrange(0, 8) =~= d@.take(8));
        assert(out@ =~= hyphenated(x));
    }
    out
}

} // verus!
