//! The archive-cache key: a 128-bit digest of the distribution URL rendered
//! in base 36, and the rendering helpers shared with the hex cache key.
use vstd::prelude::*;

verus! {

use vstd::arithmetic::div_mod::{lemma_div_is_strictly_smaller, lemma_mod_bound};
use vstd::arithmetic::power2::{lemma2_to64, lemma_pow2_adds, lemma_pow2_strictly_increases, pow2};

/// The big-endian value of a byte sequence.
pub open spec fn be_value(bytes: Seq<u8>) -> nat
    decreases bytes.len(),
{
    if bytes.len() == 0 {
        0nat
    } else {
        (be_value(bytes.drop_last()) * 256 + bytes.last()) as nat
    }
}

/// A big-endian byte value is bounded by two to the eight times the length.
pub proof fn lemma_be_value_bound(bytes: Seq<u8>)
    ensures
        be_value(bytes) < pow2(8 * bytes.len()),
    decreases bytes.len(),
{
    if bytes.len() == 0 {
        assert(pow2(0) == 1) by {
            lemma2_to64();
        }
    } else {
        lemma_be_value_bound(bytes.drop_last());
        lemma_pow2_adds(8 * (bytes.len() - 1) as nat, 8);
        assert(pow2(8) == 256) by {
            lemma2_to64();
        }
    }
}

/// Reads sixteen bytes as one big-endian 128-bit integer.
pub fn be_bytes_to_u128(bytes: &Vec<u8>) -> (n: u128)
    requires
        bytes@.len() == 16,
    ensures
        n as nat == be_value(bytes@),
{
    let mut n: u128 = 0;
    let mut i: usize = 0;
    while i < 16
        invariant
            bytes@.len() == 16,
            i <= 16,
            n as nat == be_value(bytes@.take(i as int)),
        decreases 16 - i,
    {
        proof {
            lemma_be_value_bound(bytes@.take(i as int));
            lemma_pow2_adds(8 * i as nat, 8);
            if 8 * (i + 1) < 128 {
                lemma_pow2_strictly_increases(8 * (i + 1) as nat, 128);
            }
            lemma_pow2_adds(64, 64);
            lemma2_to64();
            assert(pow2(8) == 256);
            assert(bytes@.take(i + 1).drop_last() =~= bytes@.take(i as int));
        }
        n = n * 256 + (bytes[i] as u128);
        i = i + 1;
    }
    proof {
        assert(bytes@.take(16) =~= bytes@);
    }
    n
}

/// The digit character for `d` in a radix up to 36: `0`-`9` then `a`-`z`.
pub open spec fn digit_char(d: nat) -> char
    recommends
        d < 36,
{
    if d < 10 {
        (48 + d) as char
    } else {
        (87 + d) as char
    }
}

/// The digits of `n` in the given base, most significant first; empty for 0.
pub open spec fn radix_digits(n: nat, base: nat) -> Seq<char>
    recommends
        2 <= base <= 36,
    decreases n,
    when base >= 2
    via radix_digits_dec
{
    if n == 0 {
        Seq::empty()
    } else {
        radix_digits(n / base, base).push(digit_char(n % base))
    }
}

#[via_fn]
proof fn radix_digits_dec(n: nat, base: nat) {
    if n > 0 {
        lemma_div_is_strictly_smaller(n as int, base as int);
    }
}

/// The rendering of `n` in the given base: its digits, or `0` alone.
pub open spec fn radix_string(n: nat, base: nat) -> Seq<char>
    recommends
        2 <= base <= 36,
{
    if n == 0 {
        seq!['0']
    } else {
        radix_digits(n, base)
    }
}

/// The digit character for `d`, lower case.
fn digit_char_exec(d: u128) -> (c: char)
    requires
        d < 36,
    ensures
        c == digit_char(d as nat),
{
    match d {
        0 => '0',
        1 => '1',
        2 => '2',
        3 => '3',
        4 => '4',
        5 => '5',
        6 => '6',
        7 => '7',
        8 => '8',
        9 => '9',
        10 => 'a',
        11 => 'b',
        12 => 'c',
        13 => 'd',
        14 => 'e',
        15 => 'f',
        16 => 'g',
        17 => 'h',
        18 => 'i',
        19 => 'j',
        20 => 'k',
        21 => 'l',
        22 => 'm',
        23 => 'n',
        24 => 'o',
        25 => 'p',
        26 => 'q',
        27 => 'r',
        28 => 's',
        29 => 't',
        30 => 'u',
        31 => 'v',
        32 => 'w',
        33 => 'x',
        34 => 'y',
        _ => 'z',
    }
}

/// Renders `n` in the given base, lower case, without leading zeroes.
pub fn to_radix(n: u128, base: u32) -> (v: Vec<char>)
    requires
        2 <= base <= 36,
    ensures
        v@ == radix_string(n as nat, base as nat),
{
    if n == 0 {
        let mut v: Vec<char> = Vec::new();
        v.push('0');
        proof {
            assert(v@ =~= radix_string(0, base as nat));
        }
        return v;
    }
    let mut digits: Vec<char> = Vec::new();
    let mut m: u128 = n;
    while m > 0
        invariant
            2 <= base <= 36,
            radix_digits(n as nat, base as nat) == radix_digits(m as nat, base as nat)
                + digits@.reverse(),
        decreases m,
    {
        let d = m % (base as u128);
        proof {
            lemma_mod_bound(m as int, base as int);
            lemma_div_is_strictly_smaller(m as int, base as int);
            let md = (m as nat) / (base as nat);
            assert(radix_digits(m as nat, base as nat) == radix_digits(md, base as nat).push(
                digit_char((m as nat) % (base as nat)),
            ));
            assert(digits@.push(digit_char((m as nat) % (base as nat))).reverse() =~= seq![
                digit_char((m as nat) % (base as nat)),
            ] + digits@.reverse());
            assert(radix_digits(md, base as nat).push(digit_char((m as nat) % (base as nat)))
                + digits@.reverse() =~= radix_digits(md, base as nat) + digits@.push(
                digit_char((m as nat) % (base as nat)),
            ).reverse());
        }
        digits.push(digit_char_exec(d));
        m = m / (base as u128);
    }
    let k = digits.len();
    let mut v: Vec<char> = Vec::new();
    let mut i: usize = 0;
    while i < k
        invariant
            k == digits@.len(),
            i <= k,
            v@.len() == i,
            forall|j: int| 0 <= j < i ==> v@[j] == digits@[k - 1 - j],
        decreases k - i,
    {
        v.push(digits[k - 1 - i]);
        i = i + 1;
    }
    proof {
        assert(v@ =~= digits@.reverse());
        assert(radix_digits(0, base as nat) + digits@.reverse() =~= digits@.reverse());
        assert(radix_string(n as nat, base as nat) == radix_digits(n as nat, base as nat));
    }
    v
}

/// The MD5 digest of the UTF-8 bytes of a string, as sixteen bytes.
pub uninterp spec fn md5_of(s: Seq<char>) -> Seq<u8>;

/// Relies on the crypto crate's MD5 (`Md5::new`, `Digest::input`,
/// `Digest::result`): the digest is sixteen bytes and depends on the input
/// bytes alone.
#[verifier::external_body]
fn md5_digest(s: &str) -> (r: Vec<u8>)
    ensures
        r@ == md5_of(s@),
        r@.len() == 16,
{
    let mut hasher = crypto::md5::Md5::new();
    crypto::digest::Digest::input(&mut hasher, s.as_bytes());
    let mut output = [0u8; 16];
    crypto::digest::Digest::result(&mut hasher, &mut output);
    output.to_vec()
}

/// The archive-cache key of a distribution URL: its MD5 digest read as one
/// big-endian unsigned integer and rendered in base 36, lower case.
pub fn md5decimal(s: &str) -> (r: String)
    ensures
        r@ == radix_string(be_value(md5_of(s@)), 36),
{
    let d = md5_digest(s);
    let n = be_bytes_to_u128(&d);
    let v = to_radix(n, 36);
    crate::text::chars_to_string(&v)
}

/// The value of a signed 32-bit hash reinterpreted as unsigned.
pub open spec fn unsigned32(h: i32) -> nat {
    if h >= 0 {
        h as nat
    } else {
        (h + 0x1_0000_0000) as nat
    }
}

/// Renders a 32-bit hash as the lower-case hex of its unsigned
/// reinterpretation, the form the hex cache-directory segment takes.
pub fn hash_hex(h: i32) -> (r: String)
    ensures
        r@ == radix_string(unsigned32(h), 16),
{
    let wide: i64 = h as i64;
    let u: u64 = if wide >= 0 {
        wide as u64
    } else {
        (wide + 0x1_0000_0000i64) as u64
    };
    let v = to_radix(u as u128, 16);
    crate::text::chars_to_string(&v)
}

} // verus!
