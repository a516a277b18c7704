//! The string and URI hash recurrences of the managed runtime whose cache
//! layout this launcher must reproduce, including 32-bit signed wraparound.
use vstd::prelude::*;

verus! {

use vstd::string::StringSliceAdditionalSpecFns;
use vstd::string::StrSliceExecFns;
use vstd::wrapping::i32_specs;

/// One step of the signed 32-bit string-hash recurrence: `h * 31 + v`, wrapping.
pub open spec fn hash_step(h: i32, v: i32) -> i32 {
    i32_specs::wrapping_add(i32_specs::wrapping_mul(h, 31), v)
}

/// Hash of a byte sequence under the runtime's string-hash recurrence,
/// starting from 0 and folding bytes in order.
pub open spec fn string_hash(bytes: Seq<u8>) -> i32
    decreases bytes.len(),
{
    if bytes.len() == 0 {
        0i32
    } else {
        hash_step(string_hash(bytes.drop_last()), bytes.last() as i32)
    }
}

/// Hashes the UTF-8 bytes of `text` with the wrapping `h * 31 + byte` recurrence.
pub fn java_string_hash(text: &str) -> (h: i32)
    ensures
        h == string_hash(text.spec_bytes()),
{
    let bytes = text.as_bytes();
    let n = bytes.len();
    let mut h: i32 = 0;
    let mut i: usize = 0;
    while i < n
        invariant
            n == bytes@.len(),
            i <= n,
            bytes@ == text.spec_bytes(),
            h == string_hash(bytes@.take(i as int)),
        decreases n - i,
    {
        let b = bytes[i];
        proof {
            assert(bytes@.take(i + 1).drop_last() =~= bytes@.take(i as int));
            assert(bytes@.take(i + 1).last() == b);
        }
        h = h.wrapping_mul(31).wrapping_add(b as i32);
        i = i + 1;
    }
    proof {
        assert(bytes@.take(n as int) =~= bytes@);
    }
    h
}

/// Code point of `c` with an ASCII upper-case letter folded to lower case.
pub open spec fn cp_lower(c: char) -> i32 {
    if 'A' <= c && c <= 'Z' {
        (c as i32 + 32) as i32
    } else {
        c as i32
    }
}

/// Code point of `c` with an ASCII lower-case letter folded to upper case.
pub open spec fn cp_upper(c: char) -> i32 {
    if 'a' <= c && c <= 'z' {
        (c as i32 - 32) as i32
    } else {
        c as i32
    }
}

/// String-hash recurrence over characters, each lower-cased first,
/// folded onto the prior hash `h0`.
pub open spec fn lower_hash(h0: i32, s: Seq<char>) -> i32
    decreases s.len(),
{
    if s.len() == 0 {
        h0
    } else {
        hash_step(lower_hash(h0, s.drop_last()), cp_lower(s.last()))
    }
}

/// Hashes the characters of `s` case-insensitively onto `prior`:
/// `h * 31 + lowercase(c)` for each character, wrapping.
pub fn hash_ignoring_case(prior: i32, s: &str) -> (h: i32)
    ensures
        h == lower_hash(prior, s@),
{
    let n = s.unicode_len();
    let mut h: i32 = prior;
    let mut i: usize = 0;
    while i < n
        invariant
            n == s@.len(),
            i <= n,
            h == lower_hash(prior, s@.take(i as int)),
        decreases n - i,
    {
        let c = s.get_char(i);
        proof {
            assert(s@.take(i + 1).drop_last() =~= s@.take(i as int));
            assert(s@.take(i + 1).last() == c);
        }
        let cp: u32 = c as u32;
        let low: i32 = if cp >= 65 && cp <= 90 { (cp + 32) as i32 } else { cp as i32 };
        h = h.wrapping_mul(31).wrapping_add(low);
        i = i + 1;
    }
    proof {
        assert(s@.take(n as int) =~= s@);
    }
    h
}

/// State of the percent-normalizing hash after a character sequence:
/// the accumulated hash and how many following characters are still to be
/// upper-cased (two after each `%`).
pub open spec fn norm_state(s: Seq<char>) -> (i32, int)
    decreases s.len(),
{
    if s.len() == 0 {
        (0i32, 0int)
    } else {
        let prior = norm_state(s.drop_last());
        let c = s.last();
        let eff: i32 = if prior.1 > 0 {
            cp_upper(c)
        } else {
            c as i32
        };
        let h = hash_step(prior.0, eff);
        let up: int = if eff == 37 {
            2int
        } else if prior.1 > 0 {
            prior.1 - 1
        } else {
            0int
        };
        (h, up)
    }
}

/// Hash of `s` with the two characters after each `%` upper-cased, combined
/// onto `h0` as `h0 * 127 + that hash`, wrapping.
pub open spec fn normalized_hash_spec(h0: i32, s: Seq<char>) -> i32 {
    i32_specs::wrapping_add(i32_specs::wrapping_mul(h0, 127), norm_state(s).0)
}

/// Re-hashes `s` with percent-encoding hex digits upper-cased (the two
/// characters after each `%`), then combines the result onto `hash`.
pub fn normalized_hash(prior: i32, s: &str) -> (r: i32)
    ensures
        r == normalized_hash_spec(prior, s@),
{
    let n = s.unicode_len();
    let mut h: i32 = 0;
    let mut up: u8 = 0;
    let mut i: usize = 0;
    while i < n
        invariant
            n == s@.len(),
            i <= n,
            h == norm_state(s@.take(i as int)).0,
            up as int == norm_state(s@.take(i as int)).1,
        decreases n - i,
    {
        let c = s.get_char(i);
        proof {
            assert(s@.take(i + 1).drop_last() =~= s@.take(i as int));
            assert(s@.take(i + 1).last() == c);
        }
        let cp: u32 = c as u32;
        let eff: i32 = if up > 0 {
            if cp >= 97 && cp <= 122 { (cp - 32) as i32 } else { cp as i32 }
        } else {
            cp as i32
        };
        h = h.wrapping_mul(31).wrapping_add(eff);
        up = if eff == 37 {
            2
        } else if up > 0 {
            up - 1
        } else {
            0
        };
        i = i + 1;
    }
    proof {
        assert(s@.take(n as int) =~= s@);
    }
    prior.wrapping_mul(127).wrapping_add(h)
}

/// Whether `s` holds a literal `%` character.
pub open spec fn contains_percent(s: Seq<char>) -> bool {
    exists|i: int| 0 <= i < s.len() && s[i] == '%'
}

/// The URI-component combinator: `h0 * 127 + string hash of s`, where a
/// component holding `%` is hashed in its percent-normalized form instead.
pub open spec fn combined_hash(h0: i32, s: Seq<char>) -> i32 {
    if contains_percent(s) {
        normalized_hash_spec(h0, s)
    } else {
        i32_specs::wrapping_add(
            i32_specs::wrapping_mul(h0, 127),
            string_hash(vstd::utf8::encode_utf8(s)),
        )
    }
}

/// Folds the component `s` onto the prior hash, switching to the
/// percent-normalized hash when `s` holds a `%`.
pub fn hash(prior: i32, s: &str) -> (r: i32)
    ensures
        r == combined_hash(prior, s@),
{
    let n = s.unicode_len();
    let mut i: usize = 0;
    let mut found = false;
    while i < n && !found
        invariant
            n == s@.len(),
            i <= n,
            found ==> exists|j: int| 0 <= j < s@.len() && s@[j] == '%',
            !found ==> forall|j: int| 0 <= j < i ==> s@[j] != '%',
        decreases n - i + (if found { 0int } else { 1int }),
    {
        if s.get_char(i) == '%' {
            found = true;
        } else {
            i = i + 1;
        }
    }
    if found {
        normalized_hash(prior, s)
    } else {
        prior.wrapping_mul(127).wrapping_add(java_string_hash(s))
    }
}

} // verus!
