//! The wrapper properties file: `key=value` lines, `#` comments and blank
//! lines, an escaped colon `\:` in values, and malformed lines counted but
//! never fatal.
use vstd::prelude::*;

verus! {

use crate::text::{chars_to_string, find_char_range, first_index, range_to_string, str_chars, str_eq};

/// The characters trimmed from both ends of a line: Unicode white space,
/// the set `str::trim` removes.
pub open spec fn is_line_space(c: char) -> bool {
    ||| c == ' '
    ||| '\u{0009}' <= c && c <= '\u{000d}'
    ||| c == '\u{0085}'
    ||| c == '\u{00a0}'
    ||| c == '\u{1680}'
    ||| '\u{2000}' <= c && c <= '\u{200a}'
    ||| c == '\u{2028}'
    ||| c == '\u{2029}'
    ||| c == '\u{202f}'
    ||| c == '\u{205f}'
    ||| c == '\u{3000}'
}

/// Whether `c` is trimmed from a line's ends.
fn is_line_space_exec(c: char) -> (r: bool)
    ensures
        r == is_line_space(c),
{
    let u: u32 = c as u32;
    u == 0x20 || (0x9 <= u && u <= 0xd) || u == 0x85 || u == 0xa0 || u == 0x1680 || (0x2000 <= u
        && u <= 0x200a) || u == 0x2028 || u == 0x2029 || u == 0x202f || u == 0x205f || u == 0x3000
}

/// `s` without leading line spaces.
pub open spec fn trim_start(s: Seq<char>) -> Seq<char>
    decreases s.len(),
{
    if s.len() > 0 && is_line_space(s[0]) {
        trim_start(s.drop_first())
    } else {
        s
    }
}

/// `s` without trailing line spaces.
pub open spec fn trim_end(s: Seq<char>) -> Seq<char>
    decreases s.len(),
{
    if s.len() > 0 && is_line_space(s.last()) {
        trim_end(s.drop_last())
    } else {
        s
    }
}

/// `s` without leading and trailing line spaces.
pub open spec fn trim(s: Seq<char>) -> Seq<char> {
    trim_end(trim_start(s))
}

/// `s` with every `\:` escape replaced by a literal `:`, left to right.
pub open spec fn unescape_colons(s: Seq<char>) -> Seq<char>
    decreases s.len(),
{
    if s.len() >= 2 && s[0] == '\\' && s[1] == ':' {
        seq![':'] + unescape_colons(s.skip(2))
    } else if s.len() > 0 {
        seq![s[0]] + unescape_colons(s.skip(1))
    } else {
        Seq::empty()
    }
}

/// What one line of a properties file contributes.
pub enum LineParse {
    /// Blank, or a `#` comment: ignored.
    Blank,
    /// A `key=value` entry, split at the first `=`, the value unescaped.
    Entry { key: Seq<char>, value: Seq<char> },
    /// No `=` in a non-blank line: reported, never fatal.
    Malformed,
}

/// Classifies one line, after trimming.
pub open spec fn parse_line(raw: Seq<char>) -> LineParse {
    let t = trim(raw);
    if t.len() == 0 || t[0] == '#' {
        LineParse::Blank
    } else {
        let e = first_index(t, '=');
        if e == t.len() {
            LineParse::Malformed
        } else {
            LineParse::Entry { key: t.take(e), value: unescape_colons(t.skip(e + 1)) }
        }
    }
}

/// The entries of a properties text, in line order, with the count of
/// malformed lines. Lines are separated by `\n`.
pub open spec fn props_spec(content: Seq<char>) -> (Seq<(Seq<char>, Seq<char>)>, nat)
    decreases content.len(),
    via props_spec_dec
{
    if content.len() == 0 {
        (Seq::empty(), 0nat)
    } else {
        let nl = first_index(content, '\n');
        let line = content.take(nl);
        let rest = if nl < content.len() {
            props_spec(content.skip(nl + 1))
        } else {
            (Seq::empty(), 0nat)
        };
        match parse_line(line) {
            LineParse::Blank => rest,
            LineParse::Entry { key, value } => (seq![(key, value)] + rest.0, rest.1),
            LineParse::Malformed => (rest.0, (rest.1 + 1) as nat),
        }
    }
}

#[via_fn]
proof fn props_spec_dec(content: Seq<char>) {
    if content.len() > 0 {
        crate::text::lemma_first_index(content, '\n');
    }
}

/// The string views of a sequence of key/value pairs.
pub open spec fn entries_view(ps: Seq<(String, String)>) -> Seq<(Seq<char>, Seq<char>)> {
    ps.map_values(|p: (String, String)| (p.0@, p.1@))
}

/// The last value stored under `key`, matching insertion into a map where a
/// later line overwrites an earlier one.
pub open spec fn lookup(entries: Seq<(Seq<char>, Seq<char>)>, key: Seq<char>) -> Option<
    Seq<char>,
>
    decreases entries.len(),
{
    if entries.len() == 0 {
        None
    } else if entries.last().0 == key {
        Some(entries.last().1)
    } else {
        lookup(entries.drop_last(), key)
    }
}

/// Parsed wrapper properties: the entries in line order and how many lines
/// were malformed.
pub struct Properties {
    /// The `key=value` entries, in line order.
    pub pairs: Vec<(String, String)>,
    /// How many non-blank lines had no `=`.
    pub malformed: usize,
}

impl Properties {
    /// The entries as character sequences.
    pub open spec fn entries(self) -> Seq<(Seq<char>, Seq<char>)> {
        entries_view(self.pairs@)
    }

    /// An empty property set, as an absent file yields.
    pub fn empty() -> (r: Properties)
        ensures
            r.entries() == Seq::<(Seq<char>, Seq<char>)>::empty(),
            r.malformed == 0,
    {
        let r = Properties { pairs: Vec::new(), malformed: 0 };
        proof {
            assert(r.entries() =~= Seq::<(Seq<char>, Seq<char>)>::empty());
        }
        r
    }

    /// The value stored under `key`, a later line overriding an earlier one.
    pub fn get<'a>(&'a self, key: &str) -> (r: Option<&'a String>)
        ensures
            r matches Some(v) ==> lookup(self.entries(), key@) == Some(v@),
            r is None ==> lookup(self.entries(), key@) is None,
    {
        let n = self.pairs.len();
        let mut i: usize = n;
        proof {
            assert(self.entries().take(n as int) =~= self.entries());
        }
        while i > 0
            invariant
                n == self.pairs@.len(),
                i <= n,
                lookup(self.entries(), key@) == lookup(
                    self.entries().take(i as int),
                    key@,
                ),
            decreases i,
        {
            proof {
                assert(self.entries().take(i as int).last() == (
                    self.pairs@[i - 1].0@,
                    self.pairs@[i - 1].1@,
                ));
                assert(self.entries().take(i as int).drop_last() =~= self.entries().take(
                    i - 1,
                ));
            }
            if str_eq(self.pairs[i - 1].0.as_str(), key) {
                return Some(&self.pairs[i - 1].1);
            }
            i = i - 1;
        }
        proof {
            assert(self.entries().take(0) =~= Seq::<(Seq<char>, Seq<char>)>::empty());
        }
        None
    }
}

/// Leading line spaces may be stepped over before trimming.
proof fn lemma_trim_start_at(s: Seq<char>, k: int)
    requires
        0 <= k <= s.len(),
        forall|j: int| 0 <= j < k ==> is_line_space(s[j]),
        k < s.len() ==> !is_line_space(s[k]),
    ensures
        trim_start(s) == s.skip(k),
    decreases k,
{
    if k == 0 {
        assert(s.skip(0) =~= s);
    } else {
        assert(is_line_space(s[0]));
        lemma_trim_start_at(s.drop_first(), k - 1);
        assert(s.drop_first().skip(k - 1) =~= s.skip(k));
    }
}

/// Trailing line spaces may be cut off before trimming.
proof fn lemma_trim_end_at(s: Seq<char>, k: int)
    requires
        0 <= k <= s.len(),
        forall|j: int| k <= j < s.len() ==> is_line_space(s[j]),
        k > 0 ==> !is_line_space(s[k - 1]),
    ensures
        trim_end(s) == s.take(k),
    decreases s.len() - k,
{
    if k == s.len() {
        assert(s.take(k) =~= s);
    } else {
        assert(is_line_space(s.last()));
        lemma_trim_end_at(s.drop_last(), k);
        assert(s.drop_last().take(k) =~= s.take(k));
    }
}

/// Replaces each `\:` by `:` in `v[from..to]`.
fn unescape_range(v: &Vec<char>, from: usize, to: usize) -> (out: Vec<char>)
    requires
        from <= to <= v@.len(),
    ensures
        out@ == unescape_colons(v@.subrange(from as int, to as int)),
{
    let mut out: Vec<char> = Vec::new();
    let mut i: usize = from;
    while i < to
        invariant
            from <= i <= to <= v@.len(),
            unescape_colons(v@.subrange(from as int, to as int)) == out@ + unescape_colons(
                v@.subrange(i as int, to as int),
            ),
        decreases to - i,
    {
        let ghost pre = out@;
        let ghost cur = v@.subrange(i as int, to as int);
        if i + 1 < to && v[i] == '\\' && v[i + 1] == ':' {
            out.push(':');
            proof {
                assert(cur.skip(2) =~= v@.subrange(i + 2, to as int));
                assert(unescape_colons(cur) == seq![':'] + unescape_colons(cur.skip(2)));
                assert(pre + unescape_colons(cur) =~= out@ + unescape_colons(
                    v@.subrange(i + 2, to as int),
                ));
            }
            i = i + 2;
        } else {
            out.push(v[i]);
            proof {
                assert(cur.skip(1) =~= v@.subrange(i + 1, to as int));
                assert(unescape_colons(cur) == seq![cur[0]] + unescape_colons(cur.skip(1)));
                assert(pre + unescape_colons(cur) =~= out@ + unescape_colons(
                    v@.subrange(i + 1, to as int),
                ));
            }
            i = i + 1;
        }
    }
    proof {
        assert(v@.subrange(to as int, to as int) =~= Seq::<char>::empty());
        assert(out@ + Seq::<char>::empty() =~= out@);
    }
    out
}

/// What one line yields at run time.
enum LineOutcome {
    Skip,
    Pair(String, String),
    Bad,
}

/// Parses the line `v[from..to]`.
fn parse_line_range(v: &Vec<char>, from: usize, to: usize) -> (r: LineOutcome)
    requires
        from <= to <= v@.len(),
    ensures
        ({
            let p = parse_line(v@.subrange(from as int, to as int));
            match r {
                LineOutcome::Skip => p is Blank,
                LineOutcome::Pair(k, val) => p matches LineParse::Entry { key, value }
                    && k@ == key && val@ == value,
                LineOutcome::Bad => p is Malformed,
            }
        }),
{
    let ghost raw = v@.subrange(from as int, to as int);
    let mut a: usize = from;
    while a < to && is_line_space_exec(v[a])
        invariant
            from <= a <= to <= v@.len(),
            forall|j: int| from <= j < a ==> is_line_space(v@[j]),
        decreases to - a,
    {
        a = a + 1;
    }
    let mut b: usize = to;
    while b > a && is_line_space_exec(v[b - 1])
        invariant
            from <= a <= b <= to <= v@.len(),
            forall|j: int| from <= j < a ==> is_line_space(v@[j]),
            forall|j: int| b <= j < to ==> is_line_space(v@[j]),
        decreases b,
    {
        b = b - 1;
    }
    proof {
        lemma_trim_start_at(raw, a - from);
        assert(raw.skip(a - from) =~= v@.subrange(a as int, to as int));
        lemma_trim_end_at(v@.subrange(a as int, to as int), b - a);
        assert(v@.subrange(a as int, to as int).take(b - a) =~= v@.subrange(a as int, b as int));
        assert(trim(raw) == v@.subrange(a as int, b as int));
    }
    let ghost t = trim(raw);
    if a == b {
        return LineOutcome::Skip;
    }
    if v[a] == '#' {
        return LineOutcome::Skip;
    }
    let e = find_char_range(v, '=', a, b);
    proof {
        assert(t =~= v@.subrange(a as int, b as int));
    }
    if e == b {
        return LineOutcome::Bad;
    }
    let key = range_to_string(v, a, e);
    let value_chars = unescape_range(v, e + 1, b);
    let value = chars_to_string(&value_chars);
    proof {
        assert(t.take(e - a) =~= v@.subrange(a as int, e as int));
        assert(t.skip(e - a + 1) =~= v@.subrange(e + 1, b as int));
    }
    LineOutcome::Pair(key, value)
}

/// Parses a properties text: blank lines and `#` comments are ignored, a
/// line is split at its first `=` with `\:` unescaped in the value, and a
/// non-blank line without `=` counts as malformed and is skipped.
pub fn parse_properties(text: &str) -> (r: Properties)
    ensures
        r.entries() == props_spec(text@).0,
        r.malformed as nat == props_spec(text@).1,
{
    let chars = str_chars(text);
    let n = chars.len();
    let mut pairs: Vec<(String, String)> = Vec::new();
    let mut malformed: usize = 0;
    let mut pos: usize = 0;
    proof {
        assert(chars@.skip(0) =~= chars@);
        assert(entries_view(pairs@) =~= Seq::<(Seq<char>, Seq<char>)>::empty());
        assert(entries_view(pairs@) + props_spec(text@).0 =~= props_spec(text@).0);
    }
    while pos < n
        invariant
            n == chars@.len(),
            chars@ == text@,
            pos <= n,
            malformed <= pos,
            props_spec(text@).0 =~= entries_view(pairs@) + props_spec(chars@.skip(pos as int)).0,
            props_spec(text@).1 == malformed + props_spec(chars@.skip(pos as int)).1,
        decreases n - pos,
    {
        let ghost rest = chars@.skip(pos as int);
        let ghost pre_pairs = pairs@;
        let nl = find_char_range(&chars, '\n', pos, n);
        proof {
            assert(chars@.subrange(pos as int, n as int) =~= rest);
            assert(first_index(rest, '\n') == nl - pos);
            assert(rest.take(nl - pos) =~= chars@.subrange(pos as int, nl as int));
            if nl < n {
                assert(rest.skip(nl - pos + 1) =~= chars@.skip(nl + 1));
            }
        }
        let line = parse_line_range(&chars, pos, nl);
        match line {
            LineOutcome::Skip => {},
            LineOutcome::Pair(k, v) => {
                pairs.push((k, v));
                proof {
                    assert(entries_view(pairs@) =~= entries_view(pre_pairs) + seq![
                        (pairs@.last().0@, pairs@.last().1@),
                    ]);
                }
            },
            LineOutcome::Bad => {
                malformed = malformed + 1;
            },
        }
        if nl == n {
            pos = n;
            proof {
                assert(chars@.skip(n as int) =~= Seq::<char>::empty());
                assert(entries_view(pairs@) + props_spec(chars@.skip(pos as int)).0
                    =~= entries_view(pairs@));
            }
        } else {
            pos = nl + 1;
            proof {
                assert(entries_view(pairs@) + props_spec(chars@.skip(pos as int)).0
                    =~= props_spec(text@).0);
            }
        }
    }
    proof {
        assert(chars@.skip(n as int) =~= Seq::<char>::empty());
        assert(entries_view(pairs@) + props_spec(chars@.skip(pos as int)).0 =~= entries_view(
            pairs@,
        ));
    }
    Properties { pairs, malformed }
}

} // verus!
