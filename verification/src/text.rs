//! Character-level text utilities.
//!
//! The parsers in this crate work over vectors of characters.  This module
//! supplies the conversions between `&str`/`String` and `Vec<char>`, the
//! whitespace classification used for field splitting and trimming, and the
//! decomposition of a text into lines (split at `'\n'`, with a carriage
//! return dropped from the end of a terminated line).

use vstd::prelude::*;

verus! {

/// The white-space characters recognised by the standard library's
/// `char::is_whitespace` (the Unicode `White_Space` property).
pub open spec fn is_space_char(c: char) -> bool {
    ||| c == ' '
    ||| c == '\t'
    ||| c == '\n'
    ||| c == '\r'
    ||| c == '\u{000B}'
    ||| c == '\u{000C}'
    ||| c == '\u{0085}'
    ||| c == '\u{00A0}'
    ||| c == '\u{1680}'
    ||| ('\u{2000}' <= c && c <= '\u{200A}')
    ||| c == '\u{2028}'
    ||| c == '\u{2029}'
    ||| c == '\u{202F}'
    ||| c == '\u{205F}'
    ||| c == '\u{3000}'
}

pub fn is_space(c: char) -> (b: bool)
    ensures
        b == is_space_char(c),
{
    c == ' ' || c == '\t' || c == '\n' || c == '\r' || c == '\u{000B}' || c == '\u{000C}' || c
        == '\u{0085}' || c == '\u{00A0}' || c == '\u{1680}' || ('\u{2000}' <= c && c
        <= '\u{200A}') || c == '\u{2028}' || c == '\u{2029}' || c == '\u{202F}' || c == '\u{205F}'
        || c == '\u{3000}'
}

/// The characters of a string, in order.
pub fn chars_of(s: &str) -> (v: Vec<char>)
    ensures
        v@ == s@,
{
    let n = s.unicode_len();
    let mut v: Vec<char> = Vec::new();
    let mut i: usize = 0;
    while i < n
        invariant
            n == s@.len(),
            i <= n,
            v@ == s@.subrange(0, i as int),
        decreases n - i,
    {
        v.push(s.get_char(i));
        proof {
            assert(s@.subrange(0, i + 1 as int) =~= s@.subrange(0, i as int).push(s@[i as int]));
        }
        i = i + 1;
    }
    proof {
        assert(v@ =~= s@);
    }
    v
}

/// Relies on `String::push`: appends exactly the given character.
#[verifier::external_body]
fn push_char(s: &mut String, c: char)
    ensures
        final(s)@ == old(s)@.push(c),
{
    s.push(c);
}

/// A string holding exactly the given characters.
pub fn string_of(v: &Vec<char>) -> (r: String)
    ensures
        r@ == v@,
{
    let mut r = String::new();
    let mut i: usize = 0;
    while i < v.len()
        invariant
            i <= v.len(),
            r@ == v@.subrange(0, i as int),
        decreases v.len() - i,
    {
        push_char(&mut r, v[i]);
        proof {
            assert(v@.subrange(0, i + 1 as int) =~= v@.subrange(0, i as int).push(v@[i as int]));
        }
        i = i + 1;
    }
    proof {
        assert(r@ =~= v@);
    }
    r
}

/// First index at or after `i` holding a non-space character.
pub open spec fn space_end(s: Seq<char>, i: int) -> int
    decreases s.len() - i,
{
    if i < s.len() && is_space_char(s[i]) {
        space_end(s, i + 1)
    } else {
        i
    }
}

/// First index at or after `i` holding a space character.
pub open spec fn token_end(s: Seq<char>, i: int) -> int
    decreases s.len() - i,
{
    if i < s.len() && !is_space_char(s[i]) {
        token_end(s, i + 1)
    } else {
        i
    }
}

pub proof fn lemma_space_end_bounds(s: Seq<char>, i: int)
    requires
        0 <= i <= s.len(),
    ensures
        i <= space_end(s, i) <= s.len(),
        forall|k: int| i <= k < space_end(s, i) ==> is_space_char(s[k]),
        space_end(s, i) < s.len() ==> !is_space_char(s[space_end(s, i)]),
    decreases s.len() - i,
{
    if i < s.len() && is_space_char(s[i]) {
        lemma_space_end_bounds(s, i + 1);
    }
}

pub proof fn lemma_token_end_bounds(s: Seq<char>, i: int)
    requires
        0 <= i <= s.len(),
    ensures
        i <= token_end(s, i) <= s.len(),
        forall|k: int| i <= k < token_end(s, i) ==> !is_space_char(s[k]),
        token_end(s, i) < s.len() ==> is_space_char(s[token_end(s, i)]),
    decreases s.len() - i,
{
    if i < s.len() && !is_space_char(s[i]) {
        lemma_token_end_bounds(s, i + 1);
    }
}

pub proof fn lemma_space_end_at(s: Seq<char>, i: int, b: int)
    requires
        0 <= i <= b <= s.len(),
        forall|k: int| i <= k < b ==> is_space_char(s[k]),
        b < s.len() ==> !is_space_char(s[b]),
    ensures
        space_end(s, i) == b,
    decreases b - i,
{
    if i < b {
        lemma_space_end_at(s, i + 1, b);
    }
}

pub proof fn lemma_token_end_at(s: Seq<char>, i: int, b: int)
    requires
        0 <= i <= b <= s.len(),
        forall|k: int| i <= k < b ==> !is_space_char(s[k]),
        b < s.len() ==> is_space_char(s[b]),
    ensures
        token_end(s, i) == b,
    decreases b - i,
{
    if i < b {
        lemma_token_end_at(s, i + 1, b);
    }
}

pub fn space_end_exec(v: &Vec<char>, i: usize) -> (j: usize)
    requires
        i <= v.len(),
    ensures
        j == space_end(v@, i as int),
        i <= j <= v.len(),
{
    let mut j = i;
    while j < v.len() && is_space(v[j])
        invariant
            i <= j <= v.len(),
            space_end(v@, i as int) == space_end(v@, j as int),
        decreases v.len() - j,
    {
        j = j + 1;
    }
    j
}

pub fn token_end_exec(v: &Vec<char>, i: usize) -> (j: usize)
    requires
        i <= v.len(),
    ensures
        j == token_end(v@, i as int),
        i <= j <= v.len(),
{
    let mut j = i;
    while j < v.len() && !is_space(v[j])
        invariant
            i <= j <= v.len(),
            token_end(v@, i as int) == token_end(v@, j as int),
        decreases v.len() - j,
    {
        j = j + 1;
    }
    j
}

/// The second white-space-delimited field of a line, if there is one.
pub open spec fn second_field(s: Seq<char>) -> Option<Seq<char>> {
    let a = space_end(s, 0);
    let b = token_end(s, a);
    let c = space_end(s, b);
    if c < s.len() {
        Some(s.subrange(c, token_end(s, c)))
    } else {
        None
    }
}

/// The second white-space-delimited field of a line, copied out.
pub fn second_field_exec(v: &Vec<char>) -> (r: Option<Vec<char>>)
    ensures
        match r {
            Some(t) => second_field(v@) == Some(t@),
            None => second_field(v@) is None,
        },
{
    let a = space_end_exec(v, 0);
    let b = token_end_exec(v, a);
    let c = space_end_exec(v, b);
    if c < v.len() {
        let d = token_end_exec(v, c);
        proof {
            lemma_token_end_bounds(v@, c as int);
        }
        Some(copy_range(v, c, d))
    } else {
        None
    }
}

/// The characters of `v` between `from` and `to`, copied out.
pub fn copy_range(v: &Vec<char>, from: usize, to: usize) -> (r: Vec<char>)
    requires
        from <= to <= v.len(),
    ensures
        r@ == v@.subrange(from as int, to as int),
{
    let mut r: Vec<char> = Vec::new();
    let mut k = from;
    while k < to
        invariant
            from <= k <= to <= v.len(),
            r@ == v@.subrange(from as int, k as int),
        decreases to - k,
    {
        r.push(v[k]);
        proof {
            assert(v@.subrange(from as int, k + 1 as int) =~= v@.subrange(
                from as int,
                k as int,
            ).push(v@[k as int]));
        }
        k = k + 1;
    }
    r
}

/// Whether `p` is a prefix of `s`.
pub open spec fn has_prefix(s: Seq<char>, p: Seq<char>) -> bool {
    s.len() >= p.len() && s.subrange(0, p.len() as int) == p
}

pub fn has_prefix_exec(v: &Vec<char>, p: &Vec<char>) -> (b: bool)
    ensures
        b == has_prefix(v@, p@),
{
    if v.len() < p.len() {
        return false;
    }
    let mut k: usize = 0;
    while k < p.len()
        invariant
            k <= p.len() <= v.len(),
            forall|j: int| 0 <= j < k ==> v@[j] == p@[j],
        decreases p.len() - k,
    {
        if v[k] != p[k] {
            proof {
                assert(v@.subrange(0, p@.len() as int)[k as int] == v@[k as int]);
            }
            return false;
        }
        k = k + 1;
    }
    proof {
        assert(v@.subrange(0, p@.len() as int) =~= p@);
    }
    true
}

/// Whether two strings hold the same characters.
pub fn str_eq(a: &str, b: &str) -> (r: bool)
    ensures
        r == (a@ == b@),
{
    let va = chars_of(a);
    let vb = chars_of(b);
    if va.len() != vb.len() {
        return false;
    }
    let mut k: usize = 0;
    while k < va.len()
        invariant
            k <= va.len() == vb.len(),
            va@ == a@,
            vb@ == b@,
            forall|j: int| 0 <= j < k ==> va@[j] == vb@[j],
        decreases va.len() - k,
    {
        if va[k] != vb[k] {
            return false;
        }
        k = k + 1;
    }
    proof {
        assert(a@ =~= b@);
    }
    true
}

/// Largest index `j` at or before `i` such that every character in `[j, i)`
/// is white space.
pub open spec fn rspace_begin(s: Seq<char>, i: int) -> int
    decreases i,
{
    if 0 < i <= s.len() && is_space_char(s[i - 1]) {
        rspace_begin(s, i - 1)
    } else {
        i
    }
}

pub proof fn lemma_rspace_begin_bounds(s: Seq<char>, i: int)
    requires
        0 <= i <= s.len(),
    ensures
        0 <= rspace_begin(s, i) <= i,
        forall|k: int| rspace_begin(s, i) <= k < i ==> is_space_char(s[k]),
        rspace_begin(s, i) > 0 ==> !is_space_char(s[rspace_begin(s, i) - 1]),
    decreases i,
{
    if 0 < i && is_space_char(s[i - 1]) {
        lemma_rspace_begin_bounds(s, i - 1);
    }
}

/// The line with leading and trailing white space removed, as by `str::trim`.
pub open spec fn spec_trim(s: Seq<char>) -> Seq<char> {
    let a = space_end(s, 0);
    let b = rspace_begin(s, s.len() as int);
    if a < b {
        s.subrange(a, b)
    } else {
        Seq::empty()
    }
}

pub fn trim_exec(v: &Vec<char>) -> (r: Vec<char>)
    ensures
        r@ == spec_trim(v@),
{
    let a = space_end_exec(v, 0);
    proof {
        lemma_space_end_bounds(v@, 0);
    }
    if a == v.len() {
        proof {
            lemma_rspace_begin_bounds(v@, v@.len() as int);
            let b = rspace_begin(v@, v@.len() as int);
            if b > 0 {
                assert(is_space_char(v@[b - 1]));
            }
            assert(b <= a);
        }
        return Vec::new();
    }
    let mut b: usize = v.len();
    while b > a && is_space(v[b - 1])
        invariant
            a <= b <= v.len(),
            forall|k: int| b <= k < v@.len() ==> is_space_char(v@[k]),
        decreases b,
    {
        b = b - 1;
    }
    proof {
        // b > a here: the character at a is not a space, so the loop cannot
        // pass it.
        if b == a {
            assert(is_space_char(v@[a as int]));
        }
        lemma_rspace_at(v@, v@.len() as int, b as int);
    }
    copy_range(v, a, b)
}

pub proof fn lemma_rspace_at(s: Seq<char>, i: int, b: int)
    requires
        0 <= b <= i <= s.len(),
        forall|k: int| b <= k < i ==> is_space_char(s[k]),
        b > 0 ==> !is_space_char(s[b - 1]),
    ensures
        rspace_begin(s, i) == b,
    decreases i - b,
{
    if b < i {
        lemma_rspace_at(s, i - 1, b);
    }
}

/// First index at or after `i` holding a newline character.
pub open spec fn line_break(s: Seq<char>, i: int) -> int
    decreases s.len() - i,
{
    if i < s.len() && s[i] != '\n' {
        line_break(s, i + 1)
    } else {
        i
    }
}

pub proof fn lemma_line_break_at(s: Seq<char>, i: int, b: int)
    requires
        0 <= i <= b <= s.len(),
        forall|k: int| i <= k < b ==> s[k] != '\n',
        b < s.len() ==> s[b] == '\n',
    ensures
        line_break(s, i) == b,
    decreases b - i,
{
    if i < b {
        lemma_line_break_at(s, i + 1, b);
    }
}

/// A terminated line with a trailing carriage return dropped.
pub open spec fn strip_cr(l: Seq<char>) -> Seq<char> {
    if l.len() > 0 && l[l.len() - 1] == '\r' {
        l.drop_last()
    } else {
        l
    }
}

/// The lines of a text, as by `str::lines`: split at `'\n'`, a carriage
/// return dropped from the end of each terminated line, and no empty final
/// line for a text ending in `'\n'`.
pub open spec fn spec_lines(s: Seq<char>) -> Seq<Seq<char>>
    decreases s.len(),
{
    if s.len() == 0 {
        Seq::empty()
    } else {
        let b = line_break(s, 0);
        if 0 <= b && b < s.len() {
            seq![strip_cr(s.take(b))] + spec_lines(s.skip(b + 1))
        } else {
            seq![s]
        }
    }
}

/// The lines of a text, each copied out.
pub fn split_lines(v: &Vec<char>) -> (r: Vec<Vec<char>>)
    ensures
        r.deep_view() == spec_lines(v@),
{
    let mut r: Vec<Vec<char>> = Vec::new();
    let mut i: usize = 0;
    proof {
        assert(v@.skip(0) =~= v@);
        assert(r.deep_view() =~~= Seq::<Seq<char>>::empty());
    }
    while i < v.len()
        invariant
            i <= v.len(),
            spec_lines(v@) =~~= r.deep_view() + spec_lines(v@.skip(i as int)),
        decreases v.len() - i,
    {
        let ghost rem = v@.skip(i as int);
        let mut b: usize = i;
        while b < v.len() && v[b] != '\n'
            invariant
                i <= b <= v.len(),
                forall|k: int| i <= k < b ==> v@[k] != '\n',
            decreases v.len() - b,
        {
            b = b + 1;
        }
        let e: usize = if b < v.len() && b > i && v[b - 1] == '\r' {
            b - 1
        } else {
            b
        };
        let line = copy_range(v, i, e);
        proof {
            assert(forall|k: int| 0 <= k < rem.len() ==> rem[k] == v@[i + k]);
            lemma_line_break_at(rem, 0, b - i as int);
            if b < v.len() {
                assert(rem.take(b - i as int) =~= v@.subrange(i as int, b as int));
                assert(strip_cr(rem.take(b - i as int)) =~= v@.subrange(i as int, e as int));
                assert(rem.skip(b - i + 1 as int) =~= v@.skip(b + 1 as int));
                assert(spec_lines(rem) =~~= seq![line@] + spec_lines(v@.skip(b + 1 as int)));
            } else {
                assert(rem =~= v@.subrange(i as int, e as int));
                assert(spec_lines(rem) =~~= seq![line@]);
                assert(spec_lines(v@.skip(v@.len() as int)) =~~= Seq::<Seq<char>>::empty());
            }
        }
        r.push(line);
        proof {
            assert(spec_lines(v@) =~~= r.deep_view() + spec_lines(
                v@.skip(if b < v.len() {
                    b + 1
                } else {
                    b as int
                }),
            ));
        }
        i = if b < v.len() {
            b + 1
        } else {
            b
        };
    }
    proof {
        assert(v@.skip(i as int) =~= Seq::<char>::empty());
        assert(r.deep_view() =~~= r.deep_view() + spec_lines(v@.skip(i as int)));
    }
    r
}

} // verus!
