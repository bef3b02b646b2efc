//! Small verified helpers on strings: views of string collections, appending
//! a character, and character-wise string equality.

use vstd::prelude::*;
use vstd::string::*;

verus! {

/// The character-sequence views of a sequence of strings.
pub open spec fn views_of(ws: Seq<String>) -> Seq<Seq<char>> {
    ws.map_values(|w: String| w@)
}

/// The character-sequence view of an optional string.
pub open spec fn opt_view(o: Option<String>) -> Option<Seq<char>> {
    match o {
        Some(s) => Some(s@),
        None => None,
    }
}

/// Relies on `String::push`, which appends the given character to the end of
/// the string.
#[verifier::external_body]
pub fn push_char(s: &mut String, c: char)
    ensures
        final(s)@ == old(s)@.push(c),
{
    s.push(c);
}

/// Character-wise string equality, proved equivalent to equality of the views.
pub fn str_eq(a: &str, b: &str) -> (r: bool)
    ensures
        r == (a@ == b@),
{
    let alen = a.unicode_len();
    let blen = b.unicode_len();
    if alen != blen {
        return false;
    }
    let mut i: usize = 0;
    while i < alen
        invariant
            alen == a@.len(),
            alen == b@.len(),
            i <= alen,
            forall|j: int| 0 <= j < i ==> a@[j] == b@[j],
        decreases alen - i,
    {
        if a.get_char(i) != b.get_char(i) {
            return false;
        }
        i += 1;
    }
    proof {
        assert(a@ =~= b@);
    }
    true
}

/// Whether the character is one the session strips from the ends of a raw
/// input line: space, tab, newline or carriage return.
pub open spec fn is_line_space(c: char) -> bool {
    c == ' ' || c == '\t' || c == '\n' || c == '\r'
}

/// Whether the character is stripped from the ends of an input line.
pub fn is_line_space_char(c: char) -> (r: bool)
    ensures
        r == is_line_space(c),
{
    c == ' ' || c == '\t' || c == '\n' || c == '\r'
}

/// The sequence with leading line spaces removed.
pub open spec fn spec_trim_left(s: Seq<char>) -> Seq<char>
    decreases s.len(),
{
    if s.len() > 0 && is_line_space(s[0]) {
        spec_trim_left(s.skip(1))
    } else {
        s
    }
}

/// The sequence with trailing line spaces removed.
pub open spec fn spec_trim_right(s: Seq<char>) -> Seq<char>
    decreases s.len(),
{
    if s.len() > 0 && is_line_space(s[s.len() - 1]) {
        spec_trim_right(s.take(s.len() - 1))
    } else {
        s
    }
}

/// The sequence with line spaces removed from both ends.
pub open spec fn spec_trim(s: Seq<char>) -> Seq<char> {
    spec_trim_right(spec_trim_left(s))
}

/// Left trimming drops exactly the leading run of line spaces.
proof fn lemma_trim_left_skip(s: Seq<char>, a: int)
    requires
        0 <= a <= s.len(),
        forall|j: int| 0 <= j < a ==> is_line_space(s[j]),
        a == s.len() || !is_line_space(s[a]),
    ensures
        spec_trim_left(s) == s.skip(a),
    decreases a,
{
    if a == 0 {
        assert(s.skip(0) =~= s);
    } else {
        assert(is_line_space(s[0]));
        lemma_trim_left_skip(s.skip(1), a - 1);
        assert(s.skip(1).skip(a - 1) =~= s.skip(a));
    }
}

/// Right trimming drops exactly the trailing run of line spaces.
proof fn lemma_trim_right_take(s: Seq<char>, b: int)
    requires
        0 <= b <= s.len(),
        forall|j: int| b <= j < s.len() ==> is_line_space(s[j]),
        b == 0 || !is_line_space(s[b - 1]),
    ensures
        spec_trim_right(s) == s.take(b),
    decreases s.len() - b,
{
    if b == s.len() {
        assert(s.take(b) =~= s);
    } else {
        assert(is_line_space(s[s.len() - 1]));
        lemma_trim_right_take(s.take(s.len() - 1), b);
        assert(s.take(s.len() - 1).take(b) =~= s.take(b));
    }
}

/// Strips line spaces from both ends of an input line, as the session does
/// before tokenizing.
pub fn trim_spaces<'a>(s: &'a str) -> (r: &'a str)
    ensures
        r@ == spec_trim(s@),
{
    let n = s.unicode_len();
    let mut a: usize = 0;
    while a < n && is_line_space_char(s.get_char(a))
        invariant
            n == s@.len(),
            a <= n,
            forall|j: int| 0 <= j < a ==> is_line_space(s@[j]),
        decreases n - a,
    {
        a += 1;
    }
    let mut b: usize = n;
    while b > a && is_line_space_char(s.get_char(b - 1))
        invariant
            n == s@.len(),
            a <= b <= n,
            forall|j: int| b <= j < n ==> is_line_space(s@[j]),
        decreases b,
    {
        b -= 1;
    }
    proof {
        lemma_trim_left_skip(s@, a as int);
        let t = s@.skip(a as int);
        lemma_trim_right_take(t, b - a);
        assert(t.take(b - a) =~= s@.subrange(a as int, b as int));
    }
    s.substring_char(a, b)
}

} // verus!
