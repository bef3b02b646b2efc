//! The command-line tokenizer: a single left-to-right scan that splits a line
//! into words while honoring single quotes, double quotes, and backslash
//! escapes.
//!
//! Rules, in the order the scan applies them:
//! - a single quote outside double quotes toggles single-quote mode and is
//!   dropped; inside single quotes every other character is copied verbatim;
//! - a double quote outside single quotes toggles double-quote mode and is
//!   dropped;
//! - inside double quotes a backslash escapes `"`, `\` and `$` (the escaped
//!   character is kept), drops an escaped newline, and is otherwise copied
//!   literally;
//! - an unquoted space ends the current word (empty words are not emitted);
//! - an unquoted backslash escapes the next character verbatim (a trailing
//!   backslash is dropped);
//! - any other character is appended to the current word.
//!
//! Unterminated quotes at end of input are treated as implicitly closed.

use vstd::prelude::*;
use vstd::string::*;
use crate::strutil::push_char;
use crate::strutil::spec_trim;
use crate::strutil::trim_spaces;
use crate::strutil::views_of;

verus! {

/// The scan state machine: processes `s` starting from the given quoting
/// modes, current word buffer and output so far, and returns the final word
/// sequence (flushing a non-empty buffer at end of input).
pub open spec fn scan(
    s: Seq<char>,
    in_single: bool,
    in_double: bool,
    cur: Seq<char>,
    out: Seq<Seq<char>>,
) -> Seq<Seq<char>>
    decreases s.len(),
{
    if s.len() == 0 {
        if cur.len() > 0 {
            out.push(cur)
        } else {
            out
        }
    } else if s[0] == '\'' && !in_double {
        scan(s.skip(1), !in_single, in_double, cur, out)
    } else if s[0] == '"' && !in_single {
        scan(s.skip(1), in_single, !in_double, cur, out)
    } else if s[0] == '\\' && in_double {
        if s.len() >= 2 && (s[1] == '"' || s[1] == '\\' || s[1] == '$') {
            scan(s.skip(2), in_single, in_double, cur.push(s[1]), out)
        } else if s.len() >= 2 && s[1] == '\n' {
            scan(s.skip(2), in_single, in_double, cur, out)
        } else {
            scan(s.skip(1), in_single, in_double, cur.push('\\'), out)
        }
    } else if s[0] == ' ' && !in_single && !in_double {
        scan(
            s.skip(1),
            in_single,
            in_double,
            Seq::empty(),
            if cur.len() > 0 {
                out.push(cur)
            } else {
                out
            },
        )
    } else if s[0] == '\\' && !in_single && !in_double {
        if s.len() >= 2 {
            scan(s.skip(2), in_single, in_double, cur.push(s[1]), out)
        } else {
            scan(s.skip(1), in_single, in_double, cur, out)
        }
    } else {
        scan(s.skip(1), in_single, in_double, cur.push(s[0]), out)
    }
}

/// The word sequence a line tokenizes to.
pub open spec fn spec_tokenize(s: Seq<char>) -> Seq<Seq<char>> {
    scan(s, false, false, Seq::empty(), Seq::empty())
}

/// Splits one input line into words, honoring quoting and escape rules.
pub fn parse_input(input: &str) -> (words: Vec<String>)
    ensures
        views_of(words@) == spec_tokenize(input@),
{
    let n = input.unicode_len();
    let mut i: usize = 0;
    let mut in_single = false;
    let mut in_double = false;
    let mut cur = String::new();
    let mut out: Vec<String> = Vec::new();
    proof {
        assert(input@.skip(0) =~= input@);
        assert(views_of(out@) =~= Seq::<Seq<char>>::empty());
    }
    while i < n
        invariant
            n == input@.len(),
            i <= n,
            spec_tokenize(input@) == scan(
                input@.skip(i as int),
                in_single,
                in_double,
                cur@,
                views_of(out@),
            ),
        decreases n - i,
    {
        let ghost t = input@.skip(i as int);
        proof {
            assert(t[0] == input@[i as int]);
            assert(t.skip(1) =~= input@.skip(i as int + 1));
        }
        let c = input.get_char(i);
        if c == '\'' && !in_double {
            in_single = !in_single;
            i += 1;
        } else if c == '"' && !in_single {
            in_double = !in_double;
            i += 1;
        } else if c == '\\' && in_double {
            if i + 1 < n {
                proof {
                    assert(t[1] == input@[i as int + 1]);
                    assert(t.skip(2) =~= input@.skip(i as int + 2));
                }
                let c2 = input.get_char(i + 1);
                if c2 == '"' || c2 == '\\' || c2 == '$' {
                    push_char(&mut cur, c2);
                    i += 2;
                } else if c2 == '\n' {
                    i += 2;
                } else {
                    push_char(&mut cur, '\\');
                    i += 1;
                }
            } else {
                push_char(&mut cur, '\\');
                i += 1;
            }
        } else if c == ' ' && !in_single && !in_double {
            if !cur.as_str().is_empty() {
                proof {
                    assert(views_of(out@.push(cur)) =~= views_of(out@).push(cur@));
                }
                out.push(cur);
                cur = String::new();
            } else {
                proof {
                    assert(cur@ =~= Seq::<char>::empty());
                }
            }
            i += 1;
        } else if c == '\\' && !in_single && !in_double {
            if i + 1 < n {
                proof {
                    assert(t[1] == input@[i as int + 1]);
                    assert(t.skip(2) =~= input@.skip(i as int + 2));
                }
                let c2 = input.get_char(i + 1);
                push_char(&mut cur, c2);
                i += 2;
            } else {
                i += 1;
            }
        } else {
            push_char(&mut cur, c);
            i += 1;
        }
    }
    proof {
        assert(input@.skip(n as int) =~= Seq::<char>::empty());
    }
    if !cur.as_str().is_empty() {
        proof {
            assert(views_of(out@.push(cur)) =~= views_of(out@).push(cur@));
        }
        out.push(cur);
    }
    out
}

/// Reads one raw input line into a command line: trims it, tokenizes it, and
/// yields the words only when there is at least one, so a command line is
/// never built from an empty or blank input.
pub fn read_command(line: &str) -> (r: Option<Vec<String>>)
    ensures
        match r {
            Some(words) => views_of(words@) == spec_tokenize(spec_trim(line@)) && words@.len()
                > 0,
            None => spec_tokenize(spec_trim(line@)).len() == 0,
        },
{
    let trimmed = trim_spaces(line);
    let words = parse_input(trimmed);
    proof {
        assert(views_of(words@).len() == words@.len());
    }
    if words.len() == 0 {
        None
    } else {
        Some(words)
    }
}

/// A word wrapped in single quotes.
pub open spec fn quote_word(w: Seq<char>) -> Seq<char> {
    seq!['\''] + w + seq!['\'']
}

/// The words re-quoted with single quotes and re-joined by single spaces.
pub open spec fn requote(ws: Seq<Seq<char>>) -> Seq<char>
    decreases ws.len(),
{
    if ws.len() == 0 {
        Seq::empty()
    } else if ws.len() == 1 {
        quote_word(ws[0])
    } else {
        quote_word(ws[0]) + seq![' '] + requote(ws.skip(1))
    }
}

/// Inside single quotes the scan copies every character verbatim: processing
/// a quote-free segment just moves it into the word buffer.
proof fn lemma_scan_single_verbatim(
    w: Seq<char>,
    rest: Seq<char>,
    cur: Seq<char>,
    out: Seq<Seq<char>>,
)
    requires
        !w.contains('\''),
    ensures
        scan(w + rest, true, false, cur, out) == scan(rest, true, false, cur + w, out),
    decreases w.len(),
{
    if w.len() == 0 {
        assert(w + rest =~= rest);
        assert(cur + w =~= cur);
    } else {
        let s = w + rest;
        assert(s[0] == w[0]);
        assert(w[0] != '\'') by {
            assert(w.contains(w[0]));
        }
        assert(s.skip(1) =~= w.skip(1) + rest);
        assert(!w.skip(1).contains('\'')) by {
            if w.skip(1).contains('\'') {
                let k = choose|k: int| 0 <= k < w.skip(1).len() && w.skip(1)[k] == '\'';
                assert(w[k + 1] == '\'');
                assert(w.contains('\''));
            }
        }
        lemma_scan_single_verbatim(w.skip(1), rest, cur.push(w[0]), out);
        assert(cur.push(w[0]) + w.skip(1) =~= cur + w);
    }
}

/// A single-quoted, quote-free word followed by anything: the scan consumes
/// the quoted word into the buffer and continues unquoted on the tail.
proof fn lemma_scan_quoted_word(w: Seq<char>, tail: Seq<char>, out: Seq<Seq<char>>)
    requires
        !w.contains('\''),
    ensures
        scan(quote_word(w) + tail, false, false, Seq::empty(), out) == scan(
            tail,
            false,
            false,
            w,
            out,
        ),
{
    let s = quote_word(w) + tail;
    assert(s[0] == '\'');
    assert(s.skip(1) =~= w + (seq!['\''] + tail));
    lemma_scan_single_verbatim(w, seq!['\''] + tail, Seq::empty(), out);
    assert(Seq::empty() + w =~= w);
    let u = seq!['\''] + tail;
    assert(u[0] == '\'');
    assert(u.skip(1) =~= tail);
}

/// Tokenizing re-quoted words reproduces them, appended to the output so far,
/// provided every word is non-empty and free of single quotes.
proof fn lemma_scan_requote(ws: Seq<Seq<char>>, out: Seq<Seq<char>>)
    requires
        forall|i: int| 0 <= i < ws.len() ==> ws[i].len() > 0 && !ws[i].contains('\''),
    ensures
        scan(requote(ws), false, false, Seq::empty(), out) == out + ws,
    decreases ws.len(),
{
    if ws.len() == 0 {
        assert(out + ws =~= out);
    } else if ws.len() == 1 {
        assert(quote_word(ws[0]) =~= quote_word(ws[0]) + Seq::<char>::empty());
        lemma_scan_quoted_word(ws[0], Seq::empty(), out);
        assert(scan(Seq::empty(), false, false, ws[0], out) == out.push(ws[0]));
        assert(out.push(ws[0]) =~= out + ws);
    } else {
        let tail = seq![' '] + requote(ws.skip(1));
        assert(requote(ws) =~= quote_word(ws[0]) + tail);
        lemma_scan_quoted_word(ws[0], tail, out);
        assert(tail[0] == ' ');
        assert(tail.skip(1) =~= requote(ws.skip(1)));
        assert(scan(tail, false, false, ws[0], out) == scan(
            requote(ws.skip(1)),
            false,
            false,
            Seq::empty(),
            out.push(ws[0]),
        ));
        lemma_scan_requote(ws.skip(1), out.push(ws[0]));
        assert(out.push(ws[0]) + ws.skip(1) =~= out + ws);
    }
}

/// Round trip: tokenizing the single-quoted, space-joined form of any words
/// that are non-empty and free of single quotes yields those words again.
pub proof fn lemma_requote_round_trip(ws: Seq<Seq<char>>)
    requires
        forall|i: int| 0 <= i < ws.len() ==> ws[i].len() > 0 && !ws[i].contains('\''),
    ensures
        spec_tokenize(requote(ws)) == ws,
{
    lemma_scan_requote(ws, Seq::empty());
    assert(Seq::<Seq<char>>::empty() + ws =~= ws);
}

/// Inside double quotes the scan copies a segment free of double quotes and
/// backslashes verbatim into the word buffer.
proof fn lemma_scan_double_verbatim(
    w: Seq<char>,
    rest: Seq<char>,
    cur: Seq<char>,
    out: Seq<Seq<char>>,
)
    requires
        !w.contains('"'),
        !w.contains('\\'),
    ensures
        scan(w + rest, false, true, cur, out) == scan(rest, false, true, cur + w, out),
    decreases w.len(),
{
    if w.len() == 0 {
        assert(w + rest =~= rest);
        assert(cur + w =~= cur);
    } else {
        let s = w + rest;
        assert(s[0] == w[0]);
        assert(w[0] != '"' && w[0] != '\\') by {
            assert(w.contains(w[0]));
        }
        assert(s.skip(1) =~= w.skip(1) + rest);
        assert(!w.skip(1).contains('"') && !w.skip(1).contains('\\')) by {
            if w.skip(1).contains('"') {
                let k = choose|k: int| 0 <= k < w.skip(1).len() && w.skip(1)[k] == '"';
                assert(w[k + 1] == '"');
                assert(w.contains('"'));
            }
            if w.skip(1).contains('\\') {
                let k = choose|k: int| 0 <= k < w.skip(1).len() && w.skip(1)[k] == '\\';
                assert(w[k + 1] == '\\');
                assert(w.contains('\\'));
            }
        }
        lemma_scan_double_verbatim(w.skip(1), rest, cur.push(w[0]), out);
        assert(cur.push(w[0]) + w.skip(1) =~= cur + w);
    }
}

/// Spaces inside single quotes never split: a non-empty word free of single
/// quotes, wrapped in single quotes, tokenizes to exactly that word.
pub proof fn lemma_single_quoted_word(w: Seq<char>)
    requires
        w.len() > 0,
        !w.contains('\''),
    ensures
        spec_tokenize(quote_word(w)) == seq![w],
{
    lemma_requote_round_trip(seq![w]);
    assert(seq![w][0] == w);
    assert(requote(seq![w]) == quote_word(w));
}

/// Spaces inside double quotes never split: a non-empty word free of double
/// quotes and backslashes, wrapped in double quotes, tokenizes to exactly
/// that word.
pub proof fn lemma_double_quoted_word(w: Seq<char>)
    requires
        w.len() > 0,
        !w.contains('"'),
        !w.contains('\\'),
    ensures
        spec_tokenize(seq!['"'] + w + seq!['"']) == seq![w],
{
    let s = seq!['"'] + w + seq!['"'];
    let u = seq!['"'];
    let o = Seq::<Seq<char>>::empty();
    assert(s[0] == '"');
    assert(spec_tokenize(s) == scan(s.skip(1), false, true, Seq::empty(), o));
    assert(s.skip(1) =~= w + u);
    lemma_scan_double_verbatim(w, u, Seq::empty(), o);
    assert(Seq::empty() + w =~= w);
    assert(u[0] == '"');
    assert(scan(u, false, true, w, o) == scan(u.skip(1), false, false, w, o));
    assert(u.skip(1) =~= Seq::<char>::empty());
    assert(scan(Seq::empty(), false, false, w, o) == o.push(w));
    assert(o.push(w) =~= seq![w]);
}

/// The scan never emits an empty word, given none was emitted before.
proof fn lemma_scan_words_nonempty(
    s: Seq<char>,
    in_single: bool,
    in_double: bool,
    cur: Seq<char>,
    out: Seq<Seq<char>>,
)
    requires
        forall|i: int| 0 <= i < out.len() ==> out[i].len() > 0,
    ensures
        forall|i: int|
            0 <= i < scan(s, in_single, in_double, cur, out).len() ==> scan(
                s,
                in_single,
                in_double,
                cur,
                out,
            )[i].len() > 0,
    decreases s.len(),
{
    if s.len() == 0 {
        if cur.len() > 0 {
            assert(forall|i: int| 0 <= i < out.push(cur).len() ==> out.push(cur)[i].len() > 0);
        }
    } else if s[0] == '\'' && !in_double {
        lemma_scan_words_nonempty(s.skip(1), !in_single, in_double, cur, out);
        assert(scan(s, in_single, in_double, cur, out) == scan(
            s.skip(1),
            !in_single,
            in_double,
            cur,
            out,
        ));
    } else if s[0] == '"' && !in_single {
        lemma_scan_words_nonempty(s.skip(1), in_single, !in_double, cur, out);
        assert(scan(s, in_single, in_double, cur, out) == scan(
            s.skip(1),
            in_single,
            !in_double,
            cur,
            out,
        ));
    } else if s[0] == '\\' && in_double {
        if s.len() >= 2 && (s[1] == '"' || s[1] == '\\' || s[1] == '$') {
            lemma_scan_words_nonempty(s.skip(2), in_single, in_double, cur.push(s[1]), out);
            assert(scan(s, in_single, in_double, cur, out) == scan(
                s.skip(2),
                in_single,
                in_double,
                cur.push(s[1]),
                out,
            ));
        } else if s.len() >= 2 && s[1] == '\n' {
            lemma_scan_words_nonempty(s.skip(2), in_single, in_double, cur, out);
            assert(scan(s, in_single, in_double, cur, out) == scan(
                s.skip(2),
                in_single,
                in_double,
                cur,
                out,
            ));
        } else {
            lemma_scan_words_nonempty(s.skip(1), in_single, in_double, cur.push('\\'), out);
            assert(scan(s, in_single, in_double, cur, out) == scan(
                s.skip(1),
                in_single,
                in_double,
                cur.push('\\'),
                out,
            ));
        }
    } else if s[0] == ' ' && !in_single && !in_double {
        let flushed = if cur.len() > 0 {
            out.push(cur)
        } else {
            out
        };
        assert(forall|i: int| 0 <= i < flushed.len() ==> flushed[i].len() > 0);
        lemma_scan_words_nonempty(s.skip(1), in_single, in_double, Seq::empty(), flushed);
        assert(scan(s, in_single, in_double, cur, out) == scan(
            s.skip(1),
            in_single,
            in_double,
            Seq::empty(),
            flushed,
        ));
    } else if s[0] == '\\' && !in_single && !in_double {
        if s.len() >= 2 {
            lemma_scan_words_nonempty(s.skip(2), in_single, in_double, cur.push(s[1]), out);
            assert(scan(s, in_single, in_double, cur, out) == scan(
                s.skip(2),
                in_single,
                in_double,
                cur.push(s[1]),
                out,
            ));
        } else {
            lemma_scan_words_nonempty(s.skip(1), in_single, in_double, cur, out);
            assert(scan(s, in_single, in_double, cur, out) == scan(
                s.skip(1),
                in_single,
                in_double,
                cur,
                out,
            ));
        }
    } else {
        lemma_scan_words_nonempty(s.skip(1), in_single, in_double, cur.push(s[0]), out);
        assert(scan(s, in_single, in_double, cur, out) == scan(
            s.skip(1),
            in_single,
            in_double,
            cur.push(s[0]),
            out,
        ));
    }
}

/// Every word the tokenizer produces is non-empty.
pub proof fn lemma_tokenize_words_nonempty(s: Seq<char>)
    ensures
        forall|i: int| 0 <= i < spec_tokenize(s).len() ==> spec_tokenize(s)[i].len() > 0,
{
    lemma_scan_words_nonempty(s, false, false, Seq::empty(), Seq::empty());
}

/// Idempotence of tokenization under re-quoting: re-quoting the tokenizer's
/// own output with single quotes and joining it by spaces tokenizes back to
/// the same word sequence, provided no output word contains a single quote
/// (such a quote would be re-read as a delimiter).
pub proof fn lemma_tokenize_requote_idempotent(s: Seq<char>)
    requires
        forall|i: int| 0 <= i < spec_tokenize(s).len() ==> !spec_tokenize(s)[i].contains('\''),
    ensures
        spec_tokenize(requote(spec_tokenize(s))) == spec_tokenize(s),
{
    lemma_tokenize_words_nonempty(s);
    lemma_requote_round_trip(spec_tokenize(s));
}

} // verus!
