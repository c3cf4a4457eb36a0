//! Quoting of values for POSIX shell and sed (basic regular expression) text.

use vstd::prelude::*;
use crate::text::push_char;

verus! {

/// What one character of a value becomes inside a single-quoted shell word:
/// a quote closes the word, is given in double quotes, and the word reopens.
pub open spec fn quote_piece(c: char) -> Seq<char> {
    if c == '\'' {
        seq!['\'', '"', '\'', '"', '\'']
    } else {
        seq![c]
    }
}

/// The inside of the single-quoted form of `s`.
pub open spec fn quote_body(s: Seq<char>) -> Seq<char>
    decreases s.len(),
{
    if s.len() == 0 {
        Seq::empty()
    } else {
        quote_body(s.drop_last()) + quote_piece(s.last())
    }
}

/// `s` as one shell word that the shell takes literally.
pub open spec fn shell_quoted(s: Seq<char>) -> Seq<char> {
    seq!['\''] + quote_body(s) + seq!['\'']
}

/// The characters that a basic regular expression, or a sed `s` command
/// delimited by `/`, gives a meaning of their own.
pub open spec fn is_regex_meta(c: char) -> bool {
    c == '.' || c == '[' || c == ']' || c == '*' || c == '^' || c == '$' || c == '\\'
        || c == '/'
}

pub open spec fn regex_piece(c: char) -> Seq<char> {
    if is_regex_meta(c) {
        seq!['\\', c]
    } else {
        seq![c]
    }
}

/// `s` with each regular-expression metacharacter preceded by a backslash.
pub open spec fn regex_escaped(s: Seq<char>) -> Seq<char>
    decreases s.len(),
{
    if s.len() == 0 {
        Seq::empty()
    } else {
        regex_escaped(s.drop_last()) + regex_piece(s.last())
    }
}

/// Characters that a backslash escapes inside double quotes.
pub open spec fn escapable_in_double(c: char) -> bool {
    c == '$' || c == '`' || c == '"' || c == '\\' || c == '\n'
}

/// The value of shell text read as one word, outside any quotes.
pub open spec fn unquote(q: Seq<char>) -> Seq<char>
    decreases q.len(), 0int,
{
    if q.len() == 0 {
        Seq::empty()
    } else if q[0] == '\'' {
        unquote_single(q.drop_first())
    } else if q[0] == '"' {
        unquote_double(q.drop_first())
    } else if q[0] == '\\' && q.len() >= 2 {
        seq![q[1]] + unquote(q.skip(2))
    } else {
        seq![q[0]] + unquote(q.drop_first())
    }
}

/// The value of shell text read from inside single quotes.
pub open spec fn unquote_single(q: Seq<char>) -> Seq<char>
    decreases q.len(), 1int,
{
    if q.len() == 0 {
        Seq::empty()
    } else if q[0] == '\'' {
        unquote(q.drop_first())
    } else {
        seq![q[0]] + unquote_single(q.drop_first())
    }
}

/// The value of shell text read from inside double quotes.
pub open spec fn unquote_double(q: Seq<char>) -> Seq<char>
    decreases q.len(), 1int,
{
    if q.len() == 0 {
        Seq::empty()
    } else if q[0] == '"' {
        unquote(q.drop_first())
    } else if q[0] == '\\' && q.len() >= 2 && escapable_in_double(q[1]) {
        seq![q[1]] + unquote_double(q.skip(2))
    } else {
        seq![q[0]] + unquote_double(q.drop_first())
    }
}

/// `s` as one single-quoted shell word; a quote inside it is written `'"'"'`.
pub fn shell_quote(s: &str) -> (r: String)
    ensures
        r@ == shell_quoted(s@),
{
    let mut r = String::new();
    push_char(&mut r, '\'');
    let ghost mut done: Seq<char> = Seq::empty();
    for c in it: s.chars()
        invariant
            it.seq() == s@,
            done == s@.take(it.index() as int),
            r@ == seq!['\''] + quote_body(done),
    {
        let ghost before = done;
        if c == '\'' {
            push_char(&mut r, '\'');
            push_char(&mut r, '"');
            push_char(&mut r, '\'');
            push_char(&mut r, '"');
            push_char(&mut r, '\'');
        } else {
            push_char(&mut r, c);
        }
        proof {
            done = s@.take(it.index() + 1);
            assert(done.drop_last() =~= before);
            assert(done.last() == c);
        }
    }
    proof {
        assert(done =~= s@);
    }
    push_char(&mut r, '\'');
    r
}

/// `s` with each regular-expression metacharacter preceded by a backslash.
pub fn regex_escape(s: &str) -> (r: String)
    ensures
        r@ == regex_escaped(s@),
{
    let mut r = String::new();
    let ghost mut done: Seq<char> = Seq::empty();
    for c in it: s.chars()
        invariant
            it.seq() == s@,
            done == s@.take(it.index() as int),
            r@ == regex_escaped(done),
    {
        let ghost before = done;
        if c == '.' || c == '[' || c == ']' || c == '*' || c == '^' || c == '$' || c == '\\'
            || c == '/' {
            push_char(&mut r, '\\');
        }
        push_char(&mut r, c);
        proof {
            done = s@.take(it.index() + 1);
            assert(done.drop_last() =~= before);
            assert(done.last() == c);
        }
    }
    proof {
        assert(done =~= s@);
    }
    r
}

/// Quoting distributes over concatenation.
pub proof fn lemma_quote_body_concat(a: Seq<char>, b: Seq<char>)
    ensures
        quote_body(a + b) == quote_body(a) + quote_body(b),
    decreases b.len(),
{
    if b.len() == 0 {
        assert(a + b =~= a);
        assert(quote_body(a) + quote_body(b) =~= quote_body(a));
    } else {
        lemma_quote_body_concat(a, b.drop_last());
        assert((a + b).drop_last() =~= a + b.drop_last());
        assert((a + b).last() == b.last());
        assert(quote_body(a) + quote_body(b) =~= quote_body(a) + quote_body(b.drop_last())
            + quote_piece(b.last()));
    }
}

proof fn lemma_unquote_single_body(s: Seq<char>, t: Seq<char>)
    ensures
        unquote_single(quote_body(s) + seq!['\''] + t) == s + unquote(t),
    decreases s.len(),
{
    if s.len() == 0 {
        assert(quote_body(s) + seq!['\''] + t =~= seq!['\''] + t);
        assert((seq!['\''] + t).drop_first() =~= t);
        assert(s + unquote(t) =~= unquote(t));
    } else {
        let c = s[0];
        let rest = s.drop_first();
        assert(s =~= seq![c] + rest);
        lemma_quote_body_concat(seq![c], rest);
        assert(quote_body(seq![c]) =~= quote_piece(c)) by {
            assert(seq![c].drop_last() =~= Seq::<char>::empty());
            assert(seq![c].last() == c);
            assert(quote_body(Seq::<char>::empty()) =~= Seq::<char>::empty());
        }
        lemma_unquote_single_body(rest, t);
        let tail = quote_body(rest) + seq!['\''] + t;
        let whole = quote_body(s) + seq!['\''] + t;
        assert(whole =~= quote_piece(c) + tail);
        if c == '\'' {
            let w1 = whole.drop_first();
            assert(w1 =~= seq!['"', '\'', '"', '\''] + tail);
            let w2 = w1.drop_first();
            assert(w2 =~= seq!['\'', '"', '\''] + tail);
            let w3 = w2.drop_first();
            assert(w3 =~= seq!['"', '\''] + tail);
            let w4 = w3.drop_first();
            assert(w4 =~= seq!['\''] + tail);
            let w5 = w4.drop_first();
            assert(w5 =~= tail);
            assert(unquote_double(w2) == seq!['\''] + unquote_double(w3));
            assert(unquote_double(w3) == unquote(w4));
            assert(unquote(w4) == unquote_single(w5));
            assert(unquote_single(whole) == unquote(w1));
            assert(unquote(w1) == unquote_double(w2));
            assert(s + unquote(t) =~= seq![c] + (rest + unquote(t)));
        } else {
            assert(whole.drop_first() =~= tail);
            assert(s + unquote(t) =~= seq![c] + (rest + unquote(t)));
        }
    }
}

/// Reading back the quoted form of a value gives the value: no quote, `$`
/// or other character in it escapes the quoting.
pub proof fn lemma_shell_quote_round_trip(s: Seq<char>)
    ensures
        unquote(shell_quoted(s)) == s,
{
    let q = shell_quoted(s);
    assert(q.drop_first() =~= quote_body(s) + seq!['\''] + Seq::<char>::empty());
    lemma_unquote_single_body(s, Seq::empty());
    assert(s + Seq::<char>::empty() =~= s);
}

} // verus!
