//! Escaping of values that stand inside single quotes in ffmpeg's filtergraphs and concat lists.
use vstd::prelude::*;

verus! {

/// What a character becomes inside single quotes: a quote closes them, stands escaped, and opens
/// them again. Any other character, a backslash too, stands for itself there.
pub open spec fn escape(c: char) -> Seq<char> {
    if c == '\'' {
        seq!['\'', '\\', '\'', '\'']
    } else {
        seq![c]
    }
}

/// A text with each character escaped for single quotes.
pub open spec fn escaped(value: Seq<char>) -> Seq<char>
    decreases value.len(),
{
    if value.len() == 0 {
        Seq::empty()
    } else {
        escape(value[0]) + escaped(value.drop_first())
    }
}

/// A text between single quotes.
pub open spec fn in_quotes(text: Seq<char>) -> Seq<char> {
    seq!['\''] + text + seq!['\'']
}

/// What a token of ffmpeg's quoting rules says, read from inside or outside of quotes. Between
/// single quotes every character stands for itself; outside of them a backslash makes the next
/// character stand for itself. A token that ends inside quotes, or in a lone backslash, says
/// nothing.
pub open spec fn read_token(token: Seq<char>, quoted: bool) -> Option<Seq<char>>
    decreases token.len(),
{
    if token.len() == 0 {
        if quoted {
            None
        } else {
            Some(Seq::empty())
        }
    } else if token[0] == '\'' {
        read_token(token.drop_first(), !quoted)
    } else if token[0] == '\\' && !quoted {
        if token.len() == 1 {
            None
        } else {
            prepend(token[1], read_token(token.skip(2), false))
        }
    } else {
        prepend(token[0], read_token(token.drop_first(), quoted))
    }
}

/// A character before what the rest of a token says.
pub open spec fn prepend(c: char, rest: Option<Seq<char>>) -> Option<Seq<char>> {
    match rest {
        Some(text) => Some(seq![c] + text),
        None => None,
    }
}

/// The length of the token at the start of a text, which goes up to the first newline that is
/// neither quoted nor escaped, or to the end of the text.
pub open spec fn token_length(text: Seq<char>, quoted: bool) -> nat
    decreases text.len(),
{
    if text.len() == 0 || (text[0] == '\n' && !quoted) {
        0
    } else if text[0] == '\'' {
        1 + token_length(text.drop_first(), !quoted)
    } else if text[0] == '\\' && !quoted && text.len() > 1 {
        2 + token_length(text.skip(2), false)
    } else {
        1 + token_length(text.drop_first(), quoted)
    }
}

/// Escapes a value for use between single quotes.
fn escape_quotes(value: &str) -> (out: String)
    ensures
        out@ == escaped(value@),
{
    let mut out = String::new();
    assert(value@.skip(0) =~= value@);
    assert(out@ + escaped(value@) =~= escaped(value@));
    for c in it: value.chars()
        invariant
            it.seq() == value@,
            out@ + escaped(value@.skip(it.index() as int)) == escaped(value@),
    {
        let ghost before = out@;
        let ghost rest = value@.skip(it.index() as int);
        if c == '\'' {
            out.push('\'');
            out.push('\\');
            out.push('\'');
            out.push('\'');
        } else {
            out.push(c);
        }
        proof {
            assert(rest.drop_first() =~= value@.skip(it.index() as int + 1));
            assert(out@ =~= before + escape(c));
            assert(out@ + escaped(rest.drop_first()) =~= before + escaped(rest));
        }
    }
    proof {
        assert(value@.skip(value@.len() as int) =~= Seq::<char>::empty());
        assert(out@ + Seq::<char>::empty() =~= out@);
    }
    out
}

/// Escapes a value for use inside a single-quoted ffmpeg filtergraph literal.
pub fn escape_filter_literal(value: &str) -> (out: String)
    ensures
        out@ == escaped(value@),
{
    escape_quotes(value)
}

/// Escapes a value for use inside a single-quoted concat demuxer list entry. A backslash between
/// quotes stands for itself, so a quote has to close the quotes to be escaped.
pub fn escape_concat_literal(value: &str) -> (out: String)
    ensures
        out@ == escaped(value@),
{
    escape_quotes(value)
}

proof fn read_quote(rest: Seq<char>, quoted: bool)
    ensures
        read_token(seq!['\''] + rest, quoted) == read_token(rest, !quoted),
        token_length(seq!['\''] + rest, quoted) == 1 + token_length(rest, !quoted),
{
    assert((seq!['\''] + rest).drop_first() =~= rest);
}

proof fn read_in_quotes(c: char, rest: Seq<char>)
    requires
        c != '\'',
    ensures
        read_token(seq![c] + rest, true) == prepend(c, read_token(rest, true)),
        token_length(seq![c] + rest, true) == 1 + token_length(rest, true),
{
    assert((seq![c] + rest).drop_first() =~= rest);
}

proof fn read_after_backslash(c: char, rest: Seq<char>)
    ensures
        read_token(seq!['\\', c] + rest, false) == prepend(c, read_token(rest, false)),
        token_length(seq!['\\', c] + rest, false) == 2 + token_length(rest, false),
{
    assert((seq!['\\', c] + rest).skip(2) =~= rest);
}

/// A value that was escaped and put in single quotes reads back as the value, whatever
/// characters it holds.
pub proof fn literals_read_back(value: Seq<char>)
    ensures
        read_token(in_quotes(escaped(value)), false) == Some(value),
{
    tails_read_back(value);
    let tail = escaped(value) + seq!['\''];
    assert(in_quotes(escaped(value)) =~= seq!['\''] + tail);
    read_quote(tail, false);
}

proof fn tails_read_back(value: Seq<char>)
    ensures
        read_token(escaped(value) + seq!['\''], true) == Some(value),
    decreases value.len(),
{
    let text = escaped(value) + seq!['\''];
    if value.len() == 0 {
        assert(text =~= seq!['\''] + Seq::<char>::empty());
        read_quote(Seq::empty(), true);
        assert(value =~= Seq::<char>::empty());
    } else {
        let rest = escaped(value.drop_first()) + seq!['\''];
        tails_read_back(value.drop_first());
        assert(value =~= seq![value[0]] + value.drop_first());
        if value[0] == '\'' {
            let reopened = seq!['\''] + rest;
            let outside = seq!['\\', '\''] + reopened;
            assert(text =~= seq!['\''] + outside);
            read_quote(outside, true);
            read_after_backslash('\'', reopened);
            read_quote(rest, false);
        } else {
            assert(text =~= seq![value[0]] + rest);
            read_in_quotes(value[0], rest);
        }
    }
}

/// Different values never share an escaped form.
pub proof fn literals_differ(a: Seq<char>, b: Seq<char>)
    requires
        escaped(a) == escaped(b),
    ensures
        a == b,
{
    literals_read_back(a);
    literals_read_back(b);
}

/// Escaping adds no newline.
pub proof fn escaping_adds_no_newline(value: Seq<char>)
    requires
        !value.contains('\n'),
    ensures
        !escaped(value).contains('\n'),
    decreases value.len(),
{
    if value.len() > 0 {
        let rest = value.drop_first();
        assert forall|i: int| 0 <= i < rest.len() implies rest[i] != '\n' by {
            assert(value.contains(value[i + 1]));
        }
        assert(value.contains(value[0]));
        escaping_adds_no_newline(rest);
        let (head, tail) = (escape(value[0]), escaped(rest));
        assert forall|i: int| 0 <= i < escaped(value).len() implies escaped(value)[i] != '\n' by {
            if i >= head.len() {
                assert(tail.contains(tail[i - head.len()]));
            }
        }
    }
}

/// A quoted value with a newline behind it is a whole token: neither the value nor what follows
/// moves its end.
pub proof fn literals_end_at_their_newline(value: Seq<char>, after: Seq<char>)
    ensures
        token_length(in_quotes(escaped(value)) + seq!['\n'] + after, false) == in_quotes(
            escaped(value),
        ).len(),
{
    tails_end_at_their_newline(value, after);
    let tail = escaped(value) + (seq!['\'', '\n'] + after);
    assert(in_quotes(escaped(value)) + seq!['\n'] + after =~= seq!['\''] + tail);
    read_quote(tail, false);
}

proof fn tails_end_at_their_newline(value: Seq<char>, after: Seq<char>)
    ensures
        token_length(escaped(value) + (seq!['\'', '\n'] + after), true) == escaped(value).len() + 1,
    decreases value.len(),
{
    let end = seq!['\'', '\n'] + after;
    let text = escaped(value) + end;
    if value.len() == 0 {
        assert(text =~= seq!['\''] + (seq!['\n'] + after));
        read_quote(seq!['\n'] + after, true);
    } else {
        let rest = escaped(value.drop_first()) + end;
        tails_end_at_their_newline(value.drop_first(), after);
        if value[0] == '\'' {
            let reopened = seq!['\''] + rest;
            let outside = seq!['\\', '\''] + reopened;
            assert(text =~= seq!['\''] + outside);
            read_quote(outside, true);
            read_after_backslash('\'', reopened);
            read_quote(rest, false);
        } else {
            assert(text =~= seq![value[0]] + rest);
            read_in_quotes(value[0], rest);
        }
    }
}

/// Escaping is done character by character: a quote becomes `'\\''`, any other character stays
/// as it is, and what stands around it makes no difference.
pub proof fn characters_are_escaped_one_by_one(a: Seq<char>, c: char, b: Seq<char>)
    ensures
        escaped(a + b) == escaped(a) + escaped(b),
        escaped(a + seq![c] + b) == escaped(a) + (if c == '\'' {
            seq!['\'', '\\', '\'', '\'']
        } else {
            seq![c]
        }) + escaped(b),
        escaped(Seq::empty()) == Seq::<char>::empty(),
{
    escaping_appends(a, b);
    escaping_appends(a, seq![c]);
    escaping_appends(a + seq![c], b);
    assert(seq![c].drop_first() =~= Seq::<char>::empty());
    assert(escaped(seq![c].drop_first()) =~= Seq::<char>::empty());
    assert(escaped(seq![c]) =~= escape(c));
}

proof fn escaping_appends(a: Seq<char>, b: Seq<char>)
    ensures
        escaped(a + b) == escaped(a) + escaped(b),
    decreases a.len(),
{
    if a.len() == 0 {
        assert(a + b =~= b);
        assert(escaped(a) + escaped(b) =~= escaped(b));
    } else {
        escaping_appends(a.drop_first(), b);
        assert((a + b).drop_first() =~= a.drop_first() + b);
        assert(escaped(a + b) =~= escaped(a) + escaped(b));
    }
}

/// A value without a quote needs no escaping.
pub proof fn values_without_quotes_stay(value: Seq<char>)
    requires
        !value.contains('\''),
    ensures
        escaped(value) == value,
        in_quotes(escaped(value)) == seq!['\''] + value + seq!['\''],
    decreases value.len(),
{
    if value.len() == 0 {
        assert(escaped(value) =~= value);
    } else {
        let rest = value.drop_first();
        assert forall|i: int| 0 <= i < rest.len() implies rest[i] != '\'' by {
            assert(value.contains(value[i + 1]));
        }
        assert(value.contains(value[0]));
        values_without_quotes_stay(rest);
        assert(escaped(value) =~= value);
    }
}

} // verus!
