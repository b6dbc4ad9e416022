//! String-literal encoding and decoding.
//!
//! Synthesized output literals are encoded by the library itself with an
//! exact specification (`lit_repr_of`), and a proved inverse (`decode_lit_repr`)
//! shows that decoding such a literal gives back the original text. Input
//! literals, which may use any of the host language's literal forms (raw
//! strings, unicode escapes, ...), are decoded through an external literal
//! parser behind a trusted wrapper.
use vstd::prelude::*;
use vstd::string::StrSliceExecFns;

verus! {

/// Relies on `alloc::string::String::push`: appends the given character to
/// the end of the string.
pub assume_specification[ String::push ](s: &mut String, c: char)
    ensures
        final(s)@ == old(s)@.push(c),
;

/// How one character is written inside a synthesized string literal: quote,
/// backslash, newline, carriage return and tab take a two-character escape;
/// every other character stands for itself.
pub open spec fn escape_char(c: char) -> Seq<char> {
    if c == '"' {
        seq!['\\', '"']
    } else if c == '\\' {
        seq!['\\', '\\']
    } else if c == '\n' {
        seq!['\\', 'n']
    } else if c == '\r' {
        seq!['\\', 'r']
    } else if c == '\t' {
        seq!['\\', 't']
    } else {
        seq![c]
    }
}

/// The body of a synthesized string literal: each character escaped in turn.
pub open spec fn escape_seq(s: Seq<char>) -> Seq<char>
    decreases s.len(),
{
    if s.len() == 0 {
        Seq::empty()
    } else {
        escape_char(s[0]) + escape_seq(s.drop_first())
    }
}

/// The full source text of a synthesized string literal holding `s`.
pub open spec fn lit_repr_of(s: Seq<char>) -> Seq<char> {
    seq!['"'] + escape_seq(s) + seq!['"']
}

pub proof fn lemma_escape_seq_append(a: Seq<char>, b: Seq<char>)
    ensures
        escape_seq(a + b) == escape_seq(a) + escape_seq(b),
    decreases a.len(),
{
    if a.len() == 0 {
        assert(a + b =~= b);
        assert(escape_seq(a) + escape_seq(b) =~= escape_seq(b));
    } else {
        assert((a + b).drop_first() =~= a.drop_first() + b);
        lemma_escape_seq_append(a.drop_first(), b);
        assert((a + b)[0] == a[0]);
        assert(escape_char(a[0]) + (escape_seq(a.drop_first()) + escape_seq(b)) =~= (escape_char(
            a[0],
        ) + escape_seq(a.drop_first())) + escape_seq(b));
    }
}

/// Encodes `s` as the source text of a string literal whose value is `s`.
pub fn encode_str_lit(s: &str) -> (r: String)
    ensures
        r@ == lit_repr_of(s@),
{
    let mut out = String::new();
    out.push('"');
    let n = s.unicode_len();
    let mut i: usize = 0;
    while i < n
        invariant
            n == s@.len(),
            i <= n,
            out@ == seq!['"'] + escape_seq(s@.take(i as int)),
        decreases n - i,
    {
        let c = s.get_char(i);
        if c == '"' {
            out.push('\\');
            out.push('"');
        } else if c == '\\' {
            out.push('\\');
            out.push('\\');
        } else if c == '\n' {
            out.push('\\');
            out.push('n');
        } else if c == '\r' {
            out.push('\\');
            out.push('r');
        } else if c == '\t' {
            out.push('\\');
            out.push('t');
        } else {
            out.push(c);
        }
        proof {
            let prefix = s@.take(i as int);
            assert(s@.take(i + 1) =~= prefix + seq![s@[i as int]]);
            lemma_escape_seq_append(prefix, seq![s@[i as int]]);
            let u = seq![s@[i as int]];
            assert(u.len() == 1 && u[0] == s@[i as int]);
            assert(u.drop_first() =~= Seq::<char>::empty());
            assert(escape_seq(u) == escape_char(s@[i as int]) + escape_seq(u.drop_first()));
            assert(escape_seq(u) =~= escape_char(s@[i as int]));
            assert(out@ =~= seq!['"'] + escape_seq(s@.take(i + 1)));
        }
        i += 1;
    }
    out.push('"');
    proof {
        assert(s@.take(n as int) =~= s@);
        assert(out@ =~= lit_repr_of(s@));
    }
    out
}

/// Whether `c` may follow a backslash in a synthesized literal.
pub open spec fn is_escape_code(c: char) -> bool {
    c == '"' || c == '\\' || c == 'n' || c == 'r' || c == 't'
}

/// The character an escape code stands for.
pub open spec fn unescape_code(c: char) -> char {
    if c == 'n' {
        '\n'
    } else if c == 'r' {
        '\r'
    } else if c == 't' {
        '\t'
    } else {
        c
    }
}

/// Decodes the body of a string literal written in the synthesized form:
/// backslash escapes are resolved, and a stray quote, backslash or carriage
/// return makes the body invalid.
pub open spec fn unescape_body(s: Seq<char>) -> Option<Seq<char>>
    decreases s.len(),
{
    if s.len() == 0 {
        Some(Seq::empty())
    } else if s[0] == '\\' {
        if s.len() >= 2 && is_escape_code(s[1]) {
            match unescape_body(s.skip(2)) {
                Some(t) => Some(seq![unescape_code(s[1])] + t),
                None => None,
            }
        } else {
            None
        }
    } else if s[0] == '"' || s[0] == '\r' {
        None
    } else {
        match unescape_body(s.drop_first()) {
            Some(t) => Some(seq![s[0]] + t),
            None => None,
        }
    }
}

/// Decodes the full source text of a string literal written in the
/// synthesized form: surrounding quotes, then the unescaped body.
pub open spec fn decode_lit_repr(r: Seq<char>) -> Option<Seq<char>> {
    if r.len() >= 2 && r[0] == '"' && r[r.len() - 1] == '"' {
        unescape_body(r.subrange(1, r.len() - 1))
    } else {
        None
    }
}

/// Unescaping inverts escaping: the body of a synthesized literal decodes
/// back to the text it was made from.
pub proof fn lemma_unescape_escape(s: Seq<char>)
    ensures
        unescape_body(escape_seq(s)) == Some(s),
    decreases s.len(),
{
    if s.len() == 0 {
    } else {
        let c = s[0];
        let rest = s.drop_first();
        lemma_unescape_escape(rest);
        let e = escape_seq(s);
        assert(e == escape_char(c) + escape_seq(rest));
        if c == '"' || c == '\\' || c == '\n' || c == '\r' || c == '\t' {
            assert(escape_char(c).len() == 2);
            assert(e[0] == '\\');
            assert(is_escape_code(e[1]));
            assert(unescape_code(e[1]) == c);
            assert(e.skip(2) =~= escape_seq(rest));
            assert(seq![c] + rest =~= s);
        } else {
            assert(e[0] == c);
            assert(e.drop_first() =~= escape_seq(rest));
            assert(seq![c] + rest =~= s);
        }
    }
}

/// Decoding inverts encoding: a literal synthesized from `s` decodes to `s`.
pub proof fn lemma_decode_encode(s: Seq<char>)
    ensures
        decode_lit_repr(lit_repr_of(s)) == Some(s),
{
    let r = lit_repr_of(s);
    assert(r.len() >= 2);
    assert(r[0] == '"');
    assert(r[r.len() - 1] == '"');
    assert(r.subrange(1, r.len() - 1) =~= escape_seq(s));
    lemma_unescape_escape(s);
}

/// The outcome of the external literal parser on a literal's source text:
/// the decoded string value, or the parser's error message. The outcome
/// depends on the text alone.
pub uninterp spec fn str_lit_decoded(raw: Seq<char>) -> Result<Seq<char>, Seq<char>>;

/// Relies on `litrs::StringLit::parse` (and `into_value`): parses a string
/// or raw-string literal from its source text and resolves all escapes, or
/// reports a parse error; the outcome depends on the text alone.
#[verifier::external_body]
pub(crate) fn parse_str_lit(raw: &str) -> (r: Result<String, String>)
    ensures
        r is Ok <==> str_lit_decoded(raw@) is Ok,
        r matches Ok(v) ==> str_lit_decoded(raw@) matches Ok(w) && v@ == w,
        r matches Err(m) ==> str_lit_decoded(raw@) matches Err(w) && m@ == w,
{
    match litrs::StringLit::parse(raw) {
        Ok(lit) => Ok(lit.into_value().into_owned()),
        Err(e) => Err(e.to_string()),
    }
}

} // verus!
