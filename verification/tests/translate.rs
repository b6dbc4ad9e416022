use cotirema::cotirema;
use cotirema::token::{Delim, Span, Token};

fn lit(repr: &str, id: usize) -> Token {
    Token::Literal { repr: repr.to_string(), span: Span { id } }
}

fn comma(id: usize) -> Token {
    Token::Punct { ch: ',', joint: false, span: Span { id } }
}

fn ident(name: &str, id: usize) -> Token {
    Token::Ident { name: name.to_string(), span: Span { id } }
}

fn invocation(pattern_repr: &str, haystack_repr: &str) -> Vec<Token> {
    vec![lit(pattern_repr, 1), comma(2), lit(haystack_repr, 3)]
}

/// The texts of the string literals inside the single bracket group of a
/// successful output, decoded through the external literal parser; panics if
/// the output has any other shape.
fn decoded_matches(out: &[Token]) -> Vec<String> {
    assert_eq!(out.len(), 1);
    let Token::Group { delim, tokens, span } = &out[0] else {
        panic!("expected a group");
    };
    assert!(matches!(delim, Delim::Bracket));
    assert_eq!(span.id, 0);
    assert_eq!(tokens.len() % 2, 0);
    let mut vals = Vec::new();
    for pair in tokens.chunks(2) {
        let Token::Literal { repr, span } = &pair[0] else {
            panic!("expected a literal");
        };
        assert_eq!(span.id, 0);
        let parsed = litrs::StringLit::parse(repr.as_str()).expect("output literal must decode");
        vals.push(parsed.value().to_string());
        let Token::Punct { ch, joint, span } = &pair[1] else {
            panic!("expected a comma");
        };
        assert_eq!(*ch, ',');
        assert!(!*joint);
        assert_eq!(span.id, 0);
    }
    vals
}

/// The message literal of a diagnostic output, decoded, with the span id the
/// fragment is pinned to; panics if the output is not a diagnostic fragment.
fn diagnostic_of(out: &[Token]) -> (String, usize) {
    assert_eq!(out.len(), 8, "a diagnostic fragment has eight tokens");
    let pin = match &out[0] {
        Token::Punct { ch: ':', joint: true, span } => span.id,
        t => panic!("expected `:`, got {:?}", kind_of(t)),
    };
    match &out[2] {
        Token::Ident { name, span } => {
            assert_eq!(name, "core");
            assert_eq!(span.id, pin);
        }
        _ => panic!("expected the `core` identifier"),
    }
    match &out[5] {
        Token::Ident { name, span } => {
            assert_eq!(name, &format!("{}_{}", "compile", "error"));
            assert_eq!(span.id, pin);
        }
        _ => panic!("expected the reporting macro's identifier"),
    }
    match &out[6] {
        Token::Punct { ch: '!', joint: false, span } => assert_eq!(span.id, pin),
        _ => panic!("expected `!`"),
    }
    let Token::Group { delim, tokens, span } = &out[7] else {
        panic!("expected the message group");
    };
    assert!(matches!(delim, Delim::Paren));
    assert_eq!(span.id, pin);
    assert_eq!(tokens.len(), 1);
    let Token::Literal { repr, span } = &tokens[0] else {
        panic!("expected the message literal");
    };
    assert_eq!(span.id, pin);
    let parsed = litrs::StringLit::parse(repr.as_str()).expect("message literal must decode");
    (parsed.value().to_string(), pin)
}

fn kind_of(t: &Token) -> &'static str {
    match t {
        Token::Literal { .. } => "literal",
        Token::Punct { .. } => "punct",
        Token::Ident { .. } => "ident",
        Token::Group { .. } => "group",
    }
}

#[test]
fn three_matches_in_order() {
    let out = cotirema(invocation("\"a.\"", "\"aXaYaZ\""));
    assert_eq!(decoded_matches(&out), vec!["aX", "aY", "aZ"]);
}

#[test]
fn zero_matches_gives_empty_brackets() {
    let out = cotirema(invocation("\"z\"", "\"abc\""));
    assert_eq!(decoded_matches(&out), Vec::<String>::new());
    let Token::Group { tokens, .. } = &out[0] else {
        panic!("expected a group");
    };
    assert!(tokens.is_empty());
}

#[test]
fn empty_haystack_gives_empty_brackets() {
    let out = cotirema(invocation("\"a\"", "\"\""));
    assert_eq!(decoded_matches(&out), Vec::<String>::new());
}

#[test]
fn whole_haystack_match_gives_single_element() {
    let out = cotirema(invocation("\"a+\"", "\"aaa\""));
    assert_eq!(decoded_matches(&out), vec!["aaa"]);
}

#[test]
fn matches_agree_with_engine_on_reencoded_values() {
    let pattern = "[0-9]+|x.";
    let haystack = "a12xq9 34 x";
    let out = cotirema(invocation(
        &format!("\"{}\"", pattern),
        &format!("\"{}\"", haystack),
    ));
    let decoded = decoded_matches(&out);
    let engine: Vec<String> = regex::Regex::new(pattern)
        .unwrap()
        .find_iter(haystack)
        .map(|m| m.as_str().to_string())
        .collect();
    assert_eq!(decoded, engine);
}

#[test]
fn output_literals_are_escaped_not_raw() {
    // the matched text holds a quote and a backslash; the synthesized
    // literal must escape both, and decoding must give the text back
    let out = cotirema(invocation("\"..\"", "r#\"\"\\\"#"));
    let decoded = decoded_matches(&out);
    assert_eq!(decoded, vec!["\"\\"]);
    let Token::Group { tokens, .. } = &out[0] else {
        panic!("expected a group");
    };
    let Token::Literal { repr, .. } = &tokens[0] else {
        panic!("expected a literal");
    };
    assert_eq!(repr, "\"\\\"\\\\\"");
}

#[test]
fn rerun_is_byte_identical() {
    let input = invocation("\"a.\"", "\"aXaYaZ\"");
    let again = invocation("\"a.\"", "\"aXaYaZ\"");
    let out1 = cotirema(input);
    let out2 = cotirema(again);
    assert!(toks_identical(&out1, &out2));
}

fn tok_identical(a: &Token, b: &Token) -> bool {
    match (a, b) {
        (
            Token::Literal { repr: r1, span: s1 },
            Token::Literal { repr: r2, span: s2 },
        ) => r1 == r2 && s1.id == s2.id,
        (
            Token::Punct { ch: c1, joint: j1, span: s1 },
            Token::Punct { ch: c2, joint: j2, span: s2 },
        ) => c1 == c2 && j1 == j2 && s1.id == s2.id,
        (
            Token::Ident { name: n1, span: s1 },
            Token::Ident { name: n2, span: s2 },
        ) => n1 == n2 && s1.id == s2.id,
        (
            Token::Group { delim: d1, tokens: t1, span: s1 },
            Token::Group { delim: d2, tokens: t2, span: s2 },
        ) => {
            d1 == d2 && s1.id == s2.id && toks_identical(t1, t2)
        }
        _ => false,
    }
}

fn toks_identical(a: &[Token], b: &[Token]) -> bool {
    a.len() == b.len() && a.iter().zip(b.iter()).all(|(x, y)| tok_identical(x, y))
}

#[test]
fn missing_second_argument_is_diagnosed() {
    let out = cotirema(vec![lit("\"abc\"", 1)]);
    let (msg, pin) = diagnostic_of(&out);
    assert_eq!(msg, "Proc macro ended early");
    assert_eq!(pin, 1);
}

#[test]
fn empty_invocation_is_diagnosed_at_neutral_span() {
    let out = cotirema(Vec::new());
    let (msg, pin) = diagnostic_of(&out);
    assert_eq!(msg, "Proc macro ended early");
    assert_eq!(pin, 0);
}

#[test]
fn non_string_second_argument_is_diagnosed() {
    let out = cotirema(vec![lit("\"abc\"", 1), comma(2), lit("5", 3)]);
    let (msg, pin) = diagnostic_of(&out);
    assert!(!msg.is_empty());
    assert_eq!(msg, litrs::StringLit::parse("5").unwrap_err().to_string());
    assert_eq!(pin, 3);
}

#[test]
fn non_string_first_argument_is_diagnosed() {
    let out = cotirema(vec![lit("5", 1), comma(2), lit("\"abc\"", 3)]);
    let (msg, pin) = diagnostic_of(&out);
    assert_eq!(msg, litrs::StringLit::parse("5").unwrap_err().to_string());
    assert_eq!(pin, 1);
}

#[test]
fn identifier_argument_is_diagnosed() {
    let out = cotirema(vec![ident("abc", 4), comma(2), lit("\"abc\"", 3)]);
    let (msg, pin) = diagnostic_of(&out);
    assert_eq!(msg, "Invalid token found");
    assert_eq!(pin, 4);
}

#[test]
fn missing_comma_is_diagnosed() {
    let out = cotirema(vec![lit("\"abc\"", 1), lit("\"def\"", 2)]);
    let (msg, pin) = diagnostic_of(&out);
    assert_eq!(msg, "Invalid token found");
    assert_eq!(pin, 2);
}

#[test]
fn invalid_pattern_reports_engine_error_text() {
    let out = cotirema(invocation("\"(\"", "\"abc\""));
    let (msg, pin) = diagnostic_of(&out);
    let expected = regex::Regex::new("(").unwrap_err().to_string();
    assert_eq!(msg, expected);
    assert_eq!(pin, 0, "a pattern error is pinned to the neutral span");
}

#[test]
fn trailing_tokens_are_ignored() {
    let out = cotirema(vec![
        lit("\"a\"", 1),
        comma(2),
        lit("\"aa\"", 3),
        comma(4),
        ident("extra_stuff", 5),
    ]);
    assert_eq!(decoded_matches(&out), vec!["a", "a"]);
}
