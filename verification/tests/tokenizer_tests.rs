use deltaq::tokenizer::{tokenize, Token};

#[test]
fn tokens_carry_character_offsets() {
    let tokens = tokenize("ab: int?");
    assert_eq!(
        tokens,
        vec![
            Token::Ident(0, "ab".to_string()),
            Token::Colon(2),
            Token::Ident(4, "int".to_string()),
            Token::Question(7),
        ]
    );
    for t in &tokens {
        assert_eq!(
            t.get_index(),
            match t {
                Token::Ident(i, _) => *i,
                Token::Colon(i) => *i,
                Token::Question(i) => *i,
                _ => unreachable!(),
            }
        );
    }
}

#[test]
fn every_delimiter_becomes_its_own_token() {
    let tokens = tokenize(":,?<>()");
    assert_eq!(
        tokens,
        vec![
            Token::Colon(0),
            Token::Comma(1),
            Token::Question(2),
            Token::Lt(3),
            Token::Gt(4),
            Token::LParen(5),
            Token::RParen(6),
        ]
    );
}

#[test]
fn whitespace_splits_identifiers_and_is_dropped() {
    let tokens = tokenize("  foo \t bar\nbaz  ");
    assert_eq!(
        tokens,
        vec![
            Token::Ident(2, "foo".to_string()),
            Token::Ident(8, "bar".to_string()),
            Token::Ident(12, "baz".to_string()),
        ]
    );
}

#[test]
fn unrecognized_runs_become_identifiers() {
    let tokens = tokenize("a-b.c 42");
    assert_eq!(
        tokens,
        vec![Token::Ident(0, "a-b.c".to_string()), Token::Ident(6, "42".to_string())]
    );
}

#[test]
fn empty_input_has_no_tokens() {
    assert_eq!(tokenize(""), vec![]);
}

#[test]
fn unicode_whitespace_also_splits_identifiers() {
    let tokens = tokenize("a\u{00A0}b");
    assert_eq!(
        tokens,
        vec![Token::Ident(0, "a".to_string()), Token::Ident(2, "b".to_string())]
    );
}
