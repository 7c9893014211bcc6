use embed_ui::text::{args_insert, args_new, Op, Token, Tokenizer};

fn tokens_of(format: &[u8]) -> Vec<Token> {
    let mut t = Tokenizer::new(format);
    let mut out = Vec::new();
    while let Some(tok) = t.next() {
        out.push(tok);
    }
    out
}

#[test]
fn tokenizer_splits_literals_and_arguments() {
    let format = b"Nice to meet {you}, where you been?";
    let toks = tokens_of(format);
    assert_eq!(toks.len(), 3);
    assert!(matches!(toks[0], Token::Literal { start: 0, end: 13 }));
    assert_eq!(&format[0..13], b"Nice to meet ");
    assert!(matches!(toks[1], Token::Argument { start: 14, end: 17 }));
    assert_eq!(&format[14..17], b"you");
    assert!(matches!(toks[2], Token::Literal { start: 18, end: 35 }));
    assert_eq!(&format[18..35], b", where you been?");
}

#[test]
fn tokenizer_drops_unterminated_placeholder() {
    let toks = tokens_of(b"ab{xy");
    assert_eq!(toks.len(), 1);
    assert!(matches!(toks[0], Token::Literal { start: 0, end: 2 }));
}

#[test]
fn tokenizer_empty_template_yields_nothing() {
    assert!(tokens_of(b"").is_empty());
}

#[test]
fn tokenizer_adjacent_arguments() {
    let toks = tokens_of(b"{a}{b}");
    assert_eq!(toks.len(), 2);
    assert!(matches!(toks[0], Token::Argument { start: 1, end: 2 }));
    assert!(matches!(toks[1], Token::Argument { start: 4, end: 5 }));
}

fn concat_text_ops(ops: &[Op]) -> Vec<u8> {
    let mut out = Vec::new();
    for op in ops {
        if let Op::Text(t) = op {
            out.extend_from_slice(t);
        }
    }
    out
}

#[test]
fn round_trip_reconstructs_substituted_template() {
    // Balanced braces and fully bound arguments: the concatenation of all
    // resolved operations holds no unresolved marker.
    let mut args = args_new();
    assert!(args_insert(&mut args, b"x".to_vec(), b"1".to_vec()));
    assert!(args_insert(&mut args, b"y".to_vec(), b"2".to_vec()));
    let ops = Tokenizer::new(b"ab{x}cd{y}").into_ops(&args);
    let flat = concat_text_ops(&ops);
    assert_eq!(flat, b"ab1cd2".to_vec());
    assert!(!flat.contains(&b'{'));
    assert!(!flat.contains(&b'}'));
}

#[test]
fn unresolved_placeholder_vanishes() {
    let args = args_new();
    let ops = Tokenizer::new(b"a{missing}b").into_ops(&args);
    assert_eq!(concat_text_ops(&ops), b"ab".to_vec());
}

#[test]
fn argument_map_replaces_existing_key() {
    let mut args = args_new();
    assert!(args_insert(&mut args, b"k".to_vec(), b"old".to_vec()));
    assert!(args_insert(&mut args, b"k".to_vec(), b"new".to_vec()));
    let ops = Tokenizer::new(b"{k}").into_ops(&args);
    assert_eq!(concat_text_ops(&ops), b"new".to_vec());
}

#[test]
fn argument_map_ignores_binding_beyond_capacity() {
    let mut args = args_new();
    for (i, key) in [b"a", b"b", b"c", b"d", b"e", b"f"].iter().enumerate() {
        assert!(args_insert(&mut args, key.to_vec(), vec![b'0' + i as u8]));
    }
    // The seventh distinct binding exceeds the fixed capacity and is
    // silently ignored.
    assert!(!args_insert(&mut args, b"g".to_vec(), b"7".to_vec()));
    let ops = Tokenizer::new(b"{a}{g}{f}").into_ops(&args);
    assert_eq!(concat_text_ops(&ops), b"05".to_vec());
}
