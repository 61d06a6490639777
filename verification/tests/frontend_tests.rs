use bfc::ast::Node;
use bfc::codegen::CodegenContext;
use bfc::lexer::{Lexer, Token};
use bfc::options::CellSize;
use bfc::parser::{parse, ParseError};

/// Every token of a source, with spans dropped.
fn lex_all(source: &str) -> Vec<Token> {
    let mut lexer = Lexer::new(source);
    let mut out = Vec::new();
    while let Some(item) = lexer.next() {
        let (_, tok, _) = item.unwrap();
        out.push(tok);
    }
    out
}

#[test]
fn lexer_recognizes_all_eight_symbols() {
    assert_eq!(
        lex_all("[]+-><.,"),
        vec![
            Token::LoopStart,
            Token::LoopEnd,
            Token::Inc,
            Token::Dec,
            Token::IncPtr,
            Token::DecPtr,
            Token::Print,
            Token::Read,
        ]
    );
}

#[test]
fn lexer_skips_comment_characters() {
    assert_eq!(
        lex_all("say + hi - to [the] tape.\n"),
        vec![
            Token::Inc,
            Token::Dec,
            Token::LoopStart,
            Token::LoopEnd,
            Token::Print,
        ]
    );
}

#[test]
fn lexer_reports_byte_positions() {
    let mut lexer = Lexer::new("ab+c[-]");
    assert_eq!(lexer.next(), Some(Ok((2, Token::Inc, 3))));
    assert_eq!(lexer.next(), Some(Ok((4, Token::LoopStart, 5))));
    assert_eq!(lexer.next(), Some(Ok((5, Token::Dec, 6))));
    assert_eq!(lexer.next(), Some(Ok((6, Token::LoopEnd, 7))));
    assert_eq!(lexer.next(), None);
}

#[test]
fn lexer_spans_are_byte_offsets_past_multibyte_comments() {
    // The letter before the plus sign takes two bytes, so the token starts
    // at byte 2, not at character index 1.
    let mut lexer = Lexer::new("é+");
    assert_eq!(lexer.next(), Some(Ok((2, Token::Inc, 3))));
    assert_eq!(lexer.next(), None);
}

#[test]
fn lexer_on_empty_source() {
    let mut lexer = Lexer::new("");
    assert_eq!(lexer.next(), None);
}

#[test]
fn parse_straight_line_program() {
    let toks = vec![Token::Inc, Token::Dec, Token::IncPtr, Token::DecPtr, Token::Print];
    assert_eq!(
        parse(&toks),
        Ok(vec![
            Node::Increment,
            Node::Decrement,
            Node::IncrementPointer,
            Node::DecrementPointer,
            Node::PrintChar,
        ])
    );
}

#[test]
fn parse_empty_input() {
    assert_eq!(parse(&vec![]), Ok(vec![]));
}

#[test]
fn parse_nested_loops() {
    let toks = lex_all("+[->[,]<]");
    assert_eq!(
        parse(&toks),
        Ok(vec![
            Node::Increment,
            Node::Loop(vec![
                Node::Decrement,
                Node::IncrementPointer,
                Node::Loop(vec![Node::ReadChar]),
                Node::DecrementPointer,
            ]),
        ])
    );
}

#[test]
fn parse_rejects_unmatched_closing_bracket() {
    let toks = lex_all("+]-[");
    assert_eq!(parse(&toks), Err(ParseError::UnexpectedLoopEnd));
}

#[test]
fn parse_rejects_unclosed_loop() {
    let toks = lex_all("[[-]");
    assert_eq!(parse(&toks), Err(ParseError::UnexpectedEndOfInput));
}

#[test]
fn cell_size_bytes() {
    assert_eq!(CellSize::I8.bytes(), 1);
    assert_eq!(CellSize::I16.bytes(), 2);
    assert_eq!(CellSize::I32.bytes(), 4);
    assert_eq!(CellSize::I64.bytes(), 8);
}

#[test]
fn source_to_function_end_to_end() {
    let tokens = lex_all("++[->+<].");
    let tree = parse(&tokens).unwrap();
    let mut cg = CodegenContext::new(
        bfc::ir::IrType::I64,
        bfc::ir::IrType::I8,
        4096,
    );
    cg.generate(tree).unwrap();
    let f = cg.finish();
    assert_eq!(f.blocks.len(), 3);
}
