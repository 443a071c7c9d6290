use afg::lexer::token::{KeywordKind, SymbolKind};
use afg::lexer::{keywords_parser, symbols_parser};

#[test]
fn test_symbol_parser() {
    assert_eq!(symbols_parser(';'), Some(SymbolKind::LineBreak));
}

#[test]
fn test_keyword_parser() {
    let text: Vec<char> = "fn main".chars().collect();
    assert_eq!(keywords_parser(&text, 0), Some(KeywordKind::Fn));
}
