use bf::tokenizer::tokenize;
use bf::tokenizer::CodeDebugToken;
use bf::tokenizer::CodeToken;
use bf::CodeMemory;

fn stream(code: &mut CodeMemory) -> Vec<CodeToken> {
    let mut tokens = Vec::new();
    while let Some(token) = code.read() {
        tokens.push(token.token);
        code.next();
    }
    tokens
}

#[test]
fn from_str_tokenizes_the_source() {
    let mut code = CodeMemory::from_str("+ [-]\n.");
    assert_eq!(code.position(), 0);
    assert_eq!(
        stream(&mut code),
        vec![
            CodeToken::Increment,
            CodeToken::StartLoop,
            CodeToken::Decrement,
            CodeToken::EndLoop,
            CodeToken::Output
        ]
    );
    assert_eq!(code.position(), 5);
}

#[test]
fn all_constructors_agree() {
    let source = String::from(",[.,]");
    let expected = vec![
        CodeToken::Input,
        CodeToken::StartLoop,
        CodeToken::Output,
        CodeToken::Input,
        CodeToken::EndLoop,
    ];
    assert_eq!(stream(&mut CodeMemory::from_string(&source)), expected);
    assert_eq!(stream(&mut CodeMemory::from_str(&source)), expected);
    assert_eq!(stream(&mut CodeMemory::from_bytes(source.as_bytes())), expected);
    assert_eq!(stream(&mut CodeMemory::from_tokens(tokenize(source.as_bytes()))), expected);
    assert_eq!(stream(&mut CodeMemory::from(source.as_str())), expected);
    assert_eq!(stream(&mut CodeMemory::from(&source)), expected);
}

#[test]
fn from_tokens_keeps_the_tokens_as_given() {
    let tokens = vec![
        CodeDebugToken { token: CodeToken::Output, line: 7, column: 9 },
        CodeDebugToken { token: CodeToken::Input, line: 3, column: 4 },
    ];
    let mut code = CodeMemory::from_tokens(tokens);
    let first = code.read().unwrap();
    assert_eq!((first.token, first.line, first.column), (CodeToken::Output, 7, 9));
    code.next();
    let second = code.read().unwrap();
    assert_eq!((second.token, second.line, second.column), (CodeToken::Input, 3, 4));
    code.next();
    assert!(code.read().is_none());
}

#[test]
fn read_is_none_at_and_past_the_end() {
    let mut code = CodeMemory::from_str("text only");
    assert!(code.read().is_none());
    code.move_to(10);
    assert!(code.read().is_none());
    assert_eq!(code.position(), 10);
    let mut code = CodeMemory::from_str("+");
    assert!(code.read().is_some());
    code.move_to(1);
    assert!(code.read().is_none());
}

#[test]
fn read_does_not_move_the_cursor() {
    let code = CodeMemory::from_str("-+");
    assert_eq!(code.read().unwrap().token, CodeToken::Decrement);
    assert_eq!(code.read().unwrap().token, CodeToken::Decrement);
    assert_eq!(code.position(), 0);
}

#[test]
fn move_to_jumps_back_and_forth() {
    let mut code = CodeMemory::from_str("+-><");
    code.move_to(3);
    assert_eq!(code.read().unwrap().token, CodeToken::Previous);
    code.move_to(1);
    assert_eq!(code.read().unwrap().token, CodeToken::Decrement);
    code.next();
    assert_eq!(code.position(), 2);
}

#[test]
fn skip_loop_stops_on_the_close_of_a_flat_loop() {
    let mut code = CodeMemory::from_str("[-]+");
    code.skip_loop();
    assert_eq!(code.position(), 2);
    assert_eq!(code.read().unwrap().token, CodeToken::EndLoop);
}

#[test]
fn skip_loop_passes_nested_loops() {
    let mut code = CodeMemory::from_str("[+[-[>]<]+[.]]-");
    code.skip_loop();
    assert_eq!(code.position(), 13);
    code.move_to(2);
    code.skip_loop();
    assert_eq!(code.position(), 8);
    code.move_to(4);
    code.skip_loop();
    assert_eq!(code.position(), 6);
    code.move_to(10);
    code.skip_loop();
    assert_eq!(code.position(), 12);
}

#[test]
fn skip_loop_of_an_empty_loop() {
    let mut code = CodeMemory::from_str("[]");
    code.skip_loop();
    assert_eq!(code.position(), 1);
}

#[test]
fn skip_loop_stops_at_the_end_without_a_close() {
    let mut code = CodeMemory::from_str("[+[-]");
    code.skip_loop();
    assert_eq!(code.position(), 5);
    assert!(code.read().is_none());
    let mut code = CodeMemory::from_str("[");
    code.skip_loop();
    assert_eq!(code.position(), 1);
}

#[test]
fn skip_loop_past_the_end_stays() {
    let mut code = CodeMemory::from_str("[]");
    code.move_to(2);
    code.skip_loop();
    assert_eq!(code.position(), 2);
    code.move_to(9);
    code.skip_loop();
    assert_eq!(code.position(), 9);
}

#[test]
fn skip_loop_scans_from_any_token() {
    let mut code = CodeMemory::from_str("+-]");
    code.skip_loop();
    assert_eq!(code.position(), 2);
}

#[test]
fn clone_keeps_tokens_and_cursor() {
    let mut code = CodeMemory::from_str("+-.");
    code.next();
    let mut copy = code.clone();
    assert_eq!(copy.position(), 1);
    assert_eq!(stream(&mut copy), vec![CodeToken::Decrement, CodeToken::Output]);
    assert_eq!(code.position(), 1);
}
