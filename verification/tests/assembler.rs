use hlvm::assembler::Token;
use hlvm::assembler::parse_register;
use hlvm::instruction::Opcode;

#[test]
fn test_parse_register_simple() {
    assert_eq!(parse_register(b"$0"), Some(Token::Register { reg_num: 0 }));
    assert_eq!(parse_register(b"$10"), Some(Token::Register { reg_num: 10 }));
    assert_eq!(parse_register(b"$255"), Some(Token::Register { reg_num: 255 }));
}

#[test]
fn test_parse_register_surrounding_whitespace() {
    assert_eq!(parse_register(b" $18 "), Some(Token::Register { reg_num: 18 }));
    assert_eq!(parse_register(b"\t$3\r\n"), Some(Token::Register { reg_num: 3 }));
}

#[test]
fn test_parse_register_leading_zeroes() {
    assert_eq!(parse_register(b"$007"), Some(Token::Register { reg_num: 7 }));
    assert_eq!(parse_register(b"$000"), Some(Token::Register { reg_num: 0 }));
}

#[test]
fn test_parse_register_rejects_overflow() {
    assert_eq!(parse_register(b"$256"), None);
    assert_eq!(parse_register(b"$999999999999999999999"), None);
}

#[test]
fn test_parse_register_rejects_malformed() {
    assert_eq!(parse_register(b""), None);
    assert_eq!(parse_register(b"   "), None);
    assert_eq!(parse_register(b"$"), None);
    assert_eq!(parse_register(b"7"), None);
    assert_eq!(parse_register(b"$a"), None);
    assert_eq!(parse_register(b"$12a"), None);
    assert_eq!(parse_register(b"$ 12"), None);
}

#[test]
fn test_token_holds_opcode() {
    let token = Token::Op { code: Opcode::Load };
    assert_eq!(token, Token::Op { code: Opcode::Load });
    assert_ne!(token, Token::Register { reg_num: 0 });
}

#[test]
fn test_opcode_table_from_byte() {
    assert_eq!(Opcode::from(0), Opcode::Load);
    assert_eq!(Opcode::from(4), Opcode::Div);
    assert_eq!(Opcode::from(5), Opcode::Halt);
    assert_eq!(Opcode::from(15), Opcode::Jmpe);
    assert_eq!(Opcode::from(16), Opcode::Illegal);
    assert_eq!(Opcode::from(254), Opcode::Illegal);
}
