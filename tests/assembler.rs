use fox::assembler::{assemble_source, Assembler};
use fox::bytecode::{Opcode, OP_HALT, OP_LITW};
use fox::parser::{parse, parse_number, AsmError, Stmt};
use fox::tokenizer::{tokenize, Token};

#[test]
fn tokenizes_sigils_words_and_strings() {
    let t = tokenize("|100 @main ( a ( nested ) comment ) #5 \"hi there\" .ff ;x-y/z :l $2 =1 & !");
    assert_eq!(
        t,
        vec![
            Token::Pipe,
            Token::IdentifierOrNumber(b"100".to_vec()),
            Token::At,
            Token::IdentifierOrNumber(b"main".to_vec()),
            Token::Pound,
            Token::IdentifierOrNumber(b"5".to_vec()),
            Token::String(b"hi there".to_vec()),
            Token::Period,
            Token::IdentifierOrNumber(b"ff".to_vec()),
            Token::Semicolon,
            Token::IdentifierOrNumber(b"x-y/z".to_vec()),
            Token::Colon,
            Token::IdentifierOrNumber(b"l".to_vec()),
            Token::Dollar,
            Token::IdentifierOrNumber(b"2".to_vec()),
            Token::Equal,
            Token::IdentifierOrNumber(b"1".to_vec()),
            Token::Ampersand,
            Token::Unknown(b"!".to_vec()),
        ]
    );
    assert_eq!(tokenize("\"open"), vec![Token::UnterminatedString]);
    assert_eq!(tokenize("( never closed HALT"), vec![]);
}

#[test]
fn parses_statements() {
    let ast = parse(&tokenize("|200 $4 #a ;l :l @l add \"ok\" .1ff =DEADBEEF")).unwrap();
    assert_eq!(
        ast,
        vec![
            Stmt::OriginAbsolute(0x200),
            Stmt::OriginRelative(4),
            Stmt::LiteralWord(0xa),
            Stmt::ReferenceAbsolute(b"l".to_vec()),
            Stmt::RawReferenceAbsolute(b"l".to_vec()),
            Stmt::LabelAbsolute(b"l".to_vec()),
            Stmt::Operation(Opcode::Add),
            Stmt::String(b"ok".to_vec()),
            Stmt::RawByte(0xff),
            Stmt::RawWord(0xDEAD_BEEF),
        ]
    );
}

#[test]
fn hex_numbers() {
    assert_eq!(parse_number(&b"FFFFFFFF".to_vec()), Ok(0xFFFF_FFFF));
    assert_eq!(parse_number(&b"000000001".to_vec()), Ok(1));
    assert_eq!(parse_number(&b"aB".to_vec()), Ok(0xAB));
    assert_eq!(parse_number(&b"100000000".to_vec()), Err(AsmError::InvalidNumber(b"100000000".to_vec())));
    assert_eq!(parse_number(&b"12g".to_vec()), Err(AsmError::InvalidNumber(b"12g".to_vec())));
    assert_eq!(parse_number(&b"".to_vec()), Err(AsmError::InvalidNumber(vec![])));
}

#[test]
fn mnemonics_ignore_case() {
    assert_eq!(Opcode::from_str("hAlT"), Ok(Opcode::Halt));
    assert_eq!(Opcode::from_str("RPEEK"), Ok(Opcode::Rpeek));
    assert_eq!(Opcode::from_str("set"), Ok(Opcode::SetLocal));
    assert_eq!(Opcode::from_str("nope"), Err(()));
    assert_eq!(Opcode::from_str("PIC\u{212A}"), Ok(Opcode::Pick));
    assert_eq!(Opcode::from_str("p\u{0130}ck"), Err(()));
    assert_eq!(Opcode::LitW.byte(), 0x10);
    assert_eq!(Opcode::from_byte(0x73), Some(Opcode::SetLocal));
    assert_eq!(Opcode::from_byte(0x2D), None);
    assert_eq!(Opcode::Jnz.mnemonic(), b"jnz".to_vec());
}

#[test]
fn assembly_errors() {
    assert_eq!(assemble_source("|100 FOO"), Err(AsmError::UnknownMnemonic(b"FOO".to_vec())));
    assert_eq!(assemble_source("|100 ;nowhere"), Err(AsmError::UndefinedLabel(b"nowhere".to_vec())));
    assert_eq!(assemble_source("|100 #xyz"), Err(AsmError::InvalidNumber(b"xyz".to_vec())));
    assert_eq!(assemble_source("|100 \"abc"), Err(AsmError::UnterminatedString));
    assert_eq!(assemble_source("|100 #"), Err(AsmError::MissingOperand(b'#')));
    assert_eq!(assemble_source("|100 @ \"x\""), Err(AsmError::MissingOperand(b'@')));
    assert_eq!(assemble_source("& x"), Err(AsmError::UnsupportedSigil));
    assert_eq!(assemble_source("!"), Err(AsmError::UnexpectedChar(b"!".to_vec())));
    assert_eq!(assemble_source("HALT λ HALT"), Err(AsmError::UnexpectedChar("λ".as_bytes().to_vec())));
    assert_eq!(tokenize("€!"), vec![Token::Unknown("€".as_bytes().to_vec()), Token::Unknown(b"!".to_vec())]);
    assert_eq!(assemble_source("|ff HALT"), Err(AsmError::AddressOutOfRange));
    assert_eq!(assemble_source("|FFF400 HALT"), Err(AsmError::AddressOutOfRange));
    assert_eq!(assemble_source("|FFF401"), Err(AsmError::AddressOutOfRange));
}

#[test]
fn emits_raw_data() {
    assert_eq!(assemble_source("\"hi\" .7 =01020304").unwrap(), vec![b'h', b'i', 7, 4, 3, 2, 1]);
    assert_eq!(assemble_source("HALT $3 HALT").unwrap(), vec![OP_HALT, 0, 0, 0, OP_HALT]);
    assert_eq!(assemble_source("|104 HALT").unwrap(), vec![0, 0, 0, 0, OP_HALT]);
    assert_eq!(assemble_source("|104 HALT |100 HALT").unwrap(), vec![OP_HALT, 0, 0, 0, OP_HALT]);
    assert_eq!(assemble_source("").unwrap(), Vec::<u8>::new());
}

#[test]
fn references_resolve_to_label_addresses() {
    let image = assemble_source("|100 ;later :later HALT @later HALT @early").unwrap();
    let later = 0x100u32 + 5 + 4 + 1;
    assert_eq!(image[0], OP_LITW);
    assert_eq!(&image[1..5], &later.to_le_bytes());
    assert_eq!(&image[5..9], &later.to_le_bytes());
    let image = assemble_source("@x |110 @x |100 :x").unwrap();
    assert_eq!(&image[0..4], &0x110u32.to_le_bytes());
}

#[test]
fn assembler_api() {
    let mut a = Assembler::new();
    let ast = parse(&tokenize("#1 HALT")).unwrap();
    assert_eq!(a.assemble(&ast), Ok(()));
    assert_eq!(a.data(), &[OP_LITW, 1, 0, 0, 0, OP_HALT]);
    assert_eq!(a.into_image().len(), 6);
}
