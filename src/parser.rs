//! Turns tokens into assembler statements.
use vstd::prelude::*;
use crate::bytecode::{Opcode, mnemonic_opcode};
use crate::tokenizer::{Token, TokenView, tokens_view};

verus! {

/// One statement of assembly.
#[derive(Debug, PartialEq, Eq)]
pub enum Stmt {
    /// `|HHHH`: move the emission cursor to an absolute address.
    OriginAbsolute(u32),
    /// `$NN`: advance the emission cursor, leaving zeros.
    OriginRelative(u32),
    /// `#HHHHHHHH`: LITW and a literal word.
    LiteralWord(u32),
    /// `@name`: define a label at the cursor.
    LabelAbsolute(Vec<u8>),
    /// `;name`: LITW and the label's address.
    ReferenceAbsolute(Vec<u8>),
    /// A mnemonic.
    Operation(Opcode),
    /// `"text"`: the bytes of the text.
    String(Vec<u8>),
    /// `.HH`: one byte.
    RawByte(u8),
    /// `=HHHHHHHH`: one word.
    RawWord(u32),
    /// `:name`: the label's address as a raw word.
    RawReferenceAbsolute(Vec<u8>),
}

pub enum StmtView {
    OriginAbsolute(u32),
    OriginRelative(u32),
    LiteralWord(u32),
    LabelAbsolute(Seq<u8>),
    ReferenceAbsolute(Seq<u8>),
    Operation(Opcode),
    Text(Seq<u8>),
    RawByte(u8),
    RawWord(u32),
    RawReferenceAbsolute(Seq<u8>),
}

impl View for Stmt {
    type V = StmtView;

    open spec fn view(&self) -> StmtView {
        match self {
            Stmt::OriginAbsolute(v) => StmtView::OriginAbsolute(*v),
            Stmt::OriginRelative(v) => StmtView::OriginRelative(*v),
            Stmt::LiteralWord(v) => StmtView::LiteralWord(*v),
            Stmt::LabelAbsolute(n) => StmtView::LabelAbsolute(n@),
            Stmt::ReferenceAbsolute(n) => StmtView::ReferenceAbsolute(n@),
            Stmt::Operation(op) => StmtView::Operation(*op),
            Stmt::String(t) => StmtView::Text(t@),
            Stmt::RawByte(b) => StmtView::RawByte(*b),
            Stmt::RawWord(v) => StmtView::RawWord(*v),
            Stmt::RawReferenceAbsolute(n) => StmtView::RawReferenceAbsolute(n@),
        }
    }
}

pub open spec fn stmts_view(s: Seq<Stmt>) -> Seq<StmtView> {
    s.map_values(|x: Stmt| x@)
}

/// Why a source could not be assembled.
#[derive(Debug, PartialEq, Eq)]
pub enum AsmError {
    /// A sigil (the byte) with no word after it.
    MissingOperand(u8),
    /// A word that is not a hexadecimal number that fits 32 bits.
    InvalidNumber(Vec<u8>),
    UnknownMnemonic(Vec<u8>),
    UnterminatedString,
    /// `&`, which has no meaning.
    UnsupportedSigil,
    /// A character (its UTF-8 bytes) that starts no token.
    UnexpectedChar(Vec<u8>),
    UndefinedLabel(Vec<u8>),
    /// Code placed below the reset vector or into the stack reservations.
    AddressOutOfRange,
}

pub enum AsmErrorView {
    MissingOperand(u8),
    InvalidNumber(Seq<u8>),
    UnknownMnemonic(Seq<u8>),
    UnterminatedString,
    UnsupportedSigil,
    UnexpectedChar(Seq<u8>),
    UndefinedLabel(Seq<u8>),
    AddressOutOfRange,
}

impl View for AsmError {
    type V = AsmErrorView;

    open spec fn view(&self) -> AsmErrorView {
        match self {
            AsmError::MissingOperand(c) => AsmErrorView::MissingOperand(*c),
            AsmError::InvalidNumber(w) => AsmErrorView::InvalidNumber(w@),
            AsmError::UnknownMnemonic(w) => AsmErrorView::UnknownMnemonic(w@),
            AsmError::UnterminatedString => AsmErrorView::UnterminatedString,
            AsmError::UnsupportedSigil => AsmErrorView::UnsupportedSigil,
            AsmError::UnexpectedChar(c) => AsmErrorView::UnexpectedChar(c@),
            AsmError::UndefinedLabel(w) => AsmErrorView::UndefinedLabel(w@),
            AsmError::AddressOutOfRange => AsmErrorView::AddressOutOfRange,
        }
    }
}

/// The value of hexadecimal digit `c`, if it is one.
pub open spec fn hex_digit(c: u8) -> Option<u8> {
    if 0x30 <= c <= 0x39 { Some((c - 0x30) as u8) }
    else if 0x41 <= c <= 0x46 { Some((c - 0x41 + 10) as u8) }
    else if 0x61 <= c <= 0x66 { Some((c - 0x61 + 10) as u8) }
    else { None }
}

/// The value of the hexadecimal digits `s`.
pub open spec fn hex_value(s: Seq<u8>) -> int
    decreases s.len(),
{
    if s.len() == 0 { 0 } else { hex_value(s.drop_last()) * 16 + hex_digit(s.last())->0 }
}

/// The number that the word `s` spells in hexadecimal, if it is one that fits 32 bits.
pub open spec fn parse_hex(s: Seq<u8>) -> Option<u32> {
    if s.len() > 0 && (forall|i: int| 0 <= i < s.len() ==> #[trigger] hex_digit(s[i]) is Some)
        && hex_value(s) <= u32::MAX {
        Some(hex_value(s) as u32)
    } else {
        None
    }
}

/// Prepends `st` to the statements of a successful parse.
pub open spec fn then(st: StmtView, rest: Result<Seq<StmtView>, AsmErrorView>) -> Result<Seq<StmtView>, AsmErrorView> {
    match rest {
        Ok(r) => Ok(seq![st] + r),
        Err(e) => Err(e),
    }
}

/// The statement that a sigil followed by the word `w` makes.
pub open spec fn sigil_stmt(sig: TokenView, w: Seq<u8>) -> Result<StmtView, AsmErrorView> {
    match sig {
        TokenView::At => Ok(StmtView::LabelAbsolute(w)),
        TokenView::Semicolon => Ok(StmtView::ReferenceAbsolute(w)),
        TokenView::Colon => Ok(StmtView::RawReferenceAbsolute(w)),
        _ => match parse_hex(w) {
            None => Err(AsmErrorView::InvalidNumber(w)),
            Some(n) => Ok(match sig {
                TokenView::Pound => StmtView::LiteralWord(n),
                TokenView::Pipe => StmtView::OriginAbsolute(n),
                TokenView::Period => StmtView::RawByte((n % 0x100) as u8),
                TokenView::Equal => StmtView::RawWord(n),
                _ => StmtView::OriginRelative(n),
            }),
        },
    }
}

/// The source byte of a sigil token.
pub open spec fn sigil_byte(t: TokenView) -> u8 {
    match t {
        TokenView::At => 0x40,
        TokenView::Semicolon => 0x3B,
        TokenView::Colon => 0x3A,
        TokenView::Pound => 0x23,
        TokenView::Pipe => 0x7C,
        TokenView::Period => 0x2E,
        TokenView::Equal => 0x3D,
        TokenView::Dollar => 0x24,
        TokenView::Ampersand => 0x26,
        _ => 0,
    }
}

fn sigil_byte_exec(t: &Token) -> (r: u8)
    ensures
        r == sigil_byte(t@),
{
    match t {
        Token::At => 0x40,
        Token::Semicolon => 0x3B,
        Token::Colon => 0x3A,
        Token::Pound => 0x23,
        Token::Pipe => 0x7C,
        Token::Period => 0x2E,
        Token::Equal => 0x3D,
        Token::Dollar => 0x24,
        Token::Ampersand => 0x26,
        _ => 0,
    }
}

/// Whether `t` is a sigil that takes a word.
pub open spec fn takes_operand(t: TokenView) -> bool {
    t is At || t is Semicolon || t is Colon || t is Pound || t is Pipe || t is Period || t is Equal || t is Dollar
}

/// The statements of the tokens `t` from index `i` on, or the first error.
pub open spec fn parse_from(t: Seq<TokenView>, i: int) -> Result<Seq<StmtView>, AsmErrorView>
    decreases t.len() - i,
{
    if i < 0 || i >= t.len() {
        Ok(Seq::empty())
    } else if takes_operand(t[i]) {
        if i + 1 < t.len() && t[i + 1] is Word {
            match sigil_stmt(t[i], t[i + 1]->Word_0) {
                Ok(st) => then(st, parse_from(t, i + 2)),
                Err(e) => Err(e),
            }
        } else {
            Err(AsmErrorView::MissingOperand(sigil_byte(t[i])))
        }
    } else {
        match t[i] {
            TokenView::Word(w) => match mnemonic_opcode(w) {
                Some(op) => then(StmtView::Operation(op), parse_from(t, i + 1)),
                None => Err(AsmErrorView::UnknownMnemonic(w)),
            },
            TokenView::Text(x) => then(StmtView::Text(x), parse_from(t, i + 1)),
            TokenView::UnterminatedString => Err(AsmErrorView::UnterminatedString),
            TokenView::Unknown(c) => Err(AsmErrorView::UnexpectedChar(c)),
            _ => Err(AsmErrorView::UnsupportedSigil),
        }
    }
}

proof fn lemma_hex_value_grows(s: Seq<u8>, k: int)
    requires
        0 <= k <= s.len(),
        forall|i: int| 0 <= i < s.len() ==> #[trigger] hex_digit(s[i]) is Some,
    ensures
        0 <= hex_value(s.subrange(0, k)) <= hex_value(s),
    decreases s.len() - k,
{
    if k < s.len() {
        lemma_hex_value_grows(s, k + 1);
        assert(s.subrange(0, k + 1).drop_last() =~= s.subrange(0, k));
    } else {
        assert(s.subrange(0, k) =~= s);
    }
    lemma_hex_value_nonneg(s.subrange(0, k));
}

proof fn lemma_hex_value_nonneg(s: Seq<u8>)
    ensures
        0 <= hex_value(s),
    decreases s.len(),
{
    if s.len() > 0 {
        lemma_hex_value_nonneg(s.drop_last());
    }
}

/// The number that the word `w` spells in hexadecimal.
pub fn parse_number(w: &Vec<u8>) -> (r: Result<u32, AsmError>)
    ensures
        parse_hex(w@) matches Some(n) ==> r == Ok::<u32, AsmError>(n),
        parse_hex(w@) is None ==> (r matches Err(e) && e@ == AsmErrorView::InvalidNumber(w@)),
{
    if w.len() == 0 {
        return Err(AsmError::InvalidNumber(w.clone()));
    }
    let mut acc: u64 = 0;
    let mut i: usize = 0;
    while i < w.len()
        invariant
            i <= w@.len(),
            w@.len() > 0,
            forall|k: int| 0 <= k < i ==> #[trigger] hex_digit(w@[k]) is Some,
            acc == hex_value(w@.subrange(0, i as int)),
            acc <= u32::MAX,
        decreases w@.len() - i,
    {
        let c = w[i];
        let d: u64 = if 0x30 <= c && c <= 0x39 {
            (c - 0x30) as u64
        } else if 0x41 <= c && c <= 0x46 {
            (c - 0x41 + 10) as u64
        } else if 0x61 <= c && c <= 0x66 {
            (c - 0x61 + 10) as u64
        } else {
            return Err(AsmError::InvalidNumber(w.clone()));
        };
        assert(w@.subrange(0, i + 1).drop_last() =~= w@.subrange(0, i as int));
        acc = acc * 16 + d;
        i += 1;
        if acc > 0xFFFF_FFFF {
            proof {
                if forall|k: int| 0 <= k < w@.len() ==> #[trigger] hex_digit(w@[k]) is Some {
                    lemma_hex_value_grows(w@, i as int);
                }
            }
            return Err(AsmError::InvalidNumber(w.clone()));
        }
    }
    assert(w@.subrange(0, i as int) =~= w@);
    Ok(acc as u32)
}

/// The statement that `sig` followed by the word `w` makes.
fn sigil_stmt_exec(sig: &Token, w: &Vec<u8>) -> (r: Result<Stmt, AsmError>)
    requires
        takes_operand(sig@),
    ensures
        sigil_stmt(sig@, w@) matches Ok(st) ==> (r matches Ok(s) && s@ == st),
        sigil_stmt(sig@, w@) matches Err(e) ==> (r matches Err(x) && x@ == e),
{
    match sig {
        Token::At => Ok(Stmt::LabelAbsolute(w.clone())),
        Token::Semicolon => Ok(Stmt::ReferenceAbsolute(w.clone())),
        Token::Colon => Ok(Stmt::RawReferenceAbsolute(w.clone())),
        _ => {
            let n = match parse_number(w) {
                Ok(n) => n,
                Err(e) => return Err(e),
            };
            Ok(match sig {
                Token::Pound => Stmt::LiteralWord(n),
                Token::Pipe => Stmt::OriginAbsolute(n),
                Token::Period => Stmt::RawByte((n % 0x100) as u8),
                Token::Equal => Stmt::RawWord(n),
                _ => Stmt::OriginRelative(n),
            })
        },
    }
}

/// The statements of `tokens`, or the first error in them.
pub fn parse(tokens: &[Token]) -> (r: Result<Vec<Stmt>, AsmError>)
    ensures
        parse_from(tokens_view(tokens@), 0) matches Ok(st) ==> (r matches Ok(v) && stmts_view(v@) == st),
        parse_from(tokens_view(tokens@), 0) matches Err(e) ==> (r matches Err(x) && x@ == e),
{
    let ghost t = tokens_view(tokens@);
    let mut out: Vec<Stmt> = Vec::new();
    let mut i: usize = 0;
    while i < tokens.len()
        invariant
            t == tokens_view(tokens@),
            i <= tokens@.len(),
            parse_from(t, 0) == (match parse_from(t, i as int) {
                Ok(rest) => Ok(stmts_view(out@) + rest),
                Err(e) => Err(e),
            }),
        decreases tokens@.len() - i,
    {
        let tok = &tokens[i];
        assert(t[i as int] == tok@);
        let ghost before = out@;
        let ghost i0 = i as int;
        let is_sigil = match tok {
            Token::At | Token::Semicolon | Token::Colon | Token::Pound | Token::Pipe | Token::Period
            | Token::Equal | Token::Dollar => true,
            _ => false,
        };
        if is_sigil {
            if i + 1 >= tokens.len() {
                return Err(AsmError::MissingOperand(sigil_byte_exec(tok)));
            }
            let w = match &tokens[i + 1] {
                Token::IdentifierOrNumber(w) => w,
                _ => {
                    assert(!(t[i + 1] is Word));
                    return Err(AsmError::MissingOperand(sigil_byte_exec(tok)));
                },
            };
            assert(t[i + 1] == TokenView::Word(w@));
            match sigil_stmt_exec(tok, w) {
                Ok(st) => out.push(st),
                Err(e) => return Err(e),
            }
            i += 2;
        } else {
            match tok {
                Token::IdentifierOrNumber(w) => {
                    match Opcode::from_mnemonic(w.as_slice()) {
                        Ok(op) => out.push(Stmt::Operation(op)),
                        Err(()) => return Err(AsmError::UnknownMnemonic(w.clone())),
                    }
                },
                Token::String(x) => out.push(Stmt::String(x.clone())),
                Token::UnterminatedString => return Err(AsmError::UnterminatedString),
                Token::Unknown(c) => return Err(AsmError::UnexpectedChar(c.clone())),
                _ => return Err(AsmError::UnsupportedSigil),
            }
            i += 1;
        }
        assert(stmts_view(out@) =~= stmts_view(before).push(out@.last()@));
        assert(stmts_view(out@) =~= stmts_view(before) + seq![out@.last()@]);
        proof {
            let st = out@.last()@;
            assert(parse_from(t, i0) == then(st, parse_from(t, i as int)));
            if let Ok(r2) = parse_from(t, i as int) {
                assert(stmts_view(before) + (seq![st] + r2) =~= stmts_view(out@) + r2);
            }
        }
    }
    assert(stmts_view(out@) + Seq::<StmtView>::empty() =~= stmts_view(out@));
    Ok(out)
}

} // verus!
