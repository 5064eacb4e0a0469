//! Splits assembly source into tokens. The grammar is ASCII: sigils, words of
//! ASCII letters and digits, quoted strings, and nestable `( ... )` comments.
use vstd::prelude::*;
use vstd::string::StringSliceAdditionalSpecFns;

verus! {

/// One token of assembly source.
#[derive(Debug, PartialEq, Eq)]
pub enum Token {
    At,
    Semicolon,
    Pound,
    Pipe,
    Ampersand,
    Period,
    Dollar,
    Equal,
    Colon,
    /// A word: starts with an ASCII letter or digit; may go on with `_`, `-`, `/`.
    IdentifierOrNumber(Vec<u8>),
    /// The bytes between two double quotes.
    String(Vec<u8>),
    /// A double quote with no closing one.
    UnterminatedString,
    /// A character that starts no token: its UTF-8 bytes.
    Unknown(Vec<u8>),
}

pub enum TokenView {
    At,
    Semicolon,
    Pound,
    Pipe,
    Ampersand,
    Period,
    Dollar,
    Equal,
    Colon,
    Word(Seq<u8>),
    Text(Seq<u8>),
    UnterminatedString,
    Unknown(Seq<u8>),
}

impl View for Token {
    type V = TokenView;

    open spec fn view(&self) -> TokenView {
        match self {
            Token::At => TokenView::At,
            Token::Semicolon => TokenView::Semicolon,
            Token::Pound => TokenView::Pound,
            Token::Pipe => TokenView::Pipe,
            Token::Ampersand => TokenView::Ampersand,
            Token::Period => TokenView::Period,
            Token::Dollar => TokenView::Dollar,
            Token::Equal => TokenView::Equal,
            Token::Colon => TokenView::Colon,
            Token::IdentifierOrNumber(w) => TokenView::Word(w@),
            Token::String(t) => TokenView::Text(t@),
            Token::UnterminatedString => TokenView::UnterminatedString,
            Token::Unknown(c) => TokenView::Unknown(c@),
        }
    }
}

/// The views of a list of tokens.
pub open spec fn tokens_view(t: Seq<Token>) -> Seq<TokenView> {
    t.map_values(|x: Token| x@)
}

/// The token that a one-byte sigil stands for.
pub open spec fn sigil(c: u8) -> Option<TokenView> {
    if c == 0x7C { Some(TokenView::Pipe) }            // |
    else if c == 0x40 { Some(TokenView::At) }         // @
    else if c == 0x26 { Some(TokenView::Ampersand) }  // &
    else if c == 0x3B { Some(TokenView::Semicolon) }  // ;
    else if c == 0x23 { Some(TokenView::Pound) }      // #
    else if c == 0x24 { Some(TokenView::Dollar) }     // $
    else if c == 0x3D { Some(TokenView::Equal) }      // =
    else if c == 0x3A { Some(TokenView::Colon) }      // :
    else if c == 0x2E { Some(TokenView::Period) }     // .
    else { None }
}

/// Space, newline, carriage return or tab.
pub open spec fn is_space(c: u8) -> bool {
    c == 0x20 || c == 0x0A || c == 0x0D || c == 0x09
}

pub open spec fn is_alnum(c: u8) -> bool {
    (0x30 <= c <= 0x39) || (0x41 <= c <= 0x5A) || (0x61 <= c <= 0x7A)
}

/// A byte that may continue a word: a letter, a digit, `_`, `-` or `/`.
pub open spec fn is_word_byte(c: u8) -> bool {
    is_alnum(c) || c == 0x5F || c == 0x2D || c == 0x2F
}

pub const QUOTE: u8 = 0x22;
pub const OPEN_PAREN: u8 = 0x28;
pub const CLOSE_PAREN: u8 = 0x29;

/// The end of the word that continues at `i`.
pub open spec fn word_end(s: Seq<u8>, i: int) -> int
    decreases s.len() - i,
{
    if 0 <= i < s.len() && is_word_byte(s[i]) { word_end(s, i + 1) } else { i }
}

/// A UTF-8 continuation byte (`10xxxxxx`).
pub open spec fn is_continuation(c: u8) -> bool {
    0x80 <= c < 0xC0
}

/// The end of the run of continuation bytes at `i`: the end of the
/// character that started just before it.
pub open spec fn continuation_end(s: Seq<u8>, i: int) -> int
    decreases s.len() - i,
{
    if 0 <= i < s.len() && is_continuation(s[i]) { continuation_end(s, i + 1) } else { i }
}

proof fn lemma_continuation_end(s: Seq<u8>, i: int)
    requires
        0 <= i <= s.len(),
    ensures
        i <= continuation_end(s, i) <= s.len(),
    decreases s.len() - i,
{
    if i < s.len() && is_continuation(s[i]) {
        lemma_continuation_end(s, i + 1);
    }
}

/// The end of the run of continuation bytes at `i`.
fn scan_continuation(s: &[u8], i: usize) -> (r: usize)
    requires
        i <= s@.len(),
    ensures
        r == continuation_end(s@, i as int),
{
    let mut j = i;
    while j < s.len() && 0x80 <= s[j] && s[j] < 0xC0
        invariant
            i <= j <= s@.len(),
            continuation_end(s@, j as int) == continuation_end(s@, i as int),
        decreases s@.len() - j,
    {
        j += 1;
    }
    j
}

/// The first double quote at or after `i`, or the end of `s`.
pub open spec fn quote_end(s: Seq<u8>, i: int) -> int
    decreases s.len() - i,
{
    if 0 <= i < s.len() && s[i] != QUOTE { quote_end(s, i + 1) } else { i }
}

/// Where a comment that is `level` parentheses deep at `i` ends: just past its
/// closing parenthesis, or the end of `s`.
pub open spec fn comment_end(s: Seq<u8>, i: int, level: nat) -> int
    decreases s.len() - i,
{
    if i < 0 || i >= s.len() {
        s.len() as int
    } else if s[i] == OPEN_PAREN {
        comment_end(s, i + 1, level + 1)
    } else if s[i] == CLOSE_PAREN {
        if level <= 1 { i + 1 } else { comment_end(s, i + 1, (level - 1) as nat) }
    } else {
        comment_end(s, i + 1, level)
    }
}

/// The tokens of `s` from position `i` on.
pub open spec fn lex_from(s: Seq<u8>, i: int) -> Seq<TokenView>
    decreases s.len() - i,
{
    if i < 0 || i >= s.len() {
        Seq::empty()
    } else {
        let c = s[i];
        if sigil(c) is Some {
            seq![sigil(c)->0] + lex_from(s, i + 1)
        } else if is_space(c) {
            lex_from(s, i + 1)
        } else if c == OPEN_PAREN {
            let j = comment_end(s, i + 1, 1);
            if i < j <= s.len() { lex_from(s, j) } else { Seq::empty() }
        } else if c == QUOTE {
            let j = quote_end(s, i + 1);
            if j >= s.len() {
                seq![TokenView::UnterminatedString]
            } else if i < j {
                seq![TokenView::Text(s.subrange(i + 1, j))] + lex_from(s, j + 1)
            } else {
                Seq::empty()
            }
        } else if is_alnum(c) {
            let j = word_end(s, i + 1);
            if i < j <= s.len() { seq![TokenView::Word(s.subrange(i, j))] + lex_from(s, j) } else { Seq::empty() }
        } else {
            let j = continuation_end(s, i + 1);
            if i < j <= s.len() { seq![TokenView::Unknown(s.subrange(i, j))] + lex_from(s, j) } else { Seq::empty() }
        }
    }
}

proof fn lemma_word_end(s: Seq<u8>, i: int)
    requires
        0 <= i <= s.len(),
    ensures
        i <= word_end(s, i) <= s.len(),
        forall|k: int| i <= k < word_end(s, i) ==> is_word_byte(#[trigger] s[k]),
    decreases s.len() - i,
{
    if i < s.len() && is_word_byte(s[i]) {
        lemma_word_end(s, i + 1);
    }
}

proof fn lemma_quote_end(s: Seq<u8>, i: int)
    requires
        0 <= i <= s.len(),
    ensures
        i <= quote_end(s, i) <= s.len(),
    decreases s.len() - i,
{
    if i < s.len() && s[i] != QUOTE {
        lemma_quote_end(s, i + 1);
    }
}

proof fn lemma_comment_end(s: Seq<u8>, i: int, level: nat)
    requires
        0 <= i <= s.len(),
    ensures
        i <= comment_end(s, i, level) <= s.len(),
    decreases s.len() - i,
{
    if i < s.len() {
        if s[i] == OPEN_PAREN {
            lemma_comment_end(s, i + 1, level + 1);
        } else if s[i] == CLOSE_PAREN {
            if level > 1 {
                lemma_comment_end(s, i + 1, (level - 1) as nat);
            }
        } else {
            lemma_comment_end(s, i + 1, level);
        }
    }
}

fn sigil_exec(c: u8) -> (r: Option<Token>)
    ensures
        r is Some <==> sigil(c) is Some,
        r matches Some(t) ==> t@ == sigil(c)->0,
{
    if c == 0x7C { Some(Token::Pipe) }
    else if c == 0x40 { Some(Token::At) }
    else if c == 0x26 { Some(Token::Ampersand) }
    else if c == 0x3B { Some(Token::Semicolon) }
    else if c == 0x23 { Some(Token::Pound) }
    else if c == 0x24 { Some(Token::Dollar) }
    else if c == 0x3D { Some(Token::Equal) }
    else if c == 0x3A { Some(Token::Colon) }
    else if c == 0x2E { Some(Token::Period) }
    else { None }
}

fn is_alnum_exec(c: u8) -> (r: bool)
    ensures
        r == is_alnum(c),
{
    (0x30 <= c && c <= 0x39) || (0x41 <= c && c <= 0x5A) || (0x61 <= c && c <= 0x7A)
}

/// The end of the word that continues at `i`.
fn scan_word(s: &[u8], i: usize) -> (r: usize)
    requires
        i <= s@.len(),
    ensures
        r == word_end(s@, i as int),
{
    let mut j = i;
    while j < s.len() && (is_alnum_exec(s[j]) || s[j] == 0x5F || s[j] == 0x2D || s[j] == 0x2F)
        invariant
            i <= j <= s@.len(),
            word_end(s@, j as int) == word_end(s@, i as int),
        decreases s@.len() - j,
    {
        j += 1;
    }
    j
}

/// The first double quote at or after `i`, or the end.
fn scan_quote(s: &[u8], i: usize) -> (r: usize)
    requires
        i <= s@.len(),
    ensures
        r == quote_end(s@, i as int),
{
    let mut j = i;
    while j < s.len() && s[j] != QUOTE
        invariant
            i <= j <= s@.len(),
            quote_end(s@, j as int) == quote_end(s@, i as int),
        decreases s@.len() - j,
    {
        j += 1;
    }
    j
}

/// Just past the parenthesis that closes a comment opened before `i`.
fn scan_comment(s: &[u8], i: usize) -> (r: usize)
    requires
        1 <= i <= s@.len(),
    ensures
        r == comment_end(s@, i as int, 1),
{
    let mut j = i;
    let mut level: usize = 1;
    while j < s.len()
        invariant
            1 <= i <= j <= s@.len(),
            1 <= level <= j - i + 1,
            comment_end(s@, j as int, level as nat) == comment_end(s@, i as int, 1),
        decreases s@.len() - j,
    {
        if s[j] == OPEN_PAREN {
            level += 1;
        } else if s[j] == CLOSE_PAREN {
            if level == 1 {
                return j + 1;
            }
            level -= 1;
        }
        j += 1;
    }
    j
}

/// The bytes `s[from..to]`.
fn copy_range(s: &[u8], from: usize, to: usize) -> (r: Vec<u8>)
    requires
        from <= to <= s@.len(),
    ensures
        r@ == s@.subrange(from as int, to as int),
{
    let mut r: Vec<u8> = Vec::new();
    let mut k = from;
    while k < to
        invariant
            from <= k <= to <= s@.len(),
            r@ == s@.subrange(from as int, k as int),
        decreases to - k,
    {
        r.push(s[k]);
        k += 1;
        assert(r@ =~= s@.subrange(from as int, k as int));
    }
    r
}

/// The tokens of the source bytes `s`.
pub fn tokenize_bytes(s: &[u8]) -> (r: Vec<Token>)
    ensures
        tokens_view(r@) == lex_from(s@, 0),
{
    let mut out: Vec<Token> = Vec::new();
    let mut i: usize = 0;
    while i < s.len()
        invariant
            i <= s@.len(),
            tokens_view(out@) + lex_from(s@, i as int) == lex_from(s@, 0),
        decreases s@.len() - i,
    {
        let ghost before = out@;
        let c = s[i];
        if let Some(t) = sigil_exec(c) {
            out.push(t);
            i += 1;
        } else if c == 0x20 || c == 0x0A || c == 0x0D || c == 0x09 {
            i += 1;
        } else if c == OPEN_PAREN {
            proof { lemma_comment_end(s@, i as int + 1, 1); }
            i = scan_comment(s, i + 1);
        } else if c == QUOTE {
            proof { lemma_quote_end(s@, i as int + 1); }
            let j = scan_quote(s, i + 1);
            if j >= s.len() {
                out.push(Token::UnterminatedString);
                proof {
                    assert(tokens_view(out@) =~= tokens_view(before).push(TokenView::UnterminatedString));
                    assert(lex_from(s@, s@.len() as int) == Seq::<TokenView>::empty());
                    assert(tokens_view(out@) + lex_from(s@, s@.len() as int) =~= tokens_view(before) + lex_from(s@, i as int));
                }
                i = s.len();
                continue;
            }
            out.push(Token::String(copy_range(s, i + 1, j)));
            i = j + 1;
        } else if is_alnum_exec(c) {
            proof { lemma_word_end(s@, i as int + 1); }
            let j = scan_word(s, i + 1);
            out.push(Token::IdentifierOrNumber(copy_range(s, i, j)));
            i = j;
        } else {
            proof { lemma_continuation_end(s@, i as int + 1); }
            let j = scan_continuation(s, i + 1);
            out.push(Token::Unknown(copy_range(s, i, j)));
            i = j;
        }
        assert(tokens_view(out@) + lex_from(s@, i as int) =~= lex_from(s@, 0));
    }
    proof {
        assert(lex_from(s@, i as int) == Seq::<TokenView>::empty());
        assert(tokens_view(out@) =~= tokens_view(out@) + lex_from(s@, i as int));
    }
    out
}

/// The tokens of the assembly source `buf`.
pub fn tokenize(buf: &str) -> (r: Vec<Token>)
    ensures
        tokens_view(r@) == lex_from(buf.spec_bytes(), 0),
{
    tokenize_bytes(buf.as_bytes())
}

} // verus!
