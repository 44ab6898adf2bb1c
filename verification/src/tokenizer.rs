//! The tokenizer: turns a raw schema string into an ordered sequence of
//! position-tagged tokens. Tokenizing never fails: unrecognized runs of
//! characters simply become identifier tokens.

use vstd::prelude::*;

use crate::text::push_char;

verus! {

/// A lexical token, tagged with the character offset of its first character
/// in the source string. The offset is used only for error messages.
#[derive(Debug, PartialEq)]
pub enum Token {
    Ident(usize, String),
    /// `:`
    Colon(usize),
    /// `,`
    Comma(usize),
    /// `?`
    Question(usize),
    /// `<`
    Lt(usize),
    /// `>`
    Gt(usize),
    /// `(` — recognized but consumed by no production; reserved for a future
    /// extension of the grammar.
    LParen(usize),
    /// `)` — recognized but consumed by no production, as `(` is.
    RParen(usize),
}

/// Mathematical model of a `Token`.
pub enum TokenView {
    Ident(nat, Seq<char>),
    Colon(nat),
    Comma(nat),
    Question(nat),
    Lt(nat),
    Gt(nat),
    LParen(nat),
    RParen(nat),
}

impl TokenView {
    /// The character offset the token was tagged with.
    pub open spec fn offset(self) -> nat {
        match self {
            TokenView::Ident(i, _) => i,
            TokenView::Colon(i) => i,
            TokenView::Comma(i) => i,
            TokenView::Question(i) => i,
            TokenView::Lt(i) => i,
            TokenView::Gt(i) => i,
            TokenView::LParen(i) => i,
            TokenView::RParen(i) => i,
        }
    }
}

impl DeepView for Token {
    type V = TokenView;

    open spec fn deep_view(&self) -> TokenView {
        match self {
            Token::Ident(i, s) => TokenView::Ident(*i as nat, s@),
            Token::Colon(i) => TokenView::Colon(*i as nat),
            Token::Comma(i) => TokenView::Comma(*i as nat),
            Token::Question(i) => TokenView::Question(*i as nat),
            Token::Lt(i) => TokenView::Lt(*i as nat),
            Token::Gt(i) => TokenView::Gt(*i as nat),
            Token::LParen(i) => TokenView::LParen(*i as nat),
            Token::RParen(i) => TokenView::RParen(*i as nat),
        }
    }
}

impl Token {
    /// The character offset the token was tagged with.
    pub fn get_index(&self) -> (i: usize)
        ensures
            i as nat == self.deep_view().offset(),
    {
        match self {
            Token::Ident(i, _) => *i,
            Token::Colon(i) => *i,
            Token::Comma(i) => *i,
            Token::Question(i) => *i,
            Token::Lt(i) => *i,
            Token::Gt(i) => *i,
            Token::LParen(i) => *i,
            Token::RParen(i) => *i,
        }
    }
}

/// The characters with the Unicode `White_Space` property; any of them ends a
/// pending identifier and is otherwise discarded.
pub open spec fn is_whitespace_char(c: char) -> bool {
    c == '\u{0009}' || c == '\u{000A}' || c == '\u{000B}' || c == '\u{000C}' || c == '\u{000D}'
        || c == '\u{0020}' || c == '\u{0085}' || c == '\u{00A0}' || c == '\u{1680}'
        || c == '\u{2000}' || c == '\u{2001}' || c == '\u{2002}' || c == '\u{2003}'
        || c == '\u{2004}' || c == '\u{2005}' || c == '\u{2006}' || c == '\u{2007}'
        || c == '\u{2008}' || c == '\u{2009}' || c == '\u{200A}' || c == '\u{2028}'
        || c == '\u{2029}' || c == '\u{202F}' || c == '\u{205F}' || c == '\u{3000}'
}

/// Executable test for `is_whitespace_char`.
pub fn is_whitespace(c: char) -> (b: bool)
    ensures
        b == is_whitespace_char(c),
{
    c == '\u{0009}' || c == '\u{000A}' || c == '\u{000B}' || c == '\u{000C}' || c == '\u{000D}'
        || c == '\u{0020}' || c == '\u{0085}' || c == '\u{00A0}' || c == '\u{1680}'
        || c == '\u{2000}' || c == '\u{2001}' || c == '\u{2002}' || c == '\u{2003}'
        || c == '\u{2004}' || c == '\u{2005}' || c == '\u{2006}' || c == '\u{2007}'
        || c == '\u{2008}' || c == '\u{2009}' || c == '\u{200A}' || c == '\u{2028}'
        || c == '\u{2029}' || c == '\u{202F}' || c == '\u{205F}' || c == '\u{3000}'
}

/// The pending identifier buffer, flushed: one identifier token tagged with
/// the offset where the buffer began, or nothing when the buffer is empty.
pub open spec fn flush_view(start: nat, buf: Seq<char>) -> Seq<TokenView> {
    if buf.len() == 0 {
        Seq::empty()
    } else {
        seq![TokenView::Ident(start, buf)]
    }
}

/// The tokens of `s` from position `i` on, given a pending identifier buffer
/// `buf` that began at offset `start`. Each of `: , ? < > ( )` flushes the
/// buffer and becomes a token of its own; whitespace only flushes the buffer;
/// every other character extends the buffer.
pub open spec fn tok_scan(s: Seq<char>, i: nat, start: nat, buf: Seq<char>) -> Seq<TokenView>
    decreases s.len() - i,
{
    if i >= s.len() {
        flush_view(start, buf)
    } else {
        let c = s[i as int];
        if c == ':' {
            flush_view(start, buf) + seq![TokenView::Colon(i)] + tok_scan(s, i + 1, start, Seq::empty())
        } else if c == ',' {
            flush_view(start, buf) + seq![TokenView::Comma(i)] + tok_scan(s, i + 1, start, Seq::empty())
        } else if c == '?' {
            flush_view(start, buf) + seq![TokenView::Question(i)] + tok_scan(s, i + 1, start, Seq::empty())
        } else if c == '<' {
            flush_view(start, buf) + seq![TokenView::Lt(i)] + tok_scan(s, i + 1, start, Seq::empty())
        } else if c == '>' {
            flush_view(start, buf) + seq![TokenView::Gt(i)] + tok_scan(s, i + 1, start, Seq::empty())
        } else if c == '(' {
            flush_view(start, buf) + seq![TokenView::LParen(i)] + tok_scan(s, i + 1, start, Seq::empty())
        } else if c == ')' {
            flush_view(start, buf) + seq![TokenView::RParen(i)] + tok_scan(s, i + 1, start, Seq::empty())
        } else if is_whitespace_char(c) {
            flush_view(start, buf) + tok_scan(s, i + 1, start, Seq::empty())
        } else if buf.len() == 0 {
            tok_scan(s, i + 1, i, seq![c])
        } else {
            tok_scan(s, i + 1, start, buf.push(c))
        }
    }
}

/// The token sequence of a whole schema string.
pub open spec fn spec_tokenize(s: Seq<char>) -> Seq<TokenView> {
    tok_scan(s, 0, 0, Seq::empty())
}

/// Flushes the pending identifier buffer: pushes one identifier token (tagged
/// with the buffer's start offset) when the buffer is non-empty, and leaves
/// the buffer empty.
fn flush_ident(tokens: &mut Vec<Token>, buf: &mut String, start: usize)
    ensures
        final(tokens).deep_view() == old(tokens).deep_view() + flush_view(start as nat, old(buf)@),
        final(buf)@ == Seq::<char>::empty(),
{
    let ghost pre_tokens = tokens.deep_view();
    let ghost pre_buf = buf@;
    if !buf.as_str().is_empty() {
        let text = buf.clone();
        *buf = String::new();
        tokens.push(Token::Ident(start, text));
        proof {
            assert(tokens.deep_view() =~= pre_tokens + flush_view(start as nat, pre_buf));
        }
    } else {
        proof {
            assert(buf@ =~= Seq::<char>::empty());
            assert(tokens.deep_view() =~= pre_tokens + flush_view(start as nat, pre_buf));
        }
    }
}

/// Flushes the pending identifier buffer, then pushes the given token.
fn flush_and_push(tokens: &mut Vec<Token>, buf: &mut String, start: usize, t: Token)
    ensures
        final(tokens).deep_view() == old(tokens).deep_view() + flush_view(start as nat, old(buf)@)
            + seq![t.deep_view()],
        final(buf)@ == Seq::<char>::empty(),
{
    flush_ident(tokens, buf, start);
    let ghost mid = tokens.deep_view();
    let ghost tv = t.deep_view();
    tokens.push(t);
    proof {
        assert(tokens.deep_view() =~= mid + seq![tv]);
    }
}

/// Turns a raw schema string into its token sequence. Never fails: any
/// character sequence is tokenizable.
pub fn tokenize(schema_str: &str) -> (tokens: Vec<Token>)
    ensures
        tokens.deep_view() == spec_tokenize(schema_str@),
{
    let n = schema_str.unicode_len();
    let mut tokens: Vec<Token> = Vec::new();
    let mut buf = String::new();
    let mut buf_start: usize = 0;
    let mut i: usize = 0;

    while i < n
        invariant
            n as nat == schema_str@.len(),
            i <= n,
            tokens.deep_view() + tok_scan(schema_str@, i as nat, buf_start as nat, buf@)
                == spec_tokenize(schema_str@),
        decreases n - i,
    {
        let c = schema_str.get_char(i);
        let ghost pre_tokens = tokens.deep_view();
        let ghost pre_buf = buf@;
        let ghost pre_start = buf_start as nat;
        if c == ':' {
            flush_and_push(&mut tokens, &mut buf, buf_start, Token::Colon(i));
        } else if c == ',' {
            flush_and_push(&mut tokens, &mut buf, buf_start, Token::Comma(i));
        } else if c == '?' {
            flush_and_push(&mut tokens, &mut buf, buf_start, Token::Question(i));
        } else if c == '<' {
            flush_and_push(&mut tokens, &mut buf, buf_start, Token::Lt(i));
        } else if c == '>' {
            flush_and_push(&mut tokens, &mut buf, buf_start, Token::Gt(i));
        } else if c == '(' {
            flush_and_push(&mut tokens, &mut buf, buf_start, Token::LParen(i));
        } else if c == ')' {
            flush_and_push(&mut tokens, &mut buf, buf_start, Token::RParen(i));
        } else if is_whitespace(c) {
            flush_ident(&mut tokens, &mut buf, buf_start);
        } else {
            if buf.as_str().is_empty() {
                buf_start = i;
            }
            push_char(&mut buf, c);
        }
        proof {
            if pre_buf.len() == 0 {
                assert(pre_buf =~= Seq::<char>::empty());
            }
            assert(tokens.deep_view() + tok_scan(schema_str@, (i + 1) as nat, buf_start as nat, buf@)
                =~= pre_tokens + tok_scan(schema_str@, i as nat, pre_start, pre_buf));
        }
        i = i + 1;
    }
    flush_ident(&mut tokens, &mut buf, buf_start);
    proof {
        assert(tokens.deep_view() =~= spec_tokenize(schema_str@));
    }
    tokens
}

} // verus!
