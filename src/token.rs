use vstd::prelude::*;
use vstd::string::*;

use crate::position::Position;

verus! {

/// The lexical category of a token.
#[derive(Clone, Copy, Debug, PartialEq, Eq, Structural)]
pub enum Category {
    Keyword,
    Identifier,
    String,
    Comment,
    Method,
    Function,
    Literal,
    Key,
    Text,
    Whitespace,
    Default,
}

/// A lexed span of buffer text. A lexeme may hold line breaks.
#[derive(Clone, Debug)]
pub struct Token {
    pub lexeme: String,
    pub category: Category,
}

impl Token {
    pub fn new(lexeme: String, category: Category) -> (r: Token)
        ensures
            r.lexeme@ == lexeme@,
            r.category == category,
    {
        Token { lexeme, category }
    }
}

/// Where a position goes when one character is passed over.
pub open spec fn step(p: (nat, nat), c: char) -> (nat, nat) {
    if c == '\n' {
        (p.0 + 1, 0)
    } else {
        (p.0, p.1 + 1)
    }
}

/// Where a position goes when the characters `s` are passed over.
pub open spec fn advance(p: (nat, nat), s: Seq<char>) -> (nat, nat)
    decreases s.len(),
{
    if s.len() == 0 {
        p
    } else {
        step(advance(p, s.drop_last()), s.last())
    }
}

/// The position at which token `j` starts, counting from the start of the
/// buffer; for `j` at or below zero, the start of the buffer.
pub open spec fn token_start(tokens: Seq<Token>, j: int) -> (nat, nat)
    decreases j,
{
    if j <= 0 || j > tokens.len() {
        (0, 0)
    } else {
        advance(token_start(tokens, j - 1), tokens[j - 1].lexeme@)
    }
}

/// The number of characters in the first `j` tokens.
pub open spec fn text_len(tokens: Seq<Token>, j: int) -> nat
    decreases j,
{
    if j <= 0 || j > tokens.len() {
        0
    } else {
        text_len(tokens, j - 1) + tokens[j - 1].lexeme@.len()
    }
}

/// Passing over characters moves a position forward, and by no more than
/// one coordinate unit per character.
pub proof fn lemma_advance_bounds(p: (nat, nat), s: Seq<char>)
    ensures
        advance(p, s).0 + advance(p, s).1 <= p.0 + p.1 + s.len(),
        crate::position::at_or_before(p, advance(p, s)),
    decreases s.len(),
{
    if s.len() > 0 {
        lemma_advance_bounds(p, s.drop_last());
    }
}

pub proof fn lemma_text_len_monotonic(tokens: Seq<Token>, i: int, j: int)
    requires
        0 <= i <= j <= tokens.len(),
    ensures
        text_len(tokens, i) <= text_len(tokens, j),
    decreases j - i,
{
    if i < j {
        lemma_text_len_monotonic(tokens, i, j - 1);
    }
}

/// Token starts never go back as the stream is read.
pub proof fn lemma_token_start_monotonic(tokens: Seq<Token>, i: int, j: int)
    requires
        0 <= i <= j <= tokens.len(),
    ensures
        crate::position::at_or_before(token_start(tokens, i), token_start(tokens, j)),
    decreases j - i,
{
    if i < j {
        lemma_token_start_monotonic(tokens, i, j - 1);
        lemma_advance_bounds(token_start(tokens, j - 1), tokens[j - 1].lexeme@);
    }
}

/// Token starts lie within the text read so far.
pub proof fn lemma_token_start_bounded(tokens: Seq<Token>, j: int)
    requires
        0 <= j <= tokens.len(),
    ensures
        token_start(tokens, j).0 + token_start(tokens, j).1 <= text_len(tokens, j),
    decreases j,
{
    if j > 0 {
        lemma_token_start_bounded(tokens, j - 1);
        lemma_advance_bounds(token_start(tokens, j - 1), tokens[j - 1].lexeme@);
    }
}

/// The position reached from `pos` by passing over the characters of
/// `lexeme`: each line break moves to the start of the next line, any other
/// character moves one offset to the right.
pub fn advance_past(pos: Position, lexeme: &String) -> (r: Position)
    requires
        pos.line + pos.offset + lexeme@.len() <= usize::MAX,
    ensures
        r@ == advance(pos@, lexeme@),
{
    let s = lexeme.as_str();
    let n = s.unicode_len();
    let mut cur = pos;
    let mut i: usize = 0;
    while i < n
        invariant
            n == lexeme@.len(),
            s@ == lexeme@,
            0 <= i <= n,
            pos.line + pos.offset + n <= usize::MAX,
            cur@ == advance(pos@, lexeme@.take(i as int)),
            cur.line + cur.offset <= pos.line + pos.offset + i,
        decreases n - i,
    {
        let c = s.get_char(i);
        proof {
            assert(lexeme@.take(i + 1).drop_last() =~= lexeme@.take(i as int));
        }
        if c == '\n' {
            cur = Position { line: cur.line + 1, offset: 0 };
        } else {
            cur = Position { line: cur.line, offset: cur.offset + 1 };
        }
        i = i + 1;
    }
    proof {
        assert(lexeme@.take(n as int) =~= lexeme@);
    }
    cur
}

} // verus!
