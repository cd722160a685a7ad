use vstd::prelude::*;

use crate::position::{at_or_before, before, origin, Direction, Position};
use vstd::string::*;

use crate::token::{
    advance_past, lemma_text_len_monotonic, lemma_token_start_bounded,
    lemma_token_start_monotonic, text_len, token_start, Category, Token,
};

verus! {

/// Whether a forward search stops at token `j`: it starts strictly after the
/// cursor and, unless whitespace is allowed, is not whitespace.
pub open spec fn forward_stop(tokens: Seq<Token>, j: int, cursor: (nat, nat), whitespace: bool) -> bool {
    before(cursor, token_start(tokens, j)) && (whitespace || tokens[j].category != Category::Whitespace)
}

/// Whether a backward search stops at token `j`: it ends at or after the cursor.
pub open spec fn backward_stop(tokens: Seq<Token>, j: int, cursor: (nat, nat)) -> bool {
    !before(token_start(tokens, j + 1), cursor)
}

/// The start of the first token from `j` on at which a forward search stops.
pub open spec fn forward_from(tokens: Seq<Token>, j: int, cursor: (nat, nat), whitespace: bool) -> Option<(nat, nat)>
    decreases tokens.len() - j,
{
    if j < 0 || j >= tokens.len() {
        None
    } else if forward_stop(tokens, j, cursor, whitespace) {
        Some(token_start(tokens, j))
    } else {
        forward_from(tokens, j + 1, cursor, whitespace)
    }
}

/// What a backward search answers at the first token from `j` on at which it
/// stops: the start of the token before it when that token is whitespace,
/// else its own start.
pub open spec fn backward_from(tokens: Seq<Token>, j: int, cursor: (nat, nat)) -> Option<(nat, nat)>
    decreases tokens.len() - j,
{
    if j < 0 || j >= tokens.len() {
        None
    } else if backward_stop(tokens, j, cursor) {
        if tokens[j].category == Category::Whitespace {
            Some(token_start(tokens, j - 1))
        } else {
            Some(token_start(tokens, j))
        }
    } else {
        backward_from(tokens, j + 1, cursor)
    }
}

/// The token boundary adjacent to `cursor` in the given direction, if any.
pub open spec fn adjacent(tokens: Seq<Token>, cursor: (nat, nat), whitespace: bool, direction: Direction) -> Option<(nat, nat)> {
    match direction {
        Direction::Forward => forward_from(tokens, 0, cursor, whitespace),
        Direction::Backward => backward_from(tokens, 0, cursor),
    }
}

/// The search in the given direction, from token `j` on.
pub open spec fn search_from(tokens: Seq<Token>, j: int, cursor: (nat, nat), whitespace: bool, direction: Direction) -> Option<(nat, nat)> {
    match direction {
        Direction::Forward => forward_from(tokens, j, cursor, whitespace),
        Direction::Backward => backward_from(tokens, j, cursor),
    }
}

pub open spec fn position_option_view(r: Option<Position>) -> Option<(nat, nat)> {
    match r {
        Some(p) => Some(p@),
        None => None,
    }
}

/// Whether the positions of the stream fit in machine integers.
pub open spec fn fits(tokens: Seq<Token>) -> bool {
    text_len(tokens, tokens.len() as int) <= usize::MAX
}

/// The number of characters in the stream, where it fits in a machine
/// integer.
pub fn stream_length(tokens: &Vec<Token>) -> (r: Option<usize>)
    ensures
        match r {
            Some(n) => fits(tokens@) && n == text_len(tokens@, tokens@.len() as int),
            None => !fits(tokens@),
        },
{
    let mut total: usize = 0;
    let mut j: usize = 0;
    while j < tokens.len()
        invariant
            j <= tokens@.len(),
            total == text_len(tokens@, j as int),
        decreases tokens@.len() - j,
    {
        let n = tokens[j].lexeme.as_str().unicode_len();
        proof {
            lemma_text_len_monotonic(tokens@, j + 1, tokens@.len() as int);
        }
        match total.checked_add(n) {
            Some(t) => total = t,
            None => return None,
        }
        j = j + 1;
    }
    Some(total)
}

/// Finds the token boundary next to `cursor`: going forward, the start of the
/// first token after the cursor (skipping whitespace tokens unless
/// `whitespace`); going backward, the start of the token that reaches the
/// cursor, or of the one before it when that token is whitespace.
pub fn adjacent_token_position(
    tokens: &Vec<Token>,
    cursor: Position,
    whitespace: bool,
    direction: Direction,
) -> (r: Option<Position>)
    requires
        fits(tokens@),
    ensures
        position_option_view(r) == adjacent(tokens@, cursor@, whitespace, direction),
{
    let mut position = Position { line: 0, offset: 0 };
    let mut previous_position = Position { line: 0, offset: 0 };
    let mut j: usize = 0;
    while j < tokens.len()
        invariant
            j <= tokens@.len(),
            fits(tokens@),
            position@ == token_start(tokens@, j as int),
            previous_position@ == token_start(tokens@, j - 1),
            adjacent(tokens@, cursor@, whitespace, direction) == search_from(tokens@, j as int, cursor@, whitespace, direction),
        decreases tokens@.len() - j,
    {
        let token = &tokens[j];
        if direction == Direction::Forward && position.is_after(&cursor) {
            if whitespace || token.category != Category::Whitespace {
                return Some(position);
            }
        }
        proof {
            lemma_token_start_bounded(tokens@, j as int);
            lemma_text_len_monotonic(tokens@, j + 1, tokens@.len() as int);
        }
        let next_position = advance_past(position, &token.lexeme);
        if direction == Direction::Backward && next_position.is_at_or_after(&cursor) {
            if token.category == Category::Whitespace {
                return Some(previous_position);
            } else {
                return Some(position);
            }
        }
        previous_position = position;
        position = next_position;
        j = j + 1;
    }
    None
}

proof fn lemma_forward_from(tokens: Seq<Token>, j: int, cursor: (nat, nat), whitespace: bool)
    requires
        0 <= j <= tokens.len(),
        forall|k: int| 0 <= k < j ==> !forward_stop(tokens, k, cursor, whitespace),
    ensures
        match forward_from(tokens, j, cursor, whitespace) {
            Some(p) => before(cursor, p) && forall|k: int|
                0 <= k < tokens.len() && before(cursor, #[trigger] token_start(tokens, k)) && before(token_start(tokens, k), p)
                    ==> !whitespace && tokens[k].category == Category::Whitespace,
            None => forall|k: int| 0 <= k < tokens.len() ==> !forward_stop(tokens, k, cursor, whitespace),
        },
    decreases tokens.len() - j,
{
    if j < tokens.len() {
        if forward_stop(tokens, j, cursor, whitespace) {
            let p = token_start(tokens, j);
            assert forall|k: int|
                0 <= k < tokens.len() && before(cursor, #[trigger] token_start(tokens, k)) && before(token_start(tokens, k), p)
                    implies !whitespace && tokens[k].category == Category::Whitespace by {
                if k > j {
                    lemma_token_start_monotonic(tokens, j, k);
                } else if k < j {
                    assert(!forward_stop(tokens, k, cursor, whitespace));
                }
            }
        } else {
            lemma_forward_from(tokens, j + 1, cursor, whitespace);
        }
    }
}

proof fn lemma_backward_from(tokens: Seq<Token>, j: int, cursor: (nat, nat))
    requires
        0 <= j <= tokens.len(),
        forall|k: int| 0 <= k < j ==> !backward_stop(tokens, k, cursor),
    ensures
        match backward_from(tokens, j, cursor) {
            Some(p) => at_or_before(p, cursor) && (cursor != origin() ==> before(p, cursor)) && forall|k: int|
                0 <= k < tokens.len() && before(p, #[trigger] token_start(tokens, k)) && before(token_start(tokens, k), cursor)
                    ==> tokens[k].category == Category::Whitespace,
            None => forall|k: int| 0 <= k < tokens.len() ==> before(#[trigger] token_start(tokens, k + 1), cursor),
        },
    decreases tokens.len() - j,
{
    if j < tokens.len() {
        if backward_stop(tokens, j, cursor) {
            let p = backward_from(tokens, j, cursor)->Some_0;
            if j > 0 {
                assert(!backward_stop(tokens, j - 1, cursor));
                assert(before(token_start(tokens, j), cursor));
                lemma_token_start_monotonic(tokens, j - 1, j);
            }
            assert forall|k: int|
                0 <= k < tokens.len() && before(p, #[trigger] token_start(tokens, k)) && before(token_start(tokens, k), cursor)
                    implies tokens[k].category == Category::Whitespace by {
                if k > j {
                    lemma_token_start_monotonic(tokens, j + 1, k);
                } else if k < j {
                    if tokens[j].category == Category::Whitespace {
                        lemma_token_start_monotonic(tokens, k, j - 1);
                    } else {
                        lemma_token_start_monotonic(tokens, k, j);
                    }
                } else if tokens[j].category != Category::Whitespace {
                    assert(p == token_start(tokens, k));
                }
            }
        } else {
            lemma_backward_from(tokens, j + 1, cursor);
        }
    } else {
        assert forall|k: int| 0 <= k < tokens.len() implies before(#[trigger] token_start(tokens, k + 1), cursor) by {
            assert(!backward_stop(tokens, k, cursor));
        }
    }
}

/// A forward search only ever moves strictly forward, and every token start
/// it passes over on the way is a whitespace token that it was told to skip.
/// When it finds nothing, no token start after the cursor is a place to stop.
pub proof fn lemma_forward_progress(tokens: Seq<Token>, cursor: (nat, nat), whitespace: bool)
    ensures
        match adjacent(tokens, cursor, whitespace, Direction::Forward) {
            Some(p) => before(cursor, p) && forall|k: int|
                0 <= k < tokens.len() && before(cursor, #[trigger] token_start(tokens, k)) && before(token_start(tokens, k), p)
                    ==> !whitespace && tokens[k].category == Category::Whitespace,
            None => forall|k: int| 0 <= k < tokens.len() ==> !forward_stop(tokens, k, cursor, whitespace),
        },
{
    lemma_forward_from(tokens, 0, cursor, whitespace);
}

/// A backward search never moves forward, moves strictly backward from any
/// cursor but the start of the buffer, and every token start it passes over
/// on the way belongs to a whitespace token. When it finds nothing, every
/// token ends before the cursor.
pub proof fn lemma_backward_progress(tokens: Seq<Token>, cursor: (nat, nat), whitespace: bool)
    ensures
        match adjacent(tokens, cursor, whitespace, Direction::Backward) {
            Some(p) => at_or_before(p, cursor) && (cursor != origin() ==> before(p, cursor)) && forall|k: int|
                0 <= k < tokens.len() && before(p, #[trigger] token_start(tokens, k)) && before(token_start(tokens, k), cursor)
                    ==> tokens[k].category == Category::Whitespace,
            None => forall|k: int| 0 <= k < tokens.len() ==> before(#[trigger] token_start(tokens, k + 1), cursor),
        },
{
    lemma_backward_from(tokens, 0, cursor);
}

proof fn lemma_forward_skips_to(tokens: Seq<Token>, i: int, j: int, cursor: (nat, nat))
    requires
        0 <= i <= j + 1,
        j + 1 < tokens.len(),
        at_or_before(token_start(tokens, j), cursor),
        before(cursor, token_start(tokens, j + 1)),
    ensures
        forward_from(tokens, i, cursor, true) == Some(token_start(tokens, j + 1)),
    decreases j + 1 - i,
{
    if i <= j {
        lemma_token_start_monotonic(tokens, i, j);
        lemma_forward_skips_to(tokens, i + 1, j, cursor);
    }
}

/// From any cursor inside token `j`, a forward search that stops at
/// whitespace answers the start of token `j + 1`, wherever in token `j` the
/// cursor was.
pub proof fn lemma_forward_within_token(tokens: Seq<Token>, j: int, cursor: (nat, nat))
    requires
        0 <= j,
        j + 1 < tokens.len(),
        at_or_before(token_start(tokens, j), cursor),
        before(cursor, token_start(tokens, j + 1)),
    ensures
        adjacent(tokens, cursor, true, Direction::Forward) == Some(token_start(tokens, j + 1)),
{
    lemma_forward_skips_to(tokens, 0, j, cursor);
}

} // verus!
