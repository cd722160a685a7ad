use vstd::prelude::*;

use crate::application::{switch_to_insert_mode, Application, Mode};
use crate::buffer::{lines_view, Buffer};
use crate::position::{at_or_before, before, origin, Direction, Position};
use crate::resolver::{
    adjacent, adjacent_token_position, fits, lemma_backward_progress, lemma_forward_progress,
    lemma_forward_within_token,
};
use crate::token::token_start;

verus! {

/// The mode is kept; without a buffer nothing changes; with one, only its
/// cursor moves, to `target` of the buffer as it was.
pub open spec fn moves_cursor(before: Application, after: Application, target: spec_fn(Buffer) -> (nat, nat)) -> bool {
    &&& after.mode == before.mode
    &&& match before.buffer {
        None => after.buffer is None,
        Some(b) => after.buffer is Some && after.buffer->Some_0.cursor_moved(b, target(b)),
    }
}

pub fn move_up(app: &mut Application)
    ensures
        moves_cursor(*old(app), *final(app), |b: Buffer| b.up_target()),
{
    if let Some(buffer) = &mut app.buffer {
        buffer.move_up();
    }
}

pub fn move_down(app: &mut Application)
    ensures
        moves_cursor(*old(app), *final(app), |b: Buffer| b.down_target()),
{
    if let Some(buffer) = &mut app.buffer {
        buffer.move_down();
    }
}

pub fn move_left(app: &mut Application)
    ensures
        moves_cursor(*old(app), *final(app), |b: Buffer| b.left_target()),
{
    if let Some(buffer) = &mut app.buffer {
        buffer.move_left();
    }
}

pub fn move_right(app: &mut Application)
    ensures
        moves_cursor(*old(app), *final(app), |b: Buffer| b.right_target()),
{
    if let Some(buffer) = &mut app.buffer {
        buffer.move_right();
    }
}

pub fn move_to_start_of_line(app: &mut Application)
    ensures
        moves_cursor(*old(app), *final(app), |b: Buffer| b.start_of_line_target()),
{
    if let Some(buffer) = &mut app.buffer {
        buffer.move_to_start_of_line();
    }
}

/// Moves to the first character of the line that is not whitespace.
pub fn move_to_first_word_of_line(app: &mut Application)
    ensures
        moves_cursor(*old(app), *final(app), |b: Buffer| b.first_word_target()),
{
    if let Some(buffer) = &mut app.buffer {
        buffer.move_to_first_word_of_line();
    }
}

pub fn move_to_end_of_line(app: &mut Application)
    ensures
        moves_cursor(*old(app), *final(app), |b: Buffer| b.end_of_line_target()),
{
    if let Some(buffer) = &mut app.buffer {
        buffer.move_to_end_of_line();
    }
}

/// Moves to the end of the line, then enters insert mode.
pub fn insert_at_end_of_line(app: &mut Application)
    ensures
        final(app).mode == Mode::Insert,
        moves_cursor(*old(app), Application { mode: old(app).mode, ..*final(app) }, |b: Buffer| b.end_of_line_target()),
{
    move_to_end_of_line(app);
    switch_to_insert_mode(app);
}

/// Moves to the first word of the line, then enters insert mode.
pub fn insert_at_first_word_of_line(app: &mut Application)
    ensures
        final(app).mode == Mode::Insert,
        moves_cursor(*old(app), Application { mode: old(app).mode, ..*final(app) }, |b: Buffer| b.first_word_target()),
{
    move_to_first_word_of_line(app);
    switch_to_insert_mode(app);
}

/// Moves to the end of the line, opens an edit group there, breaks the line
/// and enters insert mode on the new, empty line.
pub fn insert_with_newline(app: &mut Application)
    ensures
        final(app).mode == Mode::Insert,
        match old(app).buffer {
            None => final(app).buffer is None,
            Some(b) => final(app).buffer is Some && ({
                let after = final(app).buffer->Some_0;
                let end = b.end_of_line_target();
                if b.in_bounds(end) {
                    &&& after.command_groups@ == b.command_groups@.push(Position { line: end.0 as usize, offset: end.1 as usize })
                    &&& lines_view(after.lines@) == lines_view(b.lines@).insert(end.0 + 1 as int, Seq::empty())
                    &&& after.cursor@ == (end.0 + 1, 0nat)
                    &&& after.tokens@.len() == 0
                } else {
                    &&& after.command_groups@ == b.command_groups@.push(b.cursor)
                    &&& after.lines == b.lines
                    &&& after.cursor == b.cursor
                    &&& after.tokens == b.tokens
                }
            }),
        },
{
    if let Some(buffer) = &mut app.buffer {
        buffer.move_to_end_of_line();
        buffer.start_command_group();
        let ghost mid = *buffer;
        buffer.insert_newline();
        proof {
            if mid.in_bounds(mid.cursor@) {
                let l = mid.cursor@.0 as int;
                let s = mid.lines@[l]@;
                assert(s.take(s.len() as int) =~= s);
                assert(s.skip(s.len() as int) =~= Seq::<char>::empty());
                assert(lines_view(mid.lines@).update(l, s) =~= lines_view(mid.lines@));
            }
        }
    }
    switch_to_insert_mode(app);
}

/// Where a token motion leaves the cursor: at the boundary that the search
/// finds, where it lies in the buffer; else where it was.
pub open spec fn token_target(b: Buffer, whitespace: bool, direction: Direction) -> (nat, nat) {
    match adjacent(b.tokens@, b.cursor@, whitespace, direction) {
        Some(p) => b.landing(p),
        None => b.cursor@,
    }
}

/// Where moving to the end of the current token leaves the cursor: one
/// character before the next token boundary; where that boundary starts a
/// line, at the end of the line before.
pub open spec fn end_of_token_target(b: Buffer) -> (nat, nat) {
    match adjacent(b.tokens@, b.cursor@, true, Direction::Forward) {
        Some(p) => if p.1 > 0 {
            b.landing((p.0, (p.1 - 1) as nat))
        } else if p.0 > 0 && p.0 - 1 < b.line_count() {
            b.landing(((p.0 - 1) as nat, b.line_len((p.0 - 1) as nat)))
        } else {
            b.cursor@
        },
        None => b.cursor@,
    }
}

fn move_by_token(buffer: &mut Buffer, whitespace: bool, direction: Direction)
    requires
        fits(old(buffer).tokens@),
    ensures
        final(buffer).cursor_moved(*old(buffer), token_target(*old(buffer), whitespace, direction)),
{
    match adjacent_token_position(&buffer.tokens, buffer.cursor, whitespace, direction) {
        Some(position) => {
            buffer.move_to(position);
        },
        None => {},
    }
}

/// Moves to the start of the previous token, passing over whitespace.
pub fn move_to_start_of_previous_token(app: &mut Application)
    requires
        old(app).tokens_fit(),
    ensures
        moves_cursor(*old(app), *final(app), |b: Buffer| token_target(b, false, Direction::Backward)),
{
    if let Some(buffer) = &mut app.buffer {
        move_by_token(buffer, false, Direction::Backward);
    }
}

/// Moves to the start of the next token that is not whitespace.
pub fn move_to_start_of_next_token(app: &mut Application)
    requires
        old(app).tokens_fit(),
    ensures
        moves_cursor(*old(app), *final(app), |b: Buffer| token_target(b, false, Direction::Forward)),
{
    if let Some(buffer) = &mut app.buffer {
        move_by_token(buffer, false, Direction::Forward);
    }
}

/// Moves to the last character of the current token.
pub fn move_to_end_of_current_token(app: &mut Application)
    requires
        old(app).tokens_fit(),
    ensures
        moves_cursor(*old(app), *final(app), |b: Buffer| end_of_token_target(b)),
{
    if let Some(buffer) = &mut app.buffer {
        match adjacent_token_position(&buffer.tokens, buffer.cursor, true, Direction::Forward) {
            Some(position) => {
                if position.offset > 0 {
                    buffer.move_to(Position { line: position.line, offset: position.offset - 1 });
                } else if position.line > 0 && position.line - 1 < buffer.lines.len() {
                    let end = buffer.line_length(position.line - 1);
                    buffer.move_to(Position { line: position.line - 1, offset: end });
                }
            },
            None => {},
        }
    }
}

/// Moves just past the current token, then enters insert mode, whether or
/// not the cursor moved.
pub fn append_to_current_token(app: &mut Application)
    requires
        old(app).tokens_fit(),
    ensures
        final(app).mode == Mode::Insert,
        moves_cursor(*old(app), Application { mode: old(app).mode, ..*final(app) }, |b: Buffer| token_target(b, true, Direction::Forward)),
{
    if let Some(buffer) = &mut app.buffer {
        move_by_token(buffer, true, Direction::Forward);
    }
    switch_to_insert_mode(app);
}

/// When the search finds no boundary, a token motion leaves the cursor where
/// it was.
pub proof fn lemma_no_boundary_no_motion(b: Buffer, whitespace: bool, direction: Direction)
    requires
        adjacent(b.tokens@, b.cursor@, whitespace, direction) is None,
    ensures
        token_target(b, whitespace, direction) == b.cursor@,
        direction == Direction::Forward && whitespace ==> end_of_token_target(b) == b.cursor@,
{
}

/// Token motions keep to their direction: the next-token motion never lands
/// before the cursor and the previous-token motion never lands after it, so
/// repeating either one walks the buffer one way until it stops.
pub proof fn lemma_token_motion_direction(b: Buffer, whitespace: bool)
    ensures
        at_or_before(b.cursor@, token_target(b, whitespace, Direction::Forward)),
        at_or_before(token_target(b, whitespace, Direction::Backward), b.cursor@),
        b.cursor@ != origin() && adjacent(b.tokens@, b.cursor@, whitespace, Direction::Backward) is Some
            && b.in_bounds(adjacent(b.tokens@, b.cursor@, whitespace, Direction::Backward)->Some_0)
            ==> before(token_target(b, whitespace, Direction::Backward), b.cursor@),
        adjacent(b.tokens@, b.cursor@, whitespace, Direction::Forward) is Some
            && b.in_bounds(adjacent(b.tokens@, b.cursor@, whitespace, Direction::Forward)->Some_0)
            ==> before(b.cursor@, token_target(b, whitespace, Direction::Forward)),
{
    lemma_forward_progress(b.tokens@, b.cursor@, whitespace);
    lemma_backward_progress(b.tokens@, b.cursor@, whitespace);
}

/// Two steps of the next-token motion on an unchanged buffer never come
/// back between the first two positions: the third position is at or after
/// the second, which is at or after the first.
pub proof fn lemma_next_token_never_revisits(b0: Buffer, b1: Buffer, b2: Buffer, whitespace: bool)
    requires
        b1.cursor_moved(b0, token_target(b0, whitespace, Direction::Forward)),
        b2.cursor_moved(b1, token_target(b1, whitespace, Direction::Forward)),
    ensures
        at_or_before(b0.cursor@, b1.cursor@),
        at_or_before(b1.cursor@, b2.cursor@),
        !(before(b0.cursor@, b2.cursor@) && before(b2.cursor@, b1.cursor@)),
{
    lemma_token_motion_direction(b0, whitespace);
    lemma_token_motion_direction(b1, whitespace);
}

/// Two steps of the previous-token motion on an unchanged buffer never come
/// back between the first two positions.
pub proof fn lemma_previous_token_never_revisits(b0: Buffer, b1: Buffer, b2: Buffer, whitespace: bool)
    requires
        b1.cursor_moved(b0, token_target(b0, whitespace, Direction::Backward)),
        b2.cursor_moved(b1, token_target(b1, whitespace, Direction::Backward)),
    ensures
        at_or_before(b1.cursor@, b0.cursor@),
        at_or_before(b2.cursor@, b1.cursor@),
        !(before(b1.cursor@, b2.cursor@) && before(b2.cursor@, b0.cursor@)),
{
    lemma_token_motion_direction(b0, whitespace);
    lemma_token_motion_direction(b1, whitespace);
}

/// Appending from anywhere inside token `j` lands on the start of the next
/// token, where that start lies in the text.
pub proof fn lemma_append_within_token(b: Buffer, j: int)
    requires
        0 <= j,
        j + 1 < b.tokens@.len(),
        at_or_before(token_start(b.tokens@, j), b.cursor@),
        before(b.cursor@, token_start(b.tokens@, j + 1)),
        b.in_bounds(token_start(b.tokens@, j + 1)),
    ensures
        token_target(b, true, Direction::Forward) == token_start(b.tokens@, j + 1),
{
    lemma_forward_within_token(b.tokens@, j, b.cursor@);
}

/// Moving to the end of the current token lands one character before the
/// next boundary, where the boundary is not at the start of a line and that
/// place lies in the text.
pub proof fn lemma_end_of_token_one_before(b: Buffer, p: (nat, nat))
    requires
        adjacent(b.tokens@, b.cursor@, true, Direction::Forward) == Some(p),
        p.1 >= 1,
        b.in_bounds((p.0, (p.1 - 1) as nat)),
    ensures
        end_of_token_target(b) == (p.0, (p.1 - 1) as nat),
{
}

} // verus!
