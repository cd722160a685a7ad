use vstd::prelude::*;
use vstd::string::*;

use crate::position::Position;
use crate::token::Token;

verus! {

/// The Unicode `White_Space` property, as `char::is_whitespace` documents it.
pub open spec fn white_space(c: char) -> bool {
    ('\t' <= c && c <= '\r') || c == ' ' || c == '\u{85}' || c == '\u{a0}' || c == '\u{1680}'
        || ('\u{2000}' <= c && c <= '\u{200a}') || c == '\u{2028}' || c == '\u{2029}'
        || c == '\u{202f}' || c == '\u{205f}' || c == '\u{3000}'
}

/// Whether `c` has the Unicode `White_Space` property.
pub fn is_white_space(c: char) -> (r: bool)
    ensures
        r == white_space(c),
{
    ('\t' <= c && c <= '\r') || c == ' ' || c == '\u{85}' || c == '\u{a0}' || c == '\u{1680}'
        || ('\u{2000}' <= c && c <= '\u{200a}') || c == '\u{2028}' || c == '\u{2029}'
        || c == '\u{202f}' || c == '\u{205f}' || c == '\u{3000}'
}

/// The index of the first character at or after `i` that is not whitespace.
pub open spec fn first_word_from(s: Seq<char>, i: int) -> Option<nat>
    decreases s.len() - i,
{
    if i < 0 || i >= s.len() {
        None
    } else if !white_space(s[i]) {
        Some(i as nat)
    } else {
        first_word_from(s, i + 1)
    }
}

/// The characters of each line.
pub open spec fn lines_view(lines: Seq<String>) -> Seq<Seq<char>> {
    lines.map_values(|s: String| s@)
}

/// The text of a buffer, line by line, the token stream that the lexer made
/// of it, the cursor, and the positions at which edit groups were opened.
#[derive(Clone, Debug)]
pub struct Buffer {
    pub lines: Vec<String>,
    pub tokens: Vec<Token>,
    pub cursor: Position,
    pub command_groups: Vec<Position>,
}

impl Buffer {
    pub open spec fn line_count(&self) -> nat {
        self.lines@.len()
    }

    pub open spec fn line_len(&self, l: nat) -> nat {
        self.lines@[l as int]@.len()
    }

    /// A position names a line of the buffer and an offset up to that
    /// line's end.
    pub open spec fn in_bounds(&self, p: (nat, nat)) -> bool {
        p.0 < self.line_count() && p.1 <= self.line_len(p.0)
    }

    /// Everything but the cursor is as in `old`, and the cursor is at `p`.
    pub open spec fn cursor_moved(&self, old: Buffer, p: (nat, nat)) -> bool {
        &&& self.lines == old.lines
        &&& self.tokens == old.tokens
        &&& self.command_groups == old.command_groups
        &&& self.cursor@ == p
    }

    /// Where the cursor ends when it is asked to move to `p`.
    pub open spec fn landing(&self, p: (nat, nat)) -> (nat, nat) {
        if self.in_bounds(p) {
            p
        } else {
            self.cursor@
        }
    }

    pub open spec fn clamped(&self, line: nat) -> (nat, nat) {
        let o = self.cursor@.1;
        if o <= self.line_len(line) {
            (line, o)
        } else {
            (line, self.line_len(line))
        }
    }

    pub open spec fn up_target(&self) -> (nat, nat) {
        let l = self.cursor@.0;
        if 0 < l && l - 1 < self.line_count() {
            self.clamped((l - 1) as nat)
        } else {
            self.cursor@
        }
    }

    pub open spec fn down_target(&self) -> (nat, nat) {
        let l = self.cursor@.0;
        if l + 1 < self.line_count() {
            self.clamped(l + 1)
        } else {
            self.cursor@
        }
    }

    pub open spec fn left_target(&self) -> (nat, nat) {
        if self.cursor@.1 > 0 {
            (self.cursor@.0, (self.cursor@.1 - 1) as nat)
        } else {
            self.cursor@
        }
    }

    pub open spec fn right_target(&self) -> (nat, nat) {
        self.landing((self.cursor@.0, self.cursor@.1 + 1))
    }

    pub open spec fn start_of_line_target(&self) -> (nat, nat) {
        self.landing((self.cursor@.0, 0))
    }

    pub open spec fn end_of_line_target(&self) -> (nat, nat) {
        if self.cursor@.0 < self.line_count() {
            (self.cursor@.0, self.line_len(self.cursor@.0))
        } else {
            self.cursor@
        }
    }

    pub open spec fn first_word_target(&self) -> (nat, nat) {
        let l = self.cursor@.0;
        if l < self.line_count() {
            match first_word_from(self.lines@[l as int]@, 0) {
                Some(i) => (l, i),
                None => self.cursor@,
            }
        } else {
            self.cursor@
        }
    }

    pub fn new(lines: Vec<String>, tokens: Vec<Token>) -> (r: Buffer)
        ensures
            r.lines == lines,
            r.tokens == tokens,
            r.cursor@ == (0nat, 0nat),
            r.command_groups@.len() == 0,
    {
        Buffer { lines, tokens, cursor: Position { line: 0, offset: 0 }, command_groups: Vec::new() }
    }

    /// The number of characters on line `l`.
    pub fn line_length(&self, l: usize) -> (r: usize)
        requires
            l < self.line_count(),
        ensures
            r == self.line_len(l as nat),
    {
        self.lines[l].as_str().unicode_len()
    }

    pub fn is_in_bounds(&self, p: Position) -> (r: bool)
        ensures
            r == self.in_bounds(p@),
    {
        p.line < self.lines.len() && p.offset <= self.line_length(p.line)
    }

    /// Moves the cursor to `p` where `p` lies in the buffer; says whether it moved.
    pub fn move_to(&mut self, p: Position) -> (r: bool)
        ensures
            r == old(self).in_bounds(p@),
            final(self).cursor_moved(*old(self), old(self).landing(p@)),
    {
        if self.is_in_bounds(p) {
            self.cursor = p;
            true
        } else {
            false
        }
    }

    fn move_clamped(&mut self, line: usize)
        requires
            line < old(self).line_count(),
        ensures
            final(self).cursor_moved(*old(self), old(self).clamped(line as nat)),
    {
        let len = self.line_length(line);
        let offset = if self.cursor.offset <= len { self.cursor.offset } else { len };
        self.cursor = Position { line, offset };
    }

    pub fn move_up(&mut self)
        ensures
            final(self).cursor_moved(*old(self), old(self).up_target()),
    {
        if 0 < self.cursor.line && self.cursor.line - 1 < self.lines.len() {
            self.move_clamped(self.cursor.line - 1);
        }
    }

    pub fn move_down(&mut self)
        ensures
            final(self).cursor_moved(*old(self), old(self).down_target()),
    {
        if self.cursor.line < self.lines.len() && self.cursor.line + 1 < self.lines.len() {
            self.move_clamped(self.cursor.line + 1);
        }
    }

    pub fn move_left(&mut self)
        ensures
            final(self).cursor_moved(*old(self), old(self).left_target()),
    {
        if self.cursor.offset > 0 {
            self.cursor = Position { line: self.cursor.line, offset: self.cursor.offset - 1 };
        }
    }

    pub fn move_right(&mut self)
        ensures
            final(self).cursor_moved(*old(self), old(self).right_target()),
    {
        if self.cursor.line < self.lines.len() && self.cursor.offset < self.line_length(self.cursor.line) {
            self.cursor = Position { line: self.cursor.line, offset: self.cursor.offset + 1 };
        }
    }

    pub fn move_to_start_of_line(&mut self)
        ensures
            final(self).cursor_moved(*old(self), old(self).start_of_line_target()),
    {
        let p = Position { line: self.cursor.line, offset: 0 };
        self.move_to(p);
    }

    pub fn move_to_end_of_line(&mut self)
        ensures
            final(self).cursor_moved(*old(self), old(self).end_of_line_target()),
    {
        if self.cursor.line < self.lines.len() {
            let len = self.line_length(self.cursor.line);
            self.cursor = Position { line: self.cursor.line, offset: len };
        }
    }

    /// Moves the cursor to the first character of its line that is not
    /// whitespace; leaves it where it is on a blank line.
    pub fn move_to_first_word_of_line(&mut self)
        ensures
            final(self).cursor_moved(*old(self), old(self).first_word_target()),
    {
        let l = self.cursor.line;
        if l < self.lines.len() {
            let s = self.lines[l].as_str();
            let n = s.unicode_len();
            let mut i: usize = 0;
            while i < n
                invariant
                    *self == *old(self),
                    l == self.cursor.line,
                    l < self.lines@.len(),
                    s@ == self.lines@[l as int]@,
                    n == s@.len(),
                    i <= n,
                    first_word_from(s@, 0) == first_word_from(s@, i as int),
                decreases n - i,
            {
                if !is_white_space(s.get_char(i)) {
                    self.cursor = Position { line: l, offset: i };
                    return;
                }
                i = i + 1;
            }
        }
    }

    /// Marks the start of a group of edits that undo treats as one, at the
    /// cursor.
    pub fn start_command_group(&mut self)
        ensures
            final(self).lines == old(self).lines,
            final(self).tokens == old(self).tokens,
            final(self).cursor == old(self).cursor,
            final(self).command_groups@ == old(self).command_groups@.push(old(self).cursor),
    {
        let p = self.cursor;
        self.command_groups.push(p);
    }

    /// Replaces the token stream with a fresh one from the lexer.
    pub fn set_tokens(&mut self, tokens: Vec<Token>)
        ensures
            final(self).lines == old(self).lines,
            final(self).tokens == tokens,
            final(self).cursor == old(self).cursor,
            final(self).command_groups == old(self).command_groups,
    {
        self.tokens = tokens;
    }

    /// Breaks the cursor's line in two at the cursor and moves the cursor to
    /// the start of the new line. The token stream no longer matches the text
    /// and is emptied until the lexer supplies a new one. Where the cursor
    /// lies outside the text, nothing changes.
    pub fn insert_newline(&mut self)
        ensures
            ({
                let l = old(self).cursor@.0;
                let o = old(self).cursor@.1;
                if old(self).in_bounds(old(self).cursor@) {
                    let s = old(self).lines@[l as int]@;
                    &&& lines_view(final(self).lines@) == lines_view(old(self).lines@).update(l as int, s.take(o as int)).insert(l + 1 as int, s.skip(o as int))
                    &&& final(self).cursor@ == (l + 1, 0nat)
                    &&& final(self).tokens@.len() == 0
                    &&& final(self).command_groups == old(self).command_groups
                } else {
                    *final(self) == *old(self)
                }
            }),
    {
        if self.is_in_bounds(self.cursor) {
            let l = self.cursor.line;
            let o = self.cursor.offset;
            let n = self.line_length(l);
            let head = String::from_str(self.lines[l].as_str().substring_char(0, o));
            let tail = String::from_str(self.lines[l].as_str().substring_char(o, n));
            let ghost before = self.lines@;
            self.lines.set(l, head);
            let count = self.lines.len();
            assert(l < count);
            self.lines.insert(l + 1, tail);
            self.tokens = Vec::new();
            self.cursor = Position { line: l + 1, offset: 0 };
            proof {
                assert(lines_view(self.lines@) =~= lines_view(before).update(l as int, before[l as int]@.take(o as int)).insert(l + 1 as int, before[l as int]@.skip(o as int)));
            }
        }
    }
}

} // verus!
