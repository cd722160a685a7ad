use pad::PadStr;
use vstd::prelude::*;
use vstd::string::*;

use crate::token::{advance, lemma_advance_bounds, text_len, token_start, Category, Token};

verus! {

/// Terminal colors.
#[derive(Clone, Copy, Debug, PartialEq, Eq, Structural)]
pub enum Color {
    Default,
    Black,
    White,
    Red,
    Green,
    Yellow,
    Blue,
    Magenta,
    Cyan,
}

/// Text weight.
#[derive(Clone, Copy, Debug, PartialEq, Eq, Structural)]
pub enum Style {
    Normal,
    Bold,
}

/// One character of the body, at column `x` of row `y`, on the default
/// background.
#[derive(Clone, Copy, Debug, PartialEq, Eq, Structural)]
pub struct Cell {
    pub x: usize,
    pub y: usize,
    pub foreground: Color,
    pub character: char,
}

/// One line of text printed from the left edge of row `y`.
#[derive(Clone, Debug)]
pub struct Row {
    pub y: usize,
    pub style: Style,
    pub foreground: Color,
    pub background: Color,
    pub text: String,
}

/// What the file-search view draws: the caret, the rows of text, and the
/// highlighted body cells.
#[derive(Clone, Debug)]
pub struct Frame {
    pub cursor_x: usize,
    pub cursor_y: usize,
    pub rows: Vec<Row>,
    pub cells: Vec<Cell>,
}

/// The state of the file search: what was typed, the paths found, best
/// first, and which of them is selected.
#[derive(Clone, Debug)]
pub struct OpenMode {
    pub input: String,
    pub results: Vec<String>,
    pub selected_index: usize,
}

/// The row of the search input.
pub const INPUT_ROW: usize = 5;

/// How many results the view lists: the rows above the input row.
pub const RESULT_ROWS: usize = 5;

/// The first row of the body.
pub const BODY_TOP: usize = 6;

/// Rows at the bottom of the terminal that the body leaves free.
pub const BOTTOM_MARGIN: usize = 5;

/// What padding `s` to `width` columns yields.
pub uninterp spec fn padded_to_width(s: Seq<char>, width: nat) -> Seq<char>;

/// Relies on `pad::PadStr::pad_to_width`: the text itself, followed by as
/// many spaces as its display width falls short of `width`; never cut.
#[verifier::external_body]
fn pad_to_width(s: &str, width: usize) -> (r: String)
    ensures
        r@ == padded_to_width(s@, width as nat),
        s@.len() <= r@.len(),
        r@.take(s@.len() as int) == s@,
        forall|i: int| s@.len() <= i < r@.len() ==> r@[i] == ' ',
{
    s.pad_to_width(width)
}

pub open spec fn category_color(c: Category) -> Color {
    match c {
        Category::Keyword => Color::Magenta,
        Category::Identifier => Color::Yellow,
        Category::String => Color::Red,
        Category::Comment => Color::Blue,
        Category::Method => Color::Cyan,
        _ => Color::Default,
    }
}

/// The color in which tokens of a category are drawn.
pub fn color_of(c: Category) -> (r: Color)
    ensures
        r == category_color(c),
{
    match c {
        Category::Keyword => Color::Magenta,
        Category::Identifier => Color::Yellow,
        Category::String => Color::Red,
        Category::Comment => Color::Blue,
        Category::Method => Color::Cyan,
        _ => Color::Default,
    }
}

/// The first row below the body.
pub open spec fn line_limit(height: nat) -> nat {
    if height >= BOTTOM_MARGIN {
        (height - BOTTOM_MARGIN) as nat
    } else {
        0
    }
}

/// The body's write cursor (row, column) and the cells drawn so far.
pub struct Walk {
    pub line: nat,
    pub offset: nat,
    pub cells: Seq<Cell>,
}

/// The cell that draws `c` at the walk's write cursor.
pub open spec fn cell_at(w: Walk, color: Color, c: char) -> Cell {
    Cell { x: w.offset as usize, y: w.line as usize, foreground: color, character: c }
}

/// One character of the body: a line break moves to the start of the next
/// row and draws nothing; another character is drawn and moves one column
/// right, above the limit only.
pub open spec fn draw_step(w: Walk, c: char, color: Color, limit: nat) -> Walk {
    if c == '\n' {
        Walk { line: w.line + 1, offset: 0, cells: w.cells }
    } else if w.line < limit {
        Walk {
            line: w.line,
            offset: w.offset + 1,
            cells: w.cells.push(cell_at(w, color, c)),
        }
    } else {
        w
    }
}

pub open spec fn draw_chars(w: Walk, s: Seq<char>, color: Color, limit: nat) -> Walk
    decreases s.len(),
{
    if s.len() == 0 {
        w
    } else {
        draw_step(draw_chars(w, s.drop_last(), color, limit), s.last(), color, limit)
    }
}

/// The body after the first `j` tokens, each in its category's color.
pub open spec fn draw_tokens(tokens: Seq<Token>, j: int, limit: nat) -> Walk
    decreases j,
{
    if j <= 0 || j > tokens.len() {
        Walk { line: BODY_TOP as nat, offset: 0, cells: Seq::empty() }
    } else {
        draw_chars(draw_tokens(tokens, j - 1, limit), tokens[j - 1].lexeme@, category_color(tokens[j - 1].category), limit)
    }
}

/// The cells of the body for a terminal of the given height.
pub open spec fn body_cells(tokens: Seq<Token>, height: nat) -> Seq<Cell> {
    draw_tokens(tokens, tokens.len() as int, line_limit(height)).cells
}

proof fn lemma_draw_chars_bounds(w: Walk, s: Seq<char>, color: Color, limit: nat)
    ensures
        draw_chars(w, s, color, limit).line + draw_chars(w, s, color, limit).offset <= w.line + w.offset + s.len(),
    decreases s.len(),
{
    if s.len() > 0 {
        lemma_draw_chars_bounds(w, s.drop_last(), color, limit);
    }
}

proof fn lemma_draw_tokens_bounds(tokens: Seq<Token>, j: int, limit: nat)
    requires
        0 <= j <= tokens.len(),
    ensures
        draw_tokens(tokens, j, limit).line + draw_tokens(tokens, j, limit).offset <= BODY_TOP + text_len(tokens, j),
    decreases j,
{
    if j > 0 {
        lemma_draw_tokens_bounds(tokens, j - 1, limit);
        let t = tokens[j - 1];
        lemma_draw_chars_bounds(draw_tokens(tokens, j - 1, limit), t.lexeme@, category_color(t.category), limit);
    }
}

/// Whether the body's positions fit in machine integers.
pub open spec fn body_fits(tokens: Seq<Token>) -> bool {
    text_len(tokens, tokens.len() as int) + BODY_TOP <= usize::MAX
}

/// The highlighted cells of the body: the tokens' characters laid out from
/// the top of the body, in their category's color, down to the row limit.
pub fn body(tokens: &Vec<Token>, height: usize) -> (r: Vec<Cell>)
    requires
        body_fits(tokens@),
    ensures
        r@ == body_cells(tokens@, height as nat),
{
    let limit: usize = if height >= BOTTOM_MARGIN { height - BOTTOM_MARGIN } else { 0 };
    let mut line: usize = BODY_TOP;
    let mut offset: usize = 0;
    let mut cells: Vec<Cell> = Vec::new();
    let mut j: usize = 0;
    while j < tokens.len()
        invariant
            j <= tokens@.len(),
            body_fits(tokens@),
            limit == line_limit(height as nat),
            draw_tokens(tokens@, j as int, limit as nat) == (Walk { line: line as nat, offset: offset as nat, cells: cells@ }),
        decreases tokens@.len() - j,
    {
        let token = &tokens[j];
        let color = color_of(token.category);
        let s = token.lexeme.as_str();
        let n = s.unicode_len();
        let ghost start = draw_tokens(tokens@, j as int, limit as nat);
        proof {
            crate::token::lemma_text_len_monotonic(tokens@, j + 1, tokens@.len() as int);
            lemma_draw_tokens_bounds(tokens@, j as int, limit as nat);
        }
        let mut i: usize = 0;
        while i < n
            invariant
                j < tokens@.len(),
                s@ == tokens@[j as int].lexeme@,
                n == s@.len(),
                i <= n,
                color == category_color(tokens@[j as int].category),
                limit == line_limit(height as nat),
                start.line + start.offset + n <= usize::MAX,
                line + offset <= start.line + start.offset + i,
                draw_chars(start, s@.take(i as int), color, limit as nat) == (Walk { line: line as nat, offset: offset as nat, cells: cells@ }),
            decreases n - i,
        {
            let c = s.get_char(i);
            proof {
                assert(s@.take(i + 1).drop_last() =~= s@.take(i as int));
            }
            if c == '\n' {
                line = line + 1;
                offset = 0;
            } else if line < limit {
                cells.push(Cell { x: offset, y: line, foreground: color, character: c });
                offset = offset + 1;
            }
            i = i + 1;
        }
        proof {
            assert(s@.take(n as int) =~= s@);
        }
        j = j + 1;
    }
    cells
}

/// Row `i` lists result `i`, padded to the terminal's width, on a black
/// background when it is the selected one.
pub open spec fn result_row(row: Row, i: int, mode: OpenMode, width: nat) -> bool {
    &&& row.y == i
    &&& row.style == Style::Normal
    &&& row.foreground == Color::White
    &&& row.background == (if i == mode.selected_index { Color::Black } else { Color::Default })
    &&& row.text@ == padded_to_width(mode.results@[i]@, width)
}

/// The divider row holds the search input, bold, padded to the width.
pub open spec fn input_row(row: Row, mode: OpenMode, width: nat) -> bool {
    &&& row.y == INPUT_ROW
    &&& row.style == Style::Bold
    &&& row.foreground == Color::Black
    &&& row.background == Color::White
    &&& row.text@ == padded_to_width(mode.input@, width)
    &&& row.text@.take(mode.input@.len() as int) == mode.input@
    &&& forall|i: int| mode.input@.len() <= i < row.text@.len() ==> row.text@[i] == ' '
}

/// How many results are listed: all of them, up to the rows that the list
/// has.
pub open spec fn listed(mode: OpenMode) -> nat {
    if mode.results@.len() < RESULT_ROWS {
        mode.results@.len()
    } else {
        RESULT_ROWS as nat
    }
}

/// `f` is the search view of a `width` by `height` terminal: the caret after
/// the input, one row for each of the first five results, then the input
/// row, then the body.
pub open spec fn shows(f: Frame, width: nat, height: nat, tokens: Seq<Token>, mode: OpenMode) -> bool {
    &&& f.cursor_x == mode.input@.len()
    &&& f.cursor_y == INPUT_ROW
    &&& f.rows@.len() == listed(mode) + 1
    &&& forall|i: int| 0 <= i < listed(mode) ==> result_row(#[trigger] f.rows@[i], i, mode, width)
    &&& input_row(f.rows@[listed(mode) as int], mode, width)
    &&& f.cells@ == body_cells(tokens, height)
}

/// Lays out the file-search view of a `width` by `height` terminal.
pub fn display(width: usize, height: usize, tokens: &Vec<Token>, mode: &OpenMode) -> (r: Frame)
    requires
        body_fits(tokens@),
    ensures
        shows(r, width as nat, height as nat, tokens@, *mode),
{
    let cursor_x = mode.input.as_str().unicode_len();
    let mut rows: Vec<Row> = Vec::new();
    let mut i: usize = 0;
    let count = if mode.results.len() < RESULT_ROWS { mode.results.len() } else { RESULT_ROWS };
    while i < count
        invariant
            count == listed(*mode),
            count <= mode.results@.len(),
            i <= count,
            rows@.len() == i,
            forall|k: int| 0 <= k < i ==> result_row(#[trigger] rows@[k], k, *mode, width as nat),
        decreases count - i,
    {
        let background = if i == mode.selected_index { Color::Black } else { Color::Default };
        let text = pad_to_width(mode.results[i].as_str(), width);
        rows.push(Row { y: i, style: Style::Normal, foreground: Color::White, background, text });
        i = i + 1;
    }
    let text = pad_to_width(mode.input.as_str(), width);
    rows.push(Row { y: INPUT_ROW, style: Style::Bold, foreground: Color::Black, background: Color::White, text });
    let cells = body(tokens, height);
    let r = Frame { cursor_x, cursor_y: INPUT_ROW, rows, cells };
    assert(forall|k: int| 0 <= k < listed(*mode) ==> result_row(#[trigger] r.rows@[k], k, *mode, width as nat));
    r
}

/// With no tokens and no results, the view is the input row alone: no
/// result rows and no body cells; with no input, that row holds only spaces
/// and the caret stands at its left edge.
pub proof fn lemma_empty_view(f: Frame, width: nat, height: nat, tokens: Seq<Token>, mode: OpenMode)
    requires
        shows(f, width, height, tokens, mode),
        tokens.len() == 0,
        mode.results@.len() == 0,
    ensures
        f.rows@.len() == 1,
        input_row(f.rows@[0], mode, width),
        f.cells@.len() == 0,
        mode.input@.len() == 0 ==> f.cursor_x == 0,
        mode.input@.len() == 0 ==> forall|i: int| 0 <= i < f.rows@[0].text@.len() ==> f.rows@[0].text@[i] == ' ',
{
}

/// Only the input row stands on the input row: every result row lies above
/// it, on its own row, and no more results are listed than fit there.
pub proof fn lemma_results_above_input(f: Frame, width: nat, height: nat, tokens: Seq<Token>, mode: OpenMode)
    requires
        shows(f, width, height, tokens, mode),
    ensures
        f.rows@.len() <= RESULT_ROWS + 1,
        forall|i: int| 0 <= i < f.rows@.len() - 1 ==> #[trigger] f.rows@[i].y == i && i < INPUT_ROW,
        f.rows@[f.rows@.len() - 1].y == INPUT_ROW,
{
    assert forall|i: int| 0 <= i < f.rows@.len() - 1 implies #[trigger] f.rows@[i].y == i && i < INPUT_ROW by {
        assert(result_row(f.rows@[i], i, mode, width));
    }
}

/// The rows of a walk's cells lie between the body's top and the limit, and
/// the walk never moves above the body's top.
pub open spec fn rows_in_body(w: Walk, limit: nat) -> bool {
    &&& BODY_TOP <= w.line
    &&& forall|k: int| 0 <= k < w.cells.len() ==> BODY_TOP <= #[trigger] w.cells[k].y < limit
}

proof fn lemma_draw_chars_rows(w: Walk, s: Seq<char>, color: Color, limit: nat)
    requires
        rows_in_body(w, limit),
        limit <= usize::MAX,
    ensures
        rows_in_body(draw_chars(w, s, color, limit), limit),
    decreases s.len(),
{
    if s.len() > 0 {
        lemma_draw_chars_rows(w, s.drop_last(), color, limit);
        let v = draw_chars(w, s.drop_last(), color, limit);
        let r = draw_step(v, s.last(), color, limit);
        let c = s.last();
        if c != '\n' && v.line < limit {
            let cell = cell_at(v, color, c);
            assert(r.cells == v.cells.push(cell));
            assert forall|k: int| 0 <= k < r.cells.len() implies BODY_TOP <= #[trigger] r.cells[k].y < limit by {
                if k < v.cells.len() {
                    assert(r.cells[k] == v.cells[k]);
                } else {
                    assert(r.cells[k] == cell);
                }
            }
        } else {
            assert(r.cells == v.cells);
        }
    }
}

proof fn lemma_draw_tokens_rows(tokens: Seq<Token>, j: int, limit: nat)
    requires
        0 <= j <= tokens.len(),
        limit <= usize::MAX,
    ensures
        rows_in_body(draw_tokens(tokens, j, limit), limit),
    decreases j,
{
    if j > 0 {
        lemma_draw_tokens_rows(tokens, j - 1, limit);
        let t = tokens[j - 1];
        lemma_draw_chars_rows(draw_tokens(tokens, j - 1, limit), t.lexeme@, category_color(t.category), limit);
    }
}

/// Every body cell lies on a row of the body: at or below its top, above the
/// line limit of the terminal's height; nothing is drawn in the margin.
pub proof fn lemma_body_rows(tokens: Seq<Token>, height: usize)
    ensures
        forall|k: int| 0 <= k < body_cells(tokens, height as nat).len()
            ==> BODY_TOP <= #[trigger] body_cells(tokens, height as nat)[k].y < line_limit(height as nat),
{
    lemma_draw_tokens_rows(tokens, tokens.len() as int, line_limit(height as nat));
}

proof fn lemma_advance_shift(p: (nat, nat), d: nat, s: Seq<char>)
    ensures
        advance((p.0 + d, p.1), s) == ((advance(p, s).0 + d) as nat, advance(p, s).1),
    decreases s.len(),
{
    if s.len() > 0 {
        lemma_advance_shift(p, d, s.drop_last());
    }
}

proof fn lemma_advance_line_ignores_offset(l: nat, o1: nat, o2: nat, s: Seq<char>)
    ensures
        advance((l, o1), s).0 == advance((l, o2), s).0,
    decreases s.len(),
{
    if s.len() > 0 {
        lemma_advance_line_ignores_offset(l, o1, o2, s.drop_last());
    }
}

proof fn lemma_draw_chars_follows_text(w: Walk, s: Seq<char>, color: Color, limit: nat)
    ensures
        draw_chars(w, s, color, limit).line == advance((w.line, w.offset), s).0,
        advance((w.line, w.offset), s).0 < limit ==> draw_chars(w, s, color, limit).offset == advance((w.line, w.offset), s).1,
    decreases s.len(),
{
    if s.len() > 0 {
        lemma_draw_chars_follows_text(w, s.drop_last(), color, limit);
        lemma_advance_bounds((w.line, w.offset), s.drop_last());
    }
}

/// The body's write cursor after `j` tokens stands where token `j` starts in
/// the text, moved down to the body's top: always on the same row, and on the
/// same column too while that row is above the line limit.
pub proof fn lemma_body_follows_text(tokens: Seq<Token>, j: int, limit: nat)
    requires
        0 <= j <= tokens.len(),
    ensures
        draw_tokens(tokens, j, limit).line == BODY_TOP + token_start(tokens, j).0,
        BODY_TOP + token_start(tokens, j).0 < limit ==> draw_tokens(tokens, j, limit).offset == token_start(tokens, j).1,
    decreases j,
{
    if j > 0 {
        lemma_body_follows_text(tokens, j - 1, limit);
        let w = draw_tokens(tokens, j - 1, limit);
        let t = tokens[j - 1];
        let p = token_start(tokens, j - 1);
        lemma_draw_chars_follows_text(w, t.lexeme@, category_color(t.category), limit);
        lemma_advance_shift(p, BODY_TOP as nat, t.lexeme@);
        lemma_advance_line_ignores_offset(w.line, w.offset, p.1, t.lexeme@);
        lemma_advance_bounds(p, t.lexeme@);
        if BODY_TOP + token_start(tokens, j).0 < limit {
            assert(w.line < limit);
        }
    }
}

} // verus!
