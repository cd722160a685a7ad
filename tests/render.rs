use amp_motion::render::{body, color_of, display, Cell, Color, OpenMode, Style};
use amp_motion::token::{Category, Token};

fn token(lexeme: &str, category: Category) -> Token {
    Token::new(lexeme.to_string(), category)
}

fn mode(input: &str, results: &[&str], selected_index: usize) -> OpenMode {
    OpenMode {
        input: input.to_string(),
        results: results.iter().map(|r| r.to_string()).collect(),
        selected_index,
    }
}

#[test]
fn empty_view_draws_only_the_input_row() {
    let frame = display(20, 24, &vec![], &mode("", &[], 0));
    assert_eq!(frame.rows.len(), 1);
    assert_eq!(frame.rows[0].y, 5);
    assert_eq!(frame.rows[0].style, Style::Bold);
    assert_eq!(frame.rows[0].foreground, Color::Black);
    assert_eq!(frame.rows[0].background, Color::White);
    assert_eq!(frame.rows[0].text, " ".repeat(20));
    assert!(frame.cells.is_empty());
    assert_eq!((frame.cursor_x, frame.cursor_y), (0, 5));
}

#[test]
fn results_are_padded_and_the_selected_one_is_highlighted() {
    let frame = display(8, 24, &vec![], &mode("sr", &["src/a.rs", "b.rs"], 1));
    assert_eq!(frame.rows.len(), 3);
    assert_eq!(frame.rows[0].y, 0);
    assert_eq!(frame.rows[0].text, "src/a.rs");
    assert_eq!(frame.rows[0].background, Color::Default);
    assert_eq!(frame.rows[0].foreground, Color::White);
    assert_eq!(frame.rows[0].style, Style::Normal);
    assert_eq!(frame.rows[1].y, 1);
    assert_eq!(frame.rows[1].text, "b.rs    ");
    assert_eq!(frame.rows[1].background, Color::Black);
    assert_eq!(frame.rows[2].text, "sr      ");
    assert_eq!((frame.cursor_x, frame.cursor_y), (2, 5));
}

#[test]
fn long_results_are_not_cut() {
    let frame = display(4, 24, &vec![], &mode("abcdef", &[], 0));
    assert_eq!(frame.rows[0].text, "abcdef");
}

#[test]
fn body_colors_tokens_by_category() {
    let tokens = vec![
        token("fn", Category::Keyword),
        token(" ", Category::Whitespace),
        token("x", Category::Identifier),
        token("\n", Category::Whitespace),
        token("\"s\"", Category::String),
    ];
    let cells = body(&tokens, 24);
    let expected = vec![
        Cell { x: 0, y: 6, foreground: Color::Magenta, character: 'f' },
        Cell { x: 1, y: 6, foreground: Color::Magenta, character: 'n' },
        Cell { x: 2, y: 6, foreground: Color::Default, character: ' ' },
        Cell { x: 3, y: 6, foreground: Color::Yellow, character: 'x' },
        Cell { x: 0, y: 7, foreground: Color::Red, character: '"' },
        Cell { x: 1, y: 7, foreground: Color::Red, character: 's' },
        Cell { x: 2, y: 7, foreground: Color::Red, character: '"' },
    ];
    assert_eq!(cells, expected);
}

#[test]
fn body_stops_at_the_line_limit() {
    let tokens = vec![token("a\nb\nc\nd", Category::Comment)];
    let cells = body(&tokens, 13);
    let rows: Vec<usize> = cells.iter().map(|c| c.y).collect();
    assert_eq!(rows, vec![6, 7]);
    assert!(cells.iter().all(|c| c.foreground == Color::Blue));
    assert!(body(&tokens, 3).is_empty());
}

#[test]
fn category_colors() {
    assert_eq!(color_of(Category::Keyword), Color::Magenta);
    assert_eq!(color_of(Category::Identifier), Color::Yellow);
    assert_eq!(color_of(Category::String), Color::Red);
    assert_eq!(color_of(Category::Comment), Color::Blue);
    assert_eq!(color_of(Category::Method), Color::Cyan);
    assert_eq!(color_of(Category::Whitespace), Color::Default);
    assert_eq!(color_of(Category::Text), Color::Default);
}

#[test]
fn only_five_results_are_listed_above_the_input_row() {
    let results = ["a", "b", "c", "d", "e", "f", "g"];
    let frame = display(3, 24, &vec![], &mode("q", &results, 6));
    assert_eq!(frame.rows.len(), 6);
    let rows: Vec<usize> = frame.rows.iter().map(|r| r.y).collect();
    assert_eq!(rows, vec![0, 1, 2, 3, 4, 5]);
    assert_eq!(frame.rows[4].text, "e  ");
    assert_eq!(frame.rows[5].text, "q  ");
    assert_eq!(frame.rows[5].style, Style::Bold);
    assert!(frame.rows[..5].iter().all(|r| r.background == Color::Default));
}
