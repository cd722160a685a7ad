use amp_motion::application::{Application, Mode};
use amp_motion::buffer::Buffer;
use amp_motion::commands;
use amp_motion::position::Position;
use amp_motion::token::{Category, Token};

fn token(lexeme: &str, category: Category) -> Token {
    Token::new(lexeme.to_string(), category)
}

/// A buffer of one line, tokenized the way the lexer splits it: runs of
/// spaces are whitespace, anything else an identifier.
fn set_up_application(content: &str) -> Application {
    let mut tokens = Vec::new();
    let mut current = String::new();
    let mut in_space = false;
    for c in content.chars() {
        let space = c == ' ';
        if !current.is_empty() && space != in_space {
            let category = if in_space { Category::Whitespace } else { Category::Identifier };
            tokens.push(Token::new(current.clone(), category));
            current.clear();
        }
        in_space = space;
        current.push(c);
    }
    if !current.is_empty() {
        let category = if in_space { Category::Whitespace } else { Category::Identifier };
        tokens.push(Token::new(current, category));
    }
    let buffer = Buffer::new(vec![content.to_string()], tokens);
    Application::new(Some(buffer))
}

fn cursor(app: &Application) -> Position {
    app.buffer.as_ref().unwrap().cursor
}

fn place(app: &mut Application, line: usize, offset: usize) {
    assert!(app.buffer.as_mut().unwrap().move_to(Position::new(line, offset)));
}

#[test]
fn move_to_first_word_of_line_works() {
    let mut app = set_up_application("    amp");
    place(&mut app, 0, 7);
    commands::move_to_first_word_of_line(&mut app);
    assert_eq!(cursor(&app).line, 0);
    assert_eq!(cursor(&app).offset, 4);
}

#[test]
fn move_to_start_of_previous_token_works() {
    let mut app = set_up_application("amp editor");
    place(&mut app, 0, 7);
    commands::move_to_start_of_previous_token(&mut app);
    assert_eq!(cursor(&app).line, 0);
    assert_eq!(cursor(&app).offset, 4);
}

#[test]
fn move_to_start_of_previous_token_skips_whitespace() {
    let mut app = set_up_application("amp editor");
    place(&mut app, 0, 7);
    commands::move_to_start_of_previous_token(&mut app);
    commands::move_to_start_of_previous_token(&mut app);
    assert_eq!(cursor(&app).line, 0);
    assert_eq!(cursor(&app).offset, 0);
}

#[test]
fn move_to_start_of_next_token_works() {
    let mut app = set_up_application("amp editor");
    commands::move_to_start_of_next_token(&mut app);
    assert_eq!(cursor(&app).line, 0);
    assert_eq!(cursor(&app).offset, 4);
}

#[test]
fn move_to_end_of_current_token_works() {
    let mut app = set_up_application("amp editor");
    commands::move_to_end_of_current_token(&mut app);
    assert_eq!(cursor(&app).line, 0);
    assert_eq!(cursor(&app).offset, 2);
}

#[test]
fn append_to_current_token_works() {
    let mut app = set_up_application("amp editor");
    commands::append_to_current_token(&mut app);
    assert_eq!(cursor(&app).line, 0);
    assert_eq!(cursor(&app).offset, 3);
    assert!(matches!(app.mode, Mode::Insert));
}

#[test]
fn append_to_current_token_at_the_end_of_a_word_appends_to_current_word() {
    let mut app = set_up_application("amp editor");
    place(&mut app, 0, 2);
    commands::append_to_current_token(&mut app);
    assert_eq!(cursor(&app).line, 0);
    assert_eq!(cursor(&app).offset, 3);
    assert!(matches!(app.mode, Mode::Insert));
}

#[test]
fn commands_without_a_buffer_do_nothing_but_switch_mode() {
    let mut app = Application::new(None);
    commands::move_up(&mut app);
    commands::move_down(&mut app);
    commands::move_left(&mut app);
    commands::move_right(&mut app);
    commands::move_to_start_of_line(&mut app);
    commands::move_to_end_of_line(&mut app);
    commands::move_to_first_word_of_line(&mut app);
    commands::move_to_start_of_next_token(&mut app);
    commands::move_to_start_of_previous_token(&mut app);
    commands::move_to_end_of_current_token(&mut app);
    assert!(app.buffer.is_none());
    assert_eq!(app.mode, Mode::Normal);
    commands::append_to_current_token(&mut app);
    assert!(app.buffer.is_none());
    assert_eq!(app.mode, Mode::Insert);
}

#[test]
fn next_token_stops_at_the_end_of_the_buffer() {
    let mut app = set_up_application("amp editor");
    place(&mut app, 0, 5);
    commands::move_to_start_of_next_token(&mut app);
    assert_eq!(cursor(&app), Position::new(0, 5));
}

#[test]
fn previous_token_at_the_start_stays_put() {
    let mut app = set_up_application("amp editor");
    commands::move_to_start_of_previous_token(&mut app);
    assert_eq!(cursor(&app), Position::new(0, 0));
}

#[test]
fn repeated_next_token_moves_forward_until_it_stops() {
    let mut app = set_up_application("a bc  def g");
    let mut seen = vec![cursor(&app)];
    for _ in 0..6 {
        commands::move_to_start_of_next_token(&mut app);
        let now = cursor(&app);
        let last = *seen.last().unwrap();
        assert!(now.line > last.line || (now.line == last.line && now.offset >= last.offset));
        seen.push(now);
    }
    let offsets: Vec<usize> = seen.iter().map(|p| p.offset).collect();
    assert_eq!(offsets, vec![0, 2, 6, 10, 10, 10, 10]);
}

#[test]
fn repeated_previous_token_moves_backward_until_it_stops() {
    let mut app = set_up_application("a bc  def g");
    place(&mut app, 0, 11);
    let mut offsets = vec![cursor(&app).offset];
    for _ in 0..5 {
        commands::move_to_start_of_previous_token(&mut app);
        offsets.push(cursor(&app).offset);
    }
    assert_eq!(offsets, vec![11, 10, 6, 2, 0, 0]);
}

#[test]
fn multi_line_token_advances_line_and_offset() {
    let tokens = vec![
        token("/* a\nbc */", Category::Comment),
        token(" ", Category::Whitespace),
        token("x", Category::Identifier),
    ];
    let buffer = Buffer::new(vec!["/* a".to_string(), "bc */ x".to_string()], tokens);
    let mut app = Application::new(Some(buffer));
    commands::move_to_start_of_next_token(&mut app);
    assert_eq!(cursor(&app), Position::new(1, 6));
    commands::move_to_start_of_previous_token(&mut app);
    assert_eq!(cursor(&app), Position::new(0, 0));
}

#[test]
fn end_of_token_before_a_line_start_goes_to_the_previous_line_end() {
    let tokens = vec![token("ab\n", Category::Identifier), token("cd", Category::Identifier)];
    let buffer = Buffer::new(vec!["ab".to_string(), "cd".to_string()], tokens);
    let mut app = Application::new(Some(buffer));
    commands::move_to_end_of_current_token(&mut app);
    assert_eq!(cursor(&app), Position::new(0, 2));
}

#[test]
fn first_word_on_a_blank_line_stays_put() {
    let mut app = set_up_application("    ");
    place(&mut app, 0, 2);
    commands::move_to_first_word_of_line(&mut app);
    assert_eq!(cursor(&app), Position::new(0, 2));
}

#[test]
fn first_word_treats_tabs_as_whitespace() {
    let buffer = Buffer::new(vec!["\t\u{3000}x".to_string()], vec![]);
    let mut app = Application::new(Some(buffer));
    commands::move_to_end_of_line(&mut app);
    assert_eq!(cursor(&app), Position::new(0, 3));
    commands::move_to_first_word_of_line(&mut app);
    assert_eq!(cursor(&app), Position::new(0, 2));
}

#[test]
fn primitive_motions_stay_in_bounds() {
    let buffer = Buffer::new(vec!["abcd".to_string(), "x".to_string()], vec![]);
    let mut app = Application::new(Some(buffer));
    commands::move_left(&mut app);
    commands::move_up(&mut app);
    assert_eq!(cursor(&app), Position::new(0, 0));
    commands::move_right(&mut app);
    commands::move_right(&mut app);
    commands::move_right(&mut app);
    assert_eq!(cursor(&app), Position::new(0, 3));
    commands::move_down(&mut app);
    assert_eq!(cursor(&app), Position::new(1, 1));
    commands::move_down(&mut app);
    commands::move_right(&mut app);
    assert_eq!(cursor(&app), Position::new(1, 1));
    commands::move_to_start_of_line(&mut app);
    assert_eq!(cursor(&app), Position::new(1, 0));
    commands::move_up(&mut app);
    commands::move_to_end_of_line(&mut app);
    assert_eq!(cursor(&app), Position::new(0, 4));
}

#[test]
fn insert_commands_enter_insert_mode() {
    let mut app = set_up_application("  amp");
    commands::insert_at_first_word_of_line(&mut app);
    assert_eq!(cursor(&app), Position::new(0, 2));
    assert_eq!(app.mode, Mode::Insert);
    let mut app = set_up_application("  amp");
    commands::insert_at_end_of_line(&mut app);
    assert_eq!(cursor(&app), Position::new(0, 5));
    assert_eq!(app.mode, Mode::Insert);
}

#[test]
fn insert_with_newline_opens_a_line_below() {
    let mut app = set_up_application("amp editor");
    place(&mut app, 0, 3);
    commands::insert_with_newline(&mut app);
    let buffer = app.buffer.as_ref().unwrap();
    assert_eq!(buffer.lines, vec!["amp editor".to_string(), String::new()]);
    assert_eq!(buffer.cursor, Position::new(1, 0));
    assert_eq!(buffer.command_groups, vec![Position::new(0, 10)]);
    assert!(buffer.tokens.is_empty());
    assert_eq!(app.mode, Mode::Insert);
}

#[test]
fn insert_newline_splits_the_line_at_the_cursor() {
    let mut buffer = Buffer::new(vec!["amp editor".to_string()], vec![]);
    assert!(buffer.move_to(Position::new(0, 3)));
    buffer.insert_newline();
    assert_eq!(buffer.lines, vec!["amp".to_string(), " editor".to_string()]);
    assert_eq!(buffer.cursor, Position::new(1, 0));
}

#[test]
fn move_to_outside_the_text_is_refused() {
    let mut buffer = Buffer::new(vec!["amp".to_string()], vec![]);
    assert!(!buffer.move_to(Position::new(0, 4)));
    assert!(!buffer.move_to(Position::new(1, 0)));
    assert_eq!(buffer.cursor, Position::new(0, 0));
}

#[test]
fn white_space_matches_std() {
    for c in (0u32..=0x10FFFF).filter_map(char::from_u32) {
        assert_eq!(amp_motion::buffer::is_white_space(c), c.is_whitespace(), "{:?}", c);
    }
}
