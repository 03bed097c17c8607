use bt::editor::{App, Area};

fn app_with(text: &str) -> App {
    let mut app = App::new(false);
    for ch in text.chars() {
        app.insert_char(ch);
    }
    app
}

fn area(width: u16) -> Area {
    Area { x: 0, y: 0, width, height: 3 }
}

#[test]
fn new_app_is_empty() {
    let app = App::new(true);
    assert_eq!(app.input(), "");
    assert_eq!(app.cursor(), 0);
    assert_eq!(app.output(), "");
    assert_eq!(app.status(), "Enter SQL and press Enter. Ctrl+C to exit.");
    assert!(app.history().is_empty());
    assert_eq!(app.history_index(), None);
    assert!(app.json_output());
    assert!(!App::new(false).json_output());
}

#[test]
fn insert_advances_by_encoded_length() {
    let mut app = App::new(false);
    app.insert_char('a');
    assert_eq!(app.cursor(), 1);
    app.insert_char('é');
    assert_eq!(app.cursor(), 3);
    app.insert_char('日');
    assert_eq!(app.cursor(), 6);
    app.insert_char('😀');
    assert_eq!(app.cursor(), 10);
    assert_eq!(app.input(), "aé日😀");
}

#[test]
fn insert_in_the_middle() {
    let mut app = app_with("ac");
    app.move_left();
    app.insert_char('b');
    assert_eq!(app.input(), "abc");
    assert_eq!(app.cursor(), 2);
}

#[test]
fn cursor_stays_on_boundaries() {
    let mut app = App::new(false);
    let steps: Vec<u8> = vec![0, 1, 2, 5, 5, 3, 0, 5, 4, 6, 1, 7, 3, 3, 8, 2, 5, 6, 4, 4, 0, 7, 5];
    let chars = ['a', 'é', '日', '😀'];
    let mut next = 0;
    for step in steps {
        match step {
            0 | 1 | 2 => {
                app.insert_char(chars[next % chars.len()]);
                next += 1;
            }
            3 => app.backspace(),
            4 => app.delete(),
            5 => app.move_left(),
            6 => app.move_right(),
            7 => app.move_home(),
            _ => app.move_end(),
        }
        assert!(app.input().is_char_boundary(app.cursor()));
        assert!(app.cursor() <= app.input().len());
    }
}

#[test]
fn backspace_removes_the_character_before_the_cursor() {
    let mut app = app_with("aé日");
    app.backspace();
    assert_eq!(app.input(), "aé");
    assert_eq!(app.cursor(), 3);
    app.backspace();
    assert_eq!(app.input(), "a");
    assert_eq!(app.cursor(), 1);
    app.backspace();
    assert_eq!(app.input(), "");
    assert_eq!(app.cursor(), 0);
    app.backspace();
    assert_eq!(app.input(), "");
    assert_eq!(app.cursor(), 0);
}

#[test]
fn delete_removes_the_character_at_the_cursor() {
    let mut app = app_with("aé日");
    app.delete();
    assert_eq!(app.input(), "aé日");
    app.move_home();
    app.move_right();
    app.delete();
    assert_eq!(app.input(), "a日");
    assert_eq!(app.cursor(), 1);
    app.delete();
    assert_eq!(app.input(), "a");
    assert_eq!(app.cursor(), 1);
    app.delete();
    assert_eq!(app.input(), "a");
}

#[test]
fn moves_step_over_whole_characters() {
    let mut app = app_with("a😀é");
    assert_eq!(app.cursor(), 7);
    app.move_right();
    assert_eq!(app.cursor(), 7);
    app.move_left();
    assert_eq!(app.cursor(), 5);
    app.move_left();
    assert_eq!(app.cursor(), 1);
    app.move_left();
    assert_eq!(app.cursor(), 0);
    app.move_left();
    assert_eq!(app.cursor(), 0);
    app.move_right();
    assert_eq!(app.cursor(), 1);
    app.move_right();
    assert_eq!(app.cursor(), 5);
    app.move_home();
    assert_eq!(app.cursor(), 0);
    app.move_end();
    assert_eq!(app.cursor(), 7);
}

#[test]
fn clear_input_empties_the_buffer() {
    let mut app = app_with("select");
    app.clear_input();
    assert_eq!(app.input(), "");
    assert_eq!(app.cursor(), 0);
}

#[test]
fn history_suppresses_repeats() {
    let mut app = App::new(false);
    app.push_history("a");
    app.push_history("a");
    assert_eq!(app.history(), &vec!["a".to_string()]);
}

#[test]
fn history_keeps_order() {
    let mut app = App::new(false);
    app.push_history("a");
    app.push_history("b");
    app.push_history("a");
    assert_eq!(
        app.history(),
        &vec!["a".to_string(), "b".to_string(), "a".to_string()]
    );
}

#[test]
fn history_skips_blank_queries() {
    let mut app = App::new(false);
    app.push_history("");
    app.push_history("   ");
    app.push_history("\t\n");
    assert!(app.history().is_empty());
    app.push_history(" a ");
    assert_eq!(app.history(), &vec![" a ".to_string()]);
}

#[test]
fn push_history_leaves_browsing() {
    let mut app = App::new(false);
    app.push_history("a");
    app.history_prev();
    assert_eq!(app.history_index(), Some(0));
    app.push_history("");
    assert_eq!(app.history_index(), None);
    app.history_prev();
    app.push_history("b");
    assert_eq!(app.history_index(), None);
}

#[test]
fn history_prev_selects_last_and_stops_at_oldest() {
    let mut app = App::new(false);
    app.history_prev();
    assert_eq!(app.history_index(), None);
    assert_eq!(app.input(), "");
    app.push_history("q1");
    app.push_history("qé2");
    app.history_prev();
    assert_eq!(app.history_index(), Some(1));
    assert_eq!(app.input(), "qé2");
    assert_eq!(app.cursor(), 4);
    app.history_prev();
    assert_eq!(app.history_index(), Some(0));
    assert_eq!(app.input(), "q1");
    assert_eq!(app.cursor(), 2);
    app.history_prev();
    assert_eq!(app.history_index(), Some(0));
    assert_eq!(app.input(), "q1");
}

#[test]
fn history_next_returns_to_blank_prompt() {
    let mut app = App::new(false);
    app.push_history("q1");
    app.push_history("q2");
    app.history_next();
    assert_eq!(app.history_index(), None);
    app.history_prev();
    app.history_prev();
    assert_eq!(app.input(), "q1");
    app.history_next();
    assert_eq!(app.history_index(), Some(1));
    assert_eq!(app.input(), "q2");
    assert_eq!(app.cursor(), 2);
    app.history_next();
    assert_eq!(app.history_index(), None);
    assert_eq!(app.input(), "");
    assert_eq!(app.cursor(), 0);
}

#[test]
fn editing_leaves_browsing() {
    let mut app = App::new(false);
    app.push_history("q1");
    app.history_prev();
    app.insert_char('x');
    assert_eq!(app.history_index(), None);
    assert_eq!(app.input(), "q1x");
    app.history_prev();
    app.backspace();
    assert_eq!(app.history_index(), None);
    app.history_prev();
    app.move_home();
    assert_eq!(app.history_index(), Some(0));
    app.delete();
    assert_eq!(app.history_index(), None);
    app.history_prev();
    app.move_left();
    app.move_right();
    app.move_end();
    assert_eq!(app.history_index(), Some(0));
    app.clear_input();
    assert_eq!(app.history_index(), None);
}

#[test]
fn visible_window_shows_short_input_whole() {
    let app = app_with("select 1");
    assert_eq!(app.visible_window(20), ("select 1".to_string(), 8));
    assert_eq!(app.visible_window(8), ("select 1".to_string(), 8));
}

#[test]
fn visible_window_slides_with_the_cursor() {
    let mut app = app_with("hello world");
    assert_eq!(app.visible_window(5), ("world".to_string(), 5));
    app.move_home();
    assert_eq!(app.visible_window(5), ("hello".to_string(), 0));
    app.move_right();
    app.move_right();
    assert_eq!(app.visible_window(5), ("hello".to_string(), 2));
    app.move_end();
    app.move_left();
    assert_eq!(app.visible_window(5), (" worl".to_string(), 5));
}

#[test]
fn visible_window_never_splits_a_character() {
    let app = app_with("ééééé");
    assert_eq!(app.cursor(), 10);
    assert_eq!(app.visible_window(3), ("éé".to_string(), 4));
    assert_eq!(app.visible_window(4), ("éé".to_string(), 4));
    assert_eq!(app.visible_window(1), ("é".to_string(), 2));
    let mut app = app_with("a日本語");
    app.move_home();
    assert_eq!(app.visible_window(2), ("a日".to_string(), 0));
    assert_eq!(app.visible_window(3), ("a日".to_string(), 0));
    assert_eq!(app.visible_window(5), ("a日本".to_string(), 0));
}

#[test]
fn visible_window_holds_the_cursor() {
    let app = app_with("éab");
    assert_eq!(app.cursor(), 4);
    assert_eq!(app.visible_window(3), ("éab".to_string(), 4));
    assert_eq!(app.visible_window(2), ("ab".to_string(), 2));
    let app = app_with("日本語x");
    assert_eq!(app.cursor(), 10);
    assert_eq!(app.visible_window(2), ("語x".to_string(), 4));
    assert_eq!(app.visible_window(8), ("日本語x".to_string(), 10));
    for width in 1..12 {
        let (visible, column) = app.visible_window(width);
        assert!(column <= visible.len());
        assert!(column <= width + 3);
        assert!(visible.len() <= width + 6);
    }
}

#[test]
fn visible_window_of_no_width_is_empty() {
    let app = app_with("select 1");
    assert_eq!(app.visible_window(0), (String::new(), 0));
}

#[test]
fn input_view_leaves_room_for_the_border() {
    let app = app_with("hello world");
    assert_eq!(app.input_view(area(7)), ("world".to_string(), 5));
    assert_eq!(app.input_view(area(40)), ("hello world".to_string(), 11));
    assert_eq!(app.input_view(area(2)), (String::new(), 0));
    assert_eq!(app.input_view(area(1)), (String::new(), 0));
    assert_eq!(app.input_view(area(0)), (String::new(), 0));
    assert_eq!(app.input_view(area(3)), ("d".to_string(), 1));
}

#[test]
fn output_and_status_are_replaced() {
    let mut app = App::new(false);
    app.set_output("rows".to_string());
    app.set_status("OK".to_string());
    assert_eq!(app.output(), "rows");
    assert_eq!(app.status(), "OK");
    app.clear_output();
    assert_eq!(app.output(), "");
    assert_eq!(app.status(), "OK");
}

#[test]
fn cursor_position_lies_inside_the_border() {
    let area = Area { x: 0, y: 10, width: 80, height: 3 };
    assert_eq!(area.cursor_position(0), (1, 11));
    assert_eq!(area.cursor_position(5), (6, 11));
    let far = Area { x: 65000, y: 65535, width: 80, height: 3 };
    assert_eq!(far.cursor_position(534), (65535, 65535));
    assert_eq!(far.cursor_position(535), (65535, 65535));
    assert_eq!(far.cursor_position(1000), (65535, 65535));
}
