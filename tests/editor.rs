use stream_editor::popup::{Popup, PopupItem};
use stream_editor::stream::{
    clamp_cursor, command_for, Command, KeyEvent, MenuAction, Stream, TextBox,
};

fn track_frame(row: u16, length: usize, cursor: u16) -> String {
    format!(
        "\x1b[2J\x1b[{};5H{}>\x1b[{};{}H",
        row,
        "-".repeat(length - 1),
        row,
        5 + cursor
    )
}

fn add_menu_frame(col: u16, row: u16, index: u16) -> String {
    format!(
        "\x1b[{r};{c}H\u{256d}{bar}\u{256e}\
         \x1b[{r1};{c}H\u{2502}  Box   \u{2502}\
         \x1b[{r2};{c}H\u{2502} Branch \u{2502}\
         \x1b[{r3};{c}H\u{2502} Other  \u{2502}\
         \x1b[{r4};{c}H\u{2570}{bar}\u{256f}\
         \x1b[{ri};{c}H",
        r = row,
        r1 = row + 1,
        r2 = row + 2,
        r3 = row + 3,
        r4 = row + 4,
        ri = row + index + 1,
        c = col,
        bar = "\u{2500}".repeat(8)
    )
}

fn press(s: &mut Stream, key: KeyEvent) -> bool {
    s.handle_key(key)
}

#[test]
fn initial_geometry_and_frame() {
    let s = Stream::new((80, 24));
    assert_eq!(s.length(), 70);
    assert_eq!(s.row(), 12);
    assert_eq!(s.cursor(), 0);
    assert!(s.popup().is_none());
    assert_eq!(s.boxes_len(), 0);
    let frame = s.render();
    assert_eq!(frame, track_frame(12, 70, 0));
    assert!(frame.contains(&format!("{}>", "-".repeat(69))));
    assert!(frame.ends_with("\x1b[12;5H"));
}

#[test]
fn add_key_opens_menu_at_cursor() {
    let mut s = Stream::new((80, 24));
    assert!(press(&mut s, KeyEvent::Char('a')));
    let p = s.popup().unwrap();
    assert_eq!(p.index, 0);
    let names: Vec<&str> = p.items.iter().map(|i| i.name()).collect();
    assert_eq!(names, vec!["Box", "Branch", "Other"]);
    let expected = track_frame(12, 70, 0) + &add_menu_frame(5, 12, 0);
    assert_eq!(s.render(), expected);
}

#[test]
fn menu_drawn_at_moved_cursor() {
    let mut s = Stream::new((80, 24));
    for _ in 0..3 {
        press(&mut s, KeyEvent::Right);
    }
    press(&mut s, KeyEvent::Char('a'));
    press(&mut s, KeyEvent::Down);
    let expected = track_frame(12, 70, 3) + &add_menu_frame(8, 12, 1);
    assert_eq!(s.render(), expected);
}

#[test]
fn tab_moves_forward_with_wrap() {
    let mut s = Stream::new((80, 24));
    press(&mut s, KeyEvent::Char('a'));
    let mut seen = Vec::new();
    for _ in 0..5 {
        press(&mut s, KeyEvent::Char('\t'));
        seen.push(s.popup().unwrap().index);
    }
    assert_eq!(seen, vec![1, 2, 0, 1, 2]);
}

#[test]
fn up_from_first_wraps_to_last() {
    let mut s = Stream::new((80, 24));
    press(&mut s, KeyEvent::Char('a'));
    press(&mut s, KeyEvent::Up);
    assert_eq!(s.popup().unwrap().index, 2);
    press(&mut s, KeyEvent::BackTab);
    assert_eq!(s.popup().unwrap().index, 1);
}

#[test]
fn cursor_clamped_then_moved_back() {
    let mut s = Stream::new((80, 24));
    for _ in 0..200 {
        press(&mut s, KeyEvent::Char('l'));
    }
    assert_eq!(s.cursor(), 70);
    for _ in 0..5 {
        press(&mut s, KeyEvent::Char('h'));
    }
    assert_eq!(s.cursor(), 65);
}

#[test]
fn cursor_never_below_zero() {
    let mut s = Stream::new((80, 24));
    press(&mut s, KeyEvent::Left);
    press(&mut s, KeyEvent::Char('h'));
    assert_eq!(s.cursor(), 0);
    press(&mut s, KeyEvent::Right);
    assert_eq!(s.cursor(), 1);
}

#[test]
fn zero_length_track_keeps_cursor_at_zero() {
    let mut s = Stream::new((10, 3));
    assert_eq!(s.length(), 0);
    assert_eq!(s.row(), 1);
    press(&mut s, KeyEvent::Right);
    assert_eq!(s.cursor(), 0);
    press(&mut s, KeyEvent::Left);
    assert_eq!(s.cursor(), 0);
}

#[test]
fn mixed_key_sequence_stays_in_range() {
    let mut s = Stream::new((20, 10));
    let keys = [
        KeyEvent::Right,
        KeyEvent::Char('a'),
        KeyEvent::Up,
        KeyEvent::Up,
        KeyEvent::Up,
        KeyEvent::Up,
        KeyEvent::Left,
        KeyEvent::Left,
        KeyEvent::Down,
        KeyEvent::Right,
    ];
    for k in keys {
        press(&mut s, k);
        assert!(s.cursor() <= s.length());
        if let Some(p) = s.popup() {
            assert!(p.index < p.items.len());
        }
    }
    assert_eq!(s.cursor(), 1);
    assert_eq!(s.popup().unwrap().index, 0);
}

#[test]
fn esc_closes_popup_or_does_nothing() {
    let mut s = Stream::new((80, 24));
    press(&mut s, KeyEvent::Esc);
    assert!(s.popup().is_none());
    press(&mut s, KeyEvent::Char('a'));
    assert!(s.popup().is_some());
    press(&mut s, KeyEvent::Esc);
    assert!(s.popup().is_none());
    s.toggle_add_popup();
    s.dismiss_popup();
    assert!(s.popup().is_none());
}

#[test]
fn reopening_menu_resets_highlight() {
    let mut s = Stream::new((80, 24));
    press(&mut s, KeyEvent::Char('a'));
    press(&mut s, KeyEvent::Down);
    press(&mut s, KeyEvent::Down);
    assert_eq!(s.popup().unwrap().index, 2);
    press(&mut s, KeyEvent::Char('a'));
    let p = s.popup().unwrap();
    assert_eq!(p.index, 0);
    assert_eq!(p.items.len(), 3);
}

#[test]
fn rendering_twice_gives_same_text() {
    let mut s = Stream::new((80, 24));
    press(&mut s, KeyEvent::Right);
    press(&mut s, KeyEvent::Char('a'));
    let first = s.render();
    let second = s.render();
    assert_eq!(first, second);
}

#[test]
fn quit_keys_stop_the_loop() {
    let mut s = Stream::new((80, 24));
    assert!(!press(&mut s, KeyEvent::Char('q')));
    assert!(!press(&mut s, KeyEvent::Ctrl('c')));
    assert!(press(&mut s, KeyEvent::Char('x')));
    assert!(press(&mut s, KeyEvent::Ctrl('d')));
    assert!(press(&mut s, KeyEvent::Other));
}

#[test]
fn key_bindings() {
    assert_eq!(command_for(KeyEvent::Char('q')), Command::Quit);
    assert_eq!(command_for(KeyEvent::Ctrl('c')), Command::Quit);
    assert_eq!(command_for(KeyEvent::Right), Command::CursorRight);
    assert_eq!(command_for(KeyEvent::Char('l')), Command::CursorRight);
    assert_eq!(command_for(KeyEvent::Left), Command::CursorLeft);
    assert_eq!(command_for(KeyEvent::Char('h')), Command::CursorLeft);
    assert_eq!(command_for(KeyEvent::Char('a')), Command::OpenMenu);
    assert_eq!(command_for(KeyEvent::Down), Command::HighlightForward);
    assert_eq!(command_for(KeyEvent::Char('\t')), Command::HighlightForward);
    assert_eq!(command_for(KeyEvent::Up), Command::HighlightBackward);
    assert_eq!(command_for(KeyEvent::BackTab), Command::HighlightBackward);
    assert_eq!(command_for(KeyEvent::Esc), Command::Dismiss);
    assert_eq!(command_for(KeyEvent::Char('\n')), Command::Select);
    assert_eq!(command_for(KeyEvent::Char('z')), Command::Ignore);
}

#[test]
fn selection_names_highlighted_item() {
    let mut s = Stream::new((80, 24));
    press(&mut s, KeyEvent::Char('a'));
    assert_eq!(s.select_popup_value(), MenuAction::AddBox);
    press(&mut s, KeyEvent::Down);
    assert_eq!(s.select_popup_value(), MenuAction::AddBranch);
    press(&mut s, KeyEvent::Down);
    assert_eq!(s.select_popup_value(), MenuAction::AddOther);
    assert!(press(&mut s, KeyEvent::Char('\n')));
    assert_eq!(s.popup().unwrap().index, 2);
    assert_eq!(s.cursor(), 0);
}

#[test]
fn enter_without_popup_is_ignored() {
    let mut s = Stream::new((80, 24));
    assert!(press(&mut s, KeyEvent::Char('\n')));
    assert!(s.popup().is_none());
}

#[test]
fn clamp_cursor_values() {
    assert_eq!(clamp_cursor(-1, 70), 0);
    assert_eq!(clamp_cursor(0, 70), 0);
    assert_eq!(clamp_cursor(35, 70), 35);
    assert_eq!(clamp_cursor(71, 70), 70);
    assert_eq!(clamp_cursor(5, 0), 0);
}

fn popup_of(names: &[&str]) -> Popup {
    Popup::new(names.iter().map(|n| PopupItem::new(n.to_string())).collect())
}

#[test]
fn popup_width_is_longest_name_plus_two() {
    assert_eq!(popup_of(&["Box", "Branch", "Other"]).get_max_width(), 8);
    assert_eq!(popup_of(&["a"]).get_max_width(), 3);
    assert_eq!(popup_of(&[]).get_max_width(), 3);
}

#[test]
fn popup_moves_wrap_in_both_directions() {
    let mut p = popup_of(&["x", "y", "z", "w"]);
    p.down();
    assert_eq!(p.index, 3);
    p.up();
    assert_eq!(p.index, 0);
    p.up();
    p.up();
    assert_eq!(p.index, 2);
    let mut single = popup_of(&["only"]);
    single.down();
    assert_eq!(single.index, 0);
    single.up();
    assert_eq!(single.index, 0);
}

#[test]
fn popup_render_centres_names() {
    let mut p = popup_of(&["ab", "abcd"]);
    p.up();
    let expected = "\x1b[1;2H\u{256d}\u{2500}\u{2500}\u{2500}\u{2500}\u{2500}\u{2500}\u{256e}\
                    \x1b[2;2H\u{2502}  ab  \u{2502}\
                    \x1b[3;2H\u{2502} abcd \u{2502}\
                    \x1b[4;2H\u{2570}\u{2500}\u{2500}\u{2500}\u{2500}\u{2500}\u{2500}\u{256f}\
                    \x1b[3;2H";
    assert_eq!(p.render((2, 1)), expected);
}

#[test]
fn empty_popup_render() {
    let p = popup_of(&[]);
    let expected = "\x1b[7;9H\u{256d}\u{2500}\u{2500}\u{2500}\u{256e}\
                    \x1b[8;9H\u{2570}\u{2500}\u{2500}\u{2500}\u{256f}\
                    \x1b[8;9H";
    assert_eq!(p.render((9, 7)), expected);
}

#[test]
fn box_heights() {
    assert_eq!(TextBox::new("short".to_string(), 0).get_height(), 0);
    assert_eq!(TextBox::new("exactly10!".to_string(), 1).get_height(), 1);
    assert_eq!(TextBox::new("x".repeat(25), 2).get_height(), 2);
    let mut s = Stream::new((80, 24));
    assert_eq!(s.max_box_height(), 1);
    s.add_box(TextBox::new("x".repeat(35), 0));
    s.add_box(TextBox::new("y".repeat(12), 1));
    assert_eq!(s.boxes_len(), 2);
    assert_eq!(s.max_box_height(), 3);
    let mut t = Stream::new((80, 24));
    t.add_box(TextBox::new("tiny".to_string(), 0));
    assert_eq!(t.max_box_height(), 0);
}

#[test]
fn wide_terminal_row_numbers() {
    let s = Stream::new((300, 101));
    assert_eq!(s.length(), 290);
    assert_eq!(s.row(), 50);
    assert_eq!(s.render(), track_frame(50, 290, 0));
}

#[test]
fn menu_popup_up_and_down_directly() {
    let mut p = popup_of(&["Box", "Branch", "Other"]);
    let mut seen = Vec::new();
    for _ in 0..5 {
        p.up();
        seen.push(p.index);
    }
    assert_eq!(seen, vec![1, 2, 0, 1, 2]);
    let mut q = popup_of(&["Box", "Branch", "Other"]);
    q.down();
    assert_eq!(q.index, 2);
}
