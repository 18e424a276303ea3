use grid_sequencer::sim::glyphs::bitmap_from_char;
use grid_sequencer::sim::{Bitmap, Color, Input, InputState, Position, Rect, UserInterface};

#[test]
fn positions_add_subtract_and_invert() {
    let p = Position::new(3, -2);
    let q = Position::new(-1, 5);
    assert_eq!(p.add(q), Position::new(2, 3));
    assert_eq!(p.add(q).subtract(q), p);
    assert_eq!(p.invert(), Position::new(-3, 2));
    assert_eq!(p.move_to(q), q);
    assert_eq!(Position::origin(), Position::new(0, 0));
}

#[test]
fn clamping_keeps_positions_in_the_rectangle() {
    let rect = Rect::new(4, 3, Position::new(1, 1));
    assert_eq!(Position::new(-5, 9).clamp(&rect), Position::new(1, 3));
    assert_eq!(Position::new(2, 2).clamp(&rect), Position::new(2, 2));
    assert_eq!(Position::new(100, -100).clamp(&rect), Position::new(4, 1));
}

#[test]
fn adjacency_is_difference() {
    let p = Position::new(2, 2);
    assert!(p.is_adjacent(Position::new(3, 3)));
    assert!(!p.is_adjacent(Position::new(2, 2)));
    assert!(p.is_adjacent(Position::new(10, 10)));
}

#[test]
fn rectangles_meet_at_their_edges() {
    let a = Rect::new(2, 2, Position::new(0, 0));
    assert!(a.intersect(&Rect::new(2, 2, Position::new(2, 2))));
    assert!(!a.intersect(&Rect::new(2, 2, Position::new(3, 0))));
    assert!(a.intersect_position(Position::new(2, 0)));
    assert!(!a.intersect_position(Position::new(-1, 0)));
}

#[test]
fn keys_go_down_and_up() {
    let mut keys = InputState::new();
    assert!(!keys.is_key_down(Input::Shift));
    keys.key_down(Input::Shift);
    keys.key_down(Input::Char('a'));
    assert!(keys.is_key_down(Input::Shift));
    assert!(keys.is_key_down(Input::Char('a')));
    assert!(!keys.is_key_down(Input::Char('b')));
    keys.key_up(Input::Shift);
    assert!(!keys.is_key_down(Input::Shift));
    assert_eq!(keys.buffer.len(), 2);
    keys.clear_buffer();
    assert!(keys.buffer.is_empty());
    assert!(keys.is_key_down(Input::Char('a')));
}

#[test]
fn glyphs_come_from_the_font_table() {
    let ascii: Vec<u8> = (0u8..16).collect();
    let unknown = [0xffu8; 8];
    let space = bitmap_from_char(' ', &ascii, &unknown);
    assert_eq!((space.width, space.height), (8, 8));
    assert_eq!(space.data, (0u8..8).collect::<Vec<u8>>());
    let bang = bitmap_from_char('!', &ascii, &unknown);
    assert_eq!(bang.data, (8u8..16).collect::<Vec<u8>>());
    let control = bitmap_from_char('\n', &ascii, &unknown);
    assert_eq!(control.data, unknown.to_vec());
}

#[test]
fn bitmaps_and_colors() {
    let b = Bitmap::new(8, 1, &[0b1010_0000]);
    assert_eq!(b.data, vec![0b1010_0000]);
    let e = Bitmap::empty(16, 2);
    assert_eq!(e.data, vec![0, 0, 0, 0]);
    assert_eq!(Bitmap::empty(7, 3).data, Vec::<u8>::new());
    assert_eq!((e.width, e.height), (16, 2));
    assert_eq!(Color::full(), Color::new(255, 255, 255, 255));
    assert_eq!(Color::empty(), Color::new(0, 0, 0, 0));
}

#[test]
fn the_prompt_follows_the_keys() {
    let mut ui = UserInterface::new();
    assert_eq!(ui.prompt, "please type...");
    assert_eq!(ui.grid_block_size, (8, 8));
    let mut keys = InputState::new();
    keys.key_down(Input::Enter);
    keys.key_down(Input::Char('h'));
    keys.key_down(Input::Char('i'));
    keys.key_down(Input::Shift);
    keys.key_down(Input::Char('!'));
    keys.key_down(Input::Backspace);
    ui.process_input(&keys);
    assert_eq!(ui.prompt, "hi");
    let mut more = InputState::new();
    more.key_down(Input::Backspace);
    more.key_down(Input::Backspace);
    more.key_down(Input::Backspace);
    ui.process_input(&more);
    assert_eq!(ui.prompt, "");
}
