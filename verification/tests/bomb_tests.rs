use tetris::block::{Color, Square};
use tetris::bomb::{Bomb, Point};
use tetris::constants::{BOARD_HEIGHT, BOARD_WIDTH, CELL, ENTRY_POINT, PIXEL};

fn black() -> Color {
    Color::new(0, 0, 0, 255)
}

#[test]
fn bomb_starts_at_the_entry_point() {
    let bomb = Bomb::new(32);
    assert_eq!(bomb.pos, Point { x: 2100, y: 2100 });
    assert_eq!(bomb.pos.x, ENTRY_POINT.0);
    assert_eq!(bomb.height, 32 * PIXEL);
    assert_eq!(Bomb::new(0).height, 0);
    assert_eq!(Bomb::new(u16::MAX).height, 65535 * 60);
}

#[test]
fn bomb_translate_accumulates() {
    let mut bomb = Bomb::new(32);
    bomb.translate(CELL, 112);
    bomb.translate(-2 * CELL, 112);
    assert_eq!(bomb.pos, Point { x: 0, y: 2324 });
    assert_eq!(bomb.height, 1920);
}

#[test]
fn bomb_is_free_at_the_entry_point() {
    let mut bomb = Bomb::new(32);
    assert!(!bomb.will_collide(&Vec::new(), 0, 0));
    assert!(!bomb.will_collide(&Vec::new(), 0, 112));
    bomb.translate(0, 10 * CELL);
    assert!(!bomb.will_collide(&vec![Square::new(3, 0, black())], 0, 0));
}

#[test]
fn bomb_stops_at_the_side_edges() {
    let mut bomb = Bomb::new(32);
    assert!(bomb.will_collide(&Vec::new(), -1, 0));
    assert!(bomb.will_collide(&Vec::new(), -CELL, 0));
    bomb.translate(BOARD_WIDTH - ENTRY_POINT.0, 0);
    assert_eq!(bomb.pos.x, BOARD_WIDTH);
    assert!(!bomb.will_collide(&Vec::new(), 0, 0));
    assert!(bomb.will_collide(&Vec::new(), 1, 0));
}

#[test]
fn bomb_hits_the_settled_cell_it_would_be_in() {
    let bomb = Bomb::new(32);
    // at the entry point the bomb is in row 0, column 0
    assert!(bomb.will_collide(&vec![Square::new(0, 0, black())], 0, 0));
    assert!(!bomb.will_collide(&vec![Square::new(0, 1, black())], 0, 0));
    assert!(bomb.will_collide(&vec![Square::new(0, 1, black())], CELL, 0));
    // falling by half a cell takes it to row 1
    assert!(!bomb.will_collide(&vec![Square::new(1, 0, black())], 0, 1049));
    assert!(bomb.will_collide(&vec![Square::new(1, 0, black())], 0, 1050));
    assert!(!bomb.will_collide(&vec![Square::new(0, 0, black())], 0, 1050));
}

#[test]
fn bomb_rests_on_a_cell_below_it() {
    let mut bomb = Bomb::new(35);
    bomb.translate(0, 4 * CELL);
    assert_eq!(bomb.pos.y, 5 * CELL);
    // the bomb is in row 4; it reaches from the top of window row 5 to its bottom
    assert!(bomb.will_collide(&vec![Square::new(5, 0, black())], 0, 0));
    assert!(!bomb.will_collide(&vec![Square::new(5, 1, black())], 0, 0));
    assert!(!bomb.will_collide(&vec![Square::new(6, 0, black())], 0, 0));
    // a lower picture does not reach
    let mut low = Bomb::new(34);
    low.translate(0, 4 * CELL);
    assert!(!low.will_collide(&vec![Square::new(5, 0, black())], 0, 0));
}

#[test]
fn bomb_stops_at_the_bottom() {
    let mut bomb = Bomb::new(35);
    bomb.translate(0, BOARD_HEIGHT - ENTRY_POINT.1);
    assert_eq!(bomb.pos.y + bomb.height, BOARD_HEIGHT + ENTRY_POINT.0);
    assert!(!bomb.will_collide(&Vec::new(), 0, 0));
    bomb.translate(0, 1);
    assert!(bomb.will_collide(&Vec::new(), 0, 0));
}

#[test]
fn bomb_explodes_around_its_cell() {
    let mut bomb = Bomb::new(32);
    assert_eq!(bomb.explode(), (0, 0));
    bomb.translate(2 * CELL, 4 * CELL);
    assert_eq!(bomb.explode(), (4, 2));
    bomb.translate(1049, 1050);
    assert_eq!(bomb.explode(), (5, 2));
    // exploding leaves the bomb as it is
    assert_eq!(bomb.pos, Point { x: 3 * CELL + 1049, y: 5 * CELL + 1050 });
}
