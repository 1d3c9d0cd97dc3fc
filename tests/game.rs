use snake::game::{FAULT_KEY, GROW_KEY};
use snake::{
    get_key, parse_duration_from_millis, Board, BoardItem, Config, ConfigError, Delay, Direction,
    Fault, Game, GameResult, InputFault, Key, Paint,
};

fn config(width: u16, height: u16, len: u8) -> Config {
    Config {
        field_width: width,
        field_height: height,
        initial_snake_len: len,
        frame_delay: Delay { millis: 5 },
        motion_delay: Delay { millis: 60 },
    }
}

fn body(g: &Game) -> Vec<(u16, u16)> {
    g.tail_coords.iter().copied().collect()
}

fn tick(g: &mut Game) -> Result<Option<GameResult>, Fault> {
    g.frame(None, true)
}

#[test]
fn opposite_twice_is_identity() {
    for d in [Direction::Left, Direction::Right, Direction::Up, Direction::Down] {
        assert_eq!(d.opposite().opposite(), d);
        assert_ne!(d.opposite(), d);
    }
    assert_eq!(Direction::Left.opposite(), Direction::Right);
    assert_eq!(Direction::Up.opposite(), Direction::Down);
}

#[test]
fn keys_convert_to_directions() {
    assert_eq!(Direction::from_key(Key::Up), Some(Direction::Up));
    assert_eq!(Direction::from_key(Key::Down), Some(Direction::Down));
    assert_eq!(Direction::from_key(Key::Left), Some(Direction::Left));
    assert_eq!(Direction::from_key(Key::Right), Some(Direction::Right));
    assert_eq!(Direction::from_key(Key::Esc), None);
    assert_eq!(Direction::from_key(Key::Char('x')), None);
    assert_eq!(Direction::from_key(Key::Other), None);
}

#[test]
fn segment_shapes() {
    let (up, down, left, right) = (Direction::Up, Direction::Down, Direction::Left, Direction::Right);
    assert_eq!(BoardItem::from_pair(right, right), BoardItem::Horizontal);
    assert_eq!(BoardItem::from_pair(up, up), BoardItem::Vertical);
    assert_eq!(BoardItem::from_pair(right, down), BoardItem::TopRight);
    assert_eq!(BoardItem::from_pair(up, right), BoardItem::TopLeft);
    assert_eq!(BoardItem::from_pair(down, right), BoardItem::BottomLeft);
    assert_eq!(BoardItem::from_pair(right, up), BoardItem::BottomRight);
    // A reversal still has a shape: the straight piece of its axis.
    assert_eq!(BoardItem::from_pair(up, down), BoardItem::Vertical);
    assert_eq!(BoardItem::from_pair(down, up), BoardItem::Vertical);
    assert_eq!(BoardItem::from_pair(left, right), BoardItem::Horizontal);
    assert_eq!(BoardItem::from_pair(right, left), BoardItem::Horizontal);
}

#[test]
fn segment_shape_is_the_same_walked_backwards() {
    let all = [Direction::Left, Direction::Right, Direction::Up, Direction::Down];
    for a in all {
        for b in all {
            let s = BoardItem::from_pair(a, b);
            assert_eq!(s, BoardItem::from_pair(b.opposite(), a.opposite()));
            assert_ne!(s, BoardItem::Empty);
            assert_ne!(s, BoardItem::Apple);
        }
    }
}

#[test]
fn glyphs() {
    assert_eq!(BoardItem::Empty.glyph(), ' ');
    assert_eq!(BoardItem::Apple.glyph(), 'o');
    assert_eq!(BoardItem::Horizontal.glyph(), '\u{2500}');
    assert_eq!(BoardItem::Vertical.glyph(), '\u{2502}');
    assert_eq!(BoardItem::TopRight.glyph(), '\u{2510}');
    assert_eq!(BoardItem::TopLeft.glyph(), '\u{250C}');
    assert_eq!(BoardItem::BottomLeft.glyph(), '\u{2514}');
    assert_eq!(BoardItem::BottomRight.glyph(), '\u{2518}');
}

#[test]
fn board_set_and_get() {
    let mut b = Board::new((3, 2));
    assert_eq!(b.get_tile((2, 1)), BoardItem::Empty);
    b.set_tile((2, 1), BoardItem::Apple);
    assert_eq!(b.get_tile((2, 1)), BoardItem::Apple);
    assert_eq!(b.get_tile((1, 1)), BoardItem::Empty);
    assert_eq!(b.get_tile((2, 0)), BoardItem::Empty);
    let paints = b.take_paints();
    assert_eq!(paints, vec![Paint { pos: (2, 1), item: BoardItem::Apple }]);
    assert!(b.take_paints().is_empty());
}

#[test]
fn coalesce_empty_drain() {
    assert_eq!(get_key(&vec![]), None);
}

#[test]
fn coalesce_last_key_wins() {
    assert_eq!(get_key(&vec![Ok(Key::Up), Ok(Key::Left)]), Some(Ok(Key::Left)));
    assert_eq!(get_key(&vec![Ok(Key::Left), Ok(Key::Up)]), Some(Ok(Key::Up)));
    assert_eq!(
        get_key(&vec![Ok(Key::Up), Ok(Key::Char('a')), Ok(Key::Down)]),
        Some(Ok(Key::Down))
    );
}

#[test]
fn coalesce_quit_is_never_overridden() {
    assert_eq!(
        get_key(&vec![Ok(Key::Up), Ok(Key::Esc), Ok(Key::Left), Ok(Key::Down)]),
        Some(Ok(Key::Esc))
    );
    assert_eq!(get_key(&vec![Ok(Key::Esc), Err(InputFault)]), Some(Ok(Key::Esc)));
}

#[test]
fn coalesce_fault_ends_drain() {
    assert_eq!(
        get_key(&vec![Ok(Key::Left), Err(InputFault), Ok(Key::Esc)]),
        Some(Err(InputFault))
    );
}

#[test]
fn parse_millis() {
    assert_eq!(parse_duration_from_millis("60"), Ok(Delay { millis: 60 }));
    assert_eq!(parse_duration_from_millis("+5"), Ok(Delay { millis: 5 }));
    assert_eq!(parse_duration_from_millis("0"), Ok(Delay { millis: 0 }));
    assert_eq!(
        parse_duration_from_millis("18446744073709551615"),
        Ok(Delay { millis: u64::MAX })
    );
}

#[test]
fn parse_millis_rejects() {
    for bad in ["", "+", "-1", "abc", "5ms", " 5", "18446744073709551616"] {
        assert_eq!(parse_duration_from_millis(bad), Err(ConfigError::NotMillis), "{bad:?}");
    }
}

#[test]
fn new_rejects_empty_field() {
    assert_eq!(Game::new(&config(0, 10, 1)).err(), Some(ConfigError::ZeroWidth));
    assert_eq!(Game::new(&config(10, 0, 1)).err(), Some(ConfigError::ZeroHeight));
    assert_eq!(Game::new(&config(0, 0, 1)).err(), Some(ConfigError::ZeroWidth));
}

#[test]
fn new_game_layout() {
    let mut g = Game::new(&config(10, 10, 5)).unwrap();
    assert_eq!(g.pos, (5, 5));
    assert_eq!(body(&g), vec![(5, 5)]);
    assert_eq!(g.direction, Direction::Right);
    assert_eq!(g.lengthenings, 4);
    assert_eq!(g.apple_pos, None);
    assert_eq!(g.board.get_tile((5, 5)), BoardItem::Horizontal);
    assert_eq!(g.board.get_tile((4, 5)), BoardItem::Empty);
    assert_eq!(
        g.board.take_paints(),
        vec![Paint { pos: (5, 5), item: BoardItem::Horizontal }]
    );
    assert_eq!(Game::new(&config(10, 10, 0)).unwrap().lengthenings, 0);
}

#[test]
fn motion_wraps_right_edge() {
    let mut g = Game::new(&config(10, 10, 1)).unwrap();
    g.place_apple((0, 0));
    for _ in 0..4 {
        assert_eq!(tick(&mut g), Ok(None));
    }
    assert_eq!(g.pos, (9, 5));
    assert_eq!(tick(&mut g), Ok(None));
    assert_eq!(g.pos, (0, 5));
}

#[test]
fn motion_wraps_top_edge() {
    let mut g = Game::new(&config(3, 3, 1)).unwrap();
    g.place_apple((0, 0));
    assert_eq!(g.frame(Some(Ok(Key::Up)), false), Ok(None));
    assert_eq!(tick(&mut g), Ok(None));
    assert_eq!(g.pos, (1, 0));
    assert_eq!(tick(&mut g), Ok(None));
    assert_eq!(g.pos, (1, 2));
    assert_eq!(body(&g), vec![(1, 2)]);
}

#[test]
fn reversal_is_rejected() {
    let mut g = Game::new(&config(10, 10, 1)).unwrap();
    g.place_apple((0, 0));
    assert_eq!(g.frame(Some(Ok(Key::Left)), false), Ok(None));
    assert_eq!(g.direction, Direction::Left);
    assert_eq!(tick(&mut g), Ok(None));
    assert_eq!(g.direction, Direction::Right);
    assert_eq!(g.pos, (6, 5));
}

#[test]
fn turn_paints_a_corner() {
    let mut g = Game::new(&config(10, 10, 3)).unwrap();
    g.place_apple((0, 0));
    assert_eq!(tick(&mut g), Ok(None));
    assert_eq!(g.frame(Some(Ok(Key::Down)), false), Ok(None));
    assert_eq!(tick(&mut g), Ok(None));
    assert_eq!(g.pos, (6, 6));
    assert_eq!(body(&g), vec![(5, 5), (6, 5), (6, 6)]);
    assert_eq!(g.board.get_tile((5, 5)), BoardItem::Horizontal);
    assert_eq!(g.board.get_tile((6, 5)), BoardItem::TopRight);
    assert_eq!(g.board.get_tile((6, 6)), BoardItem::Vertical);
}

#[test]
fn eating_grows_by_food_growth() {
    let mut g = Game::new(&config(10, 10, 1)).unwrap();
    g.place_apple((6, 5));
    assert_eq!(tick(&mut g), Ok(None));
    assert_eq!(g.pos, (6, 5));
    assert_eq!(body(&g).len(), 2);
    assert_eq!(g.lengthenings, 1);
    let food = g.apple_pos.unwrap();
    assert_ne!(food, (6, 5));
    assert!(!body(&g).contains(&food));
    assert_eq!(g.board.get_tile(food), BoardItem::Apple);
    if food.1 == 5 {
        // Keep the food off the path of the next moves.
        g.place_apple((0, 0));
    }
    assert_eq!(tick(&mut g), Ok(None));
    assert_eq!(body(&g).len(), 3);
    assert_eq!(g.lengthenings, 0);
    assert_eq!(tick(&mut g), Ok(None));
    assert_eq!(body(&g).len(), 3);
    assert_eq!(tick(&mut g), Ok(None));
    assert_eq!(body(&g).len(), 3);
}

#[test]
fn food_lands_on_an_empty_cell() {
    let mut g = Game::new(&config(2, 1, 1)).unwrap();
    g.move_apple();
    assert_eq!(g.apple_pos, Some((0, 0)));
    assert_eq!(g.board.get_tile((0, 0)), BoardItem::Apple);
    assert_eq!(g.board.get_tile((1, 0)), BoardItem::Horizontal);

    let mut g = Game::new(&config(5, 5, 1)).unwrap();
    for _ in 0..50 {
        g.move_apple();
        let food = g.apple_pos.unwrap();
        assert_ne!(food, g.pos);
        assert_eq!(g.board.get_tile(food), BoardItem::Apple);
    }
}

#[test]
fn no_food_on_a_full_board() {
    let mut g = Game::new(&config(1, 1, 1)).unwrap();
    g.move_apple();
    assert_eq!(g.apple_pos, None);
    assert_eq!(g.board.get_tile((0, 0)), BoardItem::Horizontal);
}

#[test]
fn empty_cells_lists_free_cells() {
    let mut g = Game::new(&config(3, 2, 1)).unwrap();
    g.place_apple((0, 0));
    let mut cells = g.empty_cells();
    cells.sort();
    assert_eq!(cells, vec![(0, 1), (1, 0), (2, 0), (2, 1)]);
}

#[test]
fn four_ticks_without_input() {
    let mut g = Game::new(&config(10, 10, 1)).unwrap();
    g.place_apple((0, 0));
    for _ in 0..4 {
        assert_eq!(tick(&mut g), Ok(None));
    }
    assert_eq!(g.pos, (9, 5));
    assert_eq!(body(&g), vec![(9, 5)]);
    assert_eq!(g.last_popped, (8, 5));
}

#[test]
fn quit_wins_over_pending_direction_keys() {
    let mut g = Game::new(&config(10, 10, 1)).unwrap();
    g.place_apple((0, 0));
    let input = get_key(&vec![Ok(Key::Down), Ok(Key::Esc), Ok(Key::Up)]);
    assert_eq!(g.frame(input, false), Ok(Some(GameResult::Quit)));
    assert_eq!(g.direction, Direction::Right);
}

#[test]
fn quit_after_the_move_of_its_frame() {
    let mut g = Game::new(&config(10, 10, 1)).unwrap();
    g.place_apple((0, 0));
    assert_eq!(g.frame(Some(Ok(Key::Esc)), true), Ok(Some(GameResult::Quit)));
    assert_eq!(g.pos, (6, 5));
    assert_eq!(g.last_key, Some(Key::Esc));
}

#[test]
fn tail_follows_the_head() {
    let mut g = Game::new(&config(9, 10, 3)).unwrap();
    g.place_apple((0, 0));
    assert_eq!(tick(&mut g), Ok(None));
    assert_eq!(tick(&mut g), Ok(None));
    assert_eq!(body(&g), vec![(4, 5), (5, 5), (6, 5)]);
    assert_eq!(g.board.get_tile((7, 5)), BoardItem::Empty);
    assert_eq!(tick(&mut g), Ok(None));
    assert_eq!(body(&g), vec![(5, 5), (6, 5), (7, 5)]);
    assert_eq!(g.board.get_tile((4, 5)), BoardItem::Empty);
    assert_eq!(g.board.get_tile((7, 5)), BoardItem::Horizontal);
    assert_eq!(g.last_popped, (4, 5));
}

#[test]
fn running_into_the_body_loses() {
    let mut g = Game::new(&config(10, 10, 5)).unwrap();
    g.place_apple((0, 0));
    for _ in 0..4 {
        assert_eq!(tick(&mut g), Ok(None));
    }
    assert_eq!(body(&g).len(), 5);
    for k in [Key::Down, Key::Left] {
        assert_eq!(g.frame(Some(Ok(k)), false), Ok(None));
        assert_eq!(tick(&mut g), Ok(None));
    }
    assert_eq!(g.pos, (8, 6));
    assert_eq!(g.frame(Some(Ok(Key::Up)), false), Ok(None));
    assert_eq!(tick(&mut g), Ok(Some(GameResult::Lost)));
    assert_eq!(g.pos, (8, 6));
    assert_eq!(body(&g).len(), 5);
}

#[test]
fn input_fault_ends_the_frame_at_once() {
    let mut g = Game::new(&config(10, 10, 1)).unwrap();
    g.place_apple((0, 0));
    assert_eq!(g.frame(Some(Err(InputFault)), true), Err(Fault::Input));
    assert_eq!(g.pos, (5, 5));
    assert_eq!(g.last_key, None);
}

#[test]
fn fault_key_and_grow_key() {
    let mut g = Game::new(&config(10, 10, 1)).unwrap();
    g.place_apple((0, 0));
    assert_eq!(g.frame(Some(Ok(Key::Char(GROW_KEY))), false), Ok(None));
    assert_eq!(g.lengthenings, 1);
    assert_eq!(g.frame(Some(Ok(Key::Char('x'))), false), Ok(None));
    assert_eq!(g.lengthenings, 1);
    assert_eq!(g.frame(Some(Ok(Key::Char(FAULT_KEY))), false), Err(Fault::Requested));
}

#[test]
fn paints_replay_to_the_board() {
    let mut g = Game::new(&config(4, 4, 2)).unwrap();
    g.place_apple((0, 0));
    assert_eq!(tick(&mut g), Ok(None));
    assert_eq!(tick(&mut g), Ok(None));
    let mut surface = vec![vec![BoardItem::Empty; 4]; 4];
    for p in g.board.take_paints() {
        surface[p.pos.0 as usize][p.pos.1 as usize] = p.item;
    }
    for x in 0..4u16 {
        for y in 0..4u16 {
            assert_eq!(surface[x as usize][y as usize], g.board.get_tile((x, y)));
        }
    }
}
