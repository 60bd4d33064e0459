use crossterm::style::Stylize;
use snakecli::model::{
    GameStatus, HostSideData, Playground, PlaygroundChanges, SessionError, SnakeBody,
};
use snakecli::server::functions::{
    add_food, generate_head_location, loose, render_view, snake_status_check, start,
    can_start, update_playground, user_display_generator,
};

const HOST_FOODS: [char; 7] = ['1', '2', '3', '5', '7', '8', '9'];

fn changes(
    x: Vec<(u16, u16)>,
    o: Vec<(u16, u16)>,
    remove: Vec<(u16, u16)>,
    food: Vec<((u16, u16), char)>,
) -> PlaygroundChanges {
    PlaygroundChanges { change_to_x: x, change_to_o: o, remove_char: remove, add_food: food }
}

fn host_data() -> HostSideData {
    HostSideData { display_data: String::new(), status: GameStatus::Alive, len: 2 }
}

fn fill(pg: &mut Playground, c: char) {
    for x in 0..pg.width() {
        for y in 0..pg.height() {
            pg.set(x, y, c);
        }
    }
}

#[test]
fn update_playground_applies_in_order() {
    let mut pg = Playground::new(5, 5);
    pg.set(1, 1, 'O');
    pg.set(4, 4, '7');
    let ch = changes(
        vec![(2, 2)],
        vec![(1, 2)],
        vec![(1, 1), (2, 2)],
        vec![((3, 3), '5'), ((3, 3), '9')],
    );
    update_playground(&mut pg, &ch);
    assert_eq!(pg.get(1, 1), ' ');
    assert_eq!(pg.get(2, 2), 'X');
    assert_eq!(pg.get(1, 2), 'O');
    assert_eq!(pg.get(3, 3), '9');
    assert_eq!(pg.get(4, 4), '7');
    assert_eq!(pg.get(0, 0), ' ');
}

#[test]
fn loose_keeps_crashed_head() {
    let mut s = SnakeBody { len: 3, pieces: vec![(1, 1), (1, 2), (1, 3)], movement_adder: (0, 1) };
    let ch = changes(vec![(1, 4)], vec![(1, 3)], vec![(0, 9)], vec![((5, 5), '3')]);
    let r = loose(&mut s, ch, &SessionError::Lost);
    assert_eq!(r.remove_char, vec![(0, 9), (1, 1), (1, 2)]);
    assert!(r.change_to_x.is_empty());
    assert!(r.change_to_o.is_empty());
    assert_eq!(r.add_food, vec![((5, 5), '3')]);
    assert!(s.pieces.is_empty());
}

#[test]
fn loose_after_escape_clears_whole_snake() {
    let mut s = SnakeBody { len: 2, pieces: vec![(1, 1), (1, 2)], movement_adder: (0, 1) };
    let ch = changes(vec![], vec![], vec![], vec![]);
    let r = loose(&mut s, ch, &SessionError::Escaped);
    assert_eq!(r.remove_char, vec![(1, 1), (1, 2)]);
    let mut s2 = SnakeBody { len: 2, pieces: vec![(3, 3)], movement_adder: (0, 1) };
    let r2 = loose(&mut s2, changes(vec![], vec![], vec![], vec![]), &SessionError::Io("x".to_string()));
    assert_eq!(r2.remove_char, vec![(3, 3)]);
}

#[test]
fn add_food_prefers_blank_corner() {
    let mut pg = Playground::new(6, 6);
    let r = add_food(&mut pg);
    assert_eq!(r.len(), 1);
    assert_eq!(r[0].0, (0, 0));
    assert!(HOST_FOODS.contains(&r[0].1));
    assert_eq!(pg.get(0, 0), r[0].1);
}

#[test]
fn add_food_finds_the_only_blank_cell() {
    let mut pg = Playground::new(6, 6);
    fill(&mut pg, '#');
    pg.set(3, 2, ' ');
    pg.set(5, 5, ' ');
    let r = add_food(&mut pg);
    assert_eq!(r.len(), 1);
    assert_eq!(r[0].0, (3, 2));
    assert!(HOST_FOODS.contains(&pg.get(3, 2)));
    assert_eq!(pg.get(5, 5), ' ');
}

#[test]
fn add_food_on_full_playground_adds_nothing() {
    let mut pg = Playground::new(6, 6);
    fill(&mut pg, 'O');
    let r = add_food(&mut pg);
    assert!(r.is_empty());
    assert_eq!(pg.get(2, 2), 'O');
}

#[test]
fn start_builds_walls_and_foods() {
    let mut pg = Playground::new(20, 10);
    start(&mut pg);
    for x in 0..20 {
        assert_eq!(pg.get(x, 0), '#');
        assert_eq!(pg.get(x, 9), '#');
    }
    for y in 0..10 {
        assert_eq!(pg.get(0, y), '#');
        assert_eq!(pg.get(19, y), '#');
    }
    let mut foods = 0;
    for x in 1..19 {
        for y in 1..9 {
            let c = pg.get(x, y);
            if c != ' ' {
                assert!(HOST_FOODS.contains(&c));
                foods += 1;
            }
        }
    }
    assert_eq!(foods, 2);
}

#[test]
fn snake_status_check_obstacle_loses() {
    let mut pg = Playground::new(5, 5);
    pg.set(2, 2, '#');
    let mut host = host_data();
    let mut s = SnakeBody { len: 2, pieces: vec![(2, 3), (2, 2)], movement_adder: (0, -1) };
    let mut ch = changes(vec![(2, 2)], vec![(2, 3)], vec![(2, 4)], vec![]);
    let r = snake_status_check(&mut host, &pg, &mut s, &mut ch);
    assert!(matches!(r, Err(SessionError::Lost)));
    match host.status {
        GameStatus::Dead(m) => assert_eq!(m, "YOU LOST :("),
        GameStatus::Alive => panic!("the snake should be dead"),
    }
    assert_eq!(s.len, 2);
}

#[test]
fn snake_status_check_food_grows_and_draws_new_food() {
    let mut pg = Playground::new(6, 6);
    pg.set(0, 0, '#');
    pg.set(2, 2, '3');
    let mut host = host_data();
    let mut s = SnakeBody { len: 2, pieces: vec![(2, 3), (2, 2)], movement_adder: (0, -1) };
    let mut ch = changes(vec![(2, 2)], vec![(2, 3)], vec![(2, 4)], vec![]);
    let r = snake_status_check(&mut host, &pg, &mut s, &mut ch);
    assert!(r.is_ok());
    assert_eq!(s.len, 5);
    assert_eq!(s.pieces, vec![(2, 3), (2, 3), (2, 3), (2, 3), (2, 2)]);
    assert_eq!(ch.add_food.len(), 1);
    let ((fx, fy), f) = ch.add_food[0];
    assert!(fx >= 1 && fx <= 4 && fy >= 1 && fy <= 4);
    assert_eq!(pg.get(fx as usize, fy as usize), ' ');
    assert!(HOST_FOODS.contains(&f));
    assert!(matches!(host.status, GameStatus::Alive));
}

#[test]
fn snake_status_check_blank_changes_nothing() {
    let pg = Playground::new(5, 5);
    let mut host = host_data();
    let mut s = SnakeBody { len: 2, pieces: vec![(2, 3), (2, 2)], movement_adder: (0, -1) };
    let mut ch = changes(vec![(2, 2)], vec![(2, 3)], vec![(2, 4)], vec![]);
    assert!(snake_status_check(&mut host, &pg, &mut s, &mut ch).is_ok());
    assert_eq!(s.len, 2);
    assert!(ch.add_food.is_empty());
}

#[test]
fn generate_head_location_stays_inside_walls() {
    for _ in 0..200 {
        let (x, y) = generate_head_location((5, 4));
        assert!(1 <= x && x <= 3);
        assert!(1 <= y && y <= 2);
    }
}

#[test]
fn render_view_writes_marks() {
    let mut pg = Playground::new(4, 2);
    pg.set(1, 0, 'X');
    pg.set(2, 0, 'X');
    pg.set(3, 1, '5');
    let out = render_view(&pg, (1, 0), (1, 0), (3, 2), &"H".to_string(), &"B".to_string());
    assert_eq!(out, "HB   5");
}

#[test]
fn render_view_pads_wide_terminal() {
    let pg = Playground::new(2, 1);
    let out = render_view(&pg, (0, 0), (0, 0), (4, 1), &"H".to_string(), &"B".to_string());
    assert_eq!(out, "    ");
}

#[test]
fn user_display_generator_marks_own_head() {
    let mut pg = Playground::new(10, 8);
    pg.set(4, 3, 'X');
    pg.set(3, 3, 'O');
    pg.set(2, 3, 'X');
    let mut cv = (0, 0);
    let data = user_display_generator(&pg, &(4, 3), &mut cv, &(5, 4));
    assert_eq!(cv, (0, 0));
    let head = 'X'.dark_green().to_string();
    let body = 'X'.red().to_string();
    let expected = format!("{}  {}O{}", " ".repeat(15), body, head);
    assert_eq!(data, expected);
    assert!(data.contains('\u{1b}'));
}

#[test]
fn user_display_generator_scrolls_with_head() {
    let mut pg = Playground::new(10, 8);
    pg.set(8, 3, 'X');
    let mut cv = (0, 0);
    let _ = user_display_generator(&pg, &(8, 3), &mut cv, &(5, 4));
    assert_eq!(cv, (4, 0));
    let mut cv2 = (0, 0);
    let _ = user_display_generator(&pg, &(9, 3), &mut cv2, &(5, 4));
    assert_eq!(cv2, (5, 0));
}

#[test]
fn user_display_generator_wide_terminal_shows_whole_playground() {
    let mut pg = Playground::new(4, 2);
    pg.set(1, 0, 'X');
    pg.set(3, 1, '5');
    let mut cv = (2, 1);
    let data = user_display_generator(&pg, &(1, 0), &mut cv, &(6, 5));
    assert_eq!(cv, (0, 0));
    let head = 'X'.dark_green().to_string();
    assert_eq!(data, format!(" {}  {}   5  ", head, "  "));
}

#[test]
fn user_display_generator_wide_on_one_axis() {
    let pg = Playground::new(10, 3);
    let mut cv = (0, 7);
    let data = user_display_generator(&pg, &(8, 1), &mut cv, &(5, 9));
    assert_eq!(cv, (4, 0));
    assert_eq!(data, " ".repeat(15));
}

#[test]
fn start_needs_room_and_walls() {
    assert!(can_start(&Playground::new(20, 10)));
    assert!(!can_start(&Playground::new(2, 60)));
    assert!(can_start(&Playground::new(2, 40)));
    let mut full = Playground::new(20, 10);
    for x in 0..20 {
        for y in 0..10 {
            full.set(x, y, 'O');
        }
    }
    full.set(5, 5, ' ');
    assert!(!can_start(&full));
    full.set(6, 5, ' ');
    assert!(can_start(&full));
}
