use ray_caster::app::data::{color, color_list, grid};
use ray_caster::app::detection::intersection;
use ray_caster::app::graphics::{draw_surface, strip_color};
use ray_caster::app::logic::intents;
use ray_caster::app::state::{Colors, Orientation};
use ray_caster::graphics::color::Color;
use ray_caster::graphics::graphic::Graphic;
use ray_caster::graphics::line::Line;
use ray_caster::graphics::point::Point;
use ray_caster::graphics::rectangle::Rectangle;

fn room() -> Vec<Vec<u32>> {
    // A 3x3 open room bordered by wall id 1.
    vec![
        vec![1, 1, 1, 1, 1],
        vec![1, 0, 0, 0, 1],
        vec![1, 0, 0, 0, 1],
        vec![1, 0, 0, 0, 1],
        vec![1, 1, 1, 1, 1],
    ]
}

#[test]
fn intersection_returns_stored_id() {
    let g = room();
    assert_eq!(intersection(0, 0, 5, 5, &g), 1);
    assert_eq!(intersection(2, 2, 5, 5, &g), 0);
    assert_eq!(intersection(4, 3, 5, 5, &g), 1);
}

#[test]
fn intersection_out_of_bounds_is_sentinel() {
    let g = room();
    assert_eq!(intersection(-1, 2, 5, 5, &g), -1);
    assert_eq!(intersection(2, -1, 5, 5, &g), -1);
    assert_eq!(intersection(5, 2, 5, 5, &g), -1);
    assert_eq!(intersection(2, 5, 5, 5, &g), -1);
}

#[test]
fn movement_gate_inputs_in_bordered_room() {
    // The movement resolver commits a candidate position only when the tile
    // under it reports id 0: a border tile blocks, an open tile admits.
    let g = room();
    assert_ne!(intersection(0, 1, 5, 5, &g), 0);
    assert_ne!(intersection(4, 1, 5, 5, &g), 0);
    assert_eq!(intersection(1, 1, 5, 5, &g), 0);
    assert_eq!(intersection(3, 3, 5, 5, &g), 0);
}

#[test]
fn wall_less_grid_never_reports_a_hit() {
    let g = vec![vec![0u32; 4]; 4];
    for x in -1..5 {
        for y in -1..5 {
            assert!(intersection(x, y, 4, 4, &g) <= 0);
        }
    }
}

#[test]
fn grid_is_rectangular_and_walled() {
    let g = grid();
    assert_eq!(g.len(), 24);
    for row in g.iter() {
        assert_eq!(row.len(), 32);
        assert_eq!(row[0], 1);
        assert_eq!(row[31], 1);
    }
    assert!(g[0].iter().all(|id| *id == 1));
    assert!(g[23].iter().all(|id| *id == 1));
    assert_eq!(g[3][3], 8);
    assert_eq!(g[5][5], 9);
    assert_eq!(g[3][21], 2);
}

#[test]
fn color_builds_exact_channels() {
    let c = color(1, 2, 3, 4);
    assert_eq!((c.red, c.green, c.blue, c.alpha), (1, 2, 3, 4));
}

#[test]
fn color_list_holds_ten_groups() {
    let list = color_list();
    assert_eq!(list.len(), 10);
    assert_eq!(list[0].base, color(159, 159, 159, 1));
    assert_eq!(list[2].tint, color(255, 105, 158, 1));
    assert_eq!(list[9].shade, color(107, 42, 107, 1));
}

#[test]
fn colors_holds_session_tones() {
    let colors = Colors::new();
    assert_eq!(colors.ceiling, color(63, 63, 63, 1));
    assert_eq!(colors.floor, color(191, 191, 191, 1));
    assert_eq!(colors.player, color(31, 31, 31, 1));
    assert_eq!(colors.map, color(223, 223, 223, 1));
    assert_eq!(colors.list[1].base, color(127, 135, 143, 1));
}

#[test]
fn intents_cancel_opposing_keys() {
    assert_eq!(intents(false, false, false, false), (0, 0));
    assert_eq!(intents(true, false, false, false), (-1, 0));
    assert_eq!(intents(false, true, false, false), (1, 0));
    assert_eq!(intents(true, true, false, false), (0, 0));
    assert_eq!(intents(false, false, true, false), (0, 1));
    assert_eq!(intents(false, false, false, true), (0, -1));
    assert_eq!(intents(false, false, true, true), (0, 0));
    assert_eq!(intents(true, false, false, true), (-1, -1));
}

#[test]
fn strip_color_shades_by_orientation() {
    let base = color(10, 10, 10, 1);
    let shade = color(20, 20, 20, 1);
    assert_eq!(strip_color(&Orientation::Left, base, shade), base);
    assert_eq!(strip_color(&Orientation::Right, base, shade), base);
    assert_eq!(strip_color(&Orientation::Up, base, shade), shade);
    assert_eq!(strip_color(&Orientation::Down, base, shade), shade);
    assert_eq!(strip_color(&Orientation::Unset, base, shade), shade);
}

#[test]
fn draw_surface_splits_ceiling_and_floor() {
    let ceiling = color(1, 1, 1, 1);
    let floor = color(2, 2, 2, 2);
    let mut buf = vec![0u8; 8 * 8 * 4];
    draw_surface(&mut buf, 8, 8, 0, 0, 8, 8, &ceiling, &floor);
    let top = ((1 + 1 * 8) * 4) as usize;
    assert_eq!(&buf[top..top + 4], &[1, 1, 1, 1]);
    let bottom = ((1 + 6 * 8) * 4) as usize;
    assert_eq!(&buf[bottom..bottom + 4], &[2, 2, 2, 2]);
}

#[test]
fn geometry_values_copy_their_fields() {
    let p = Point::new(3, 4);
    assert!(p.contains(3, 4));
    assert!(!p.contains(3, 5));

    let l = Line::new(1, 2, 3, 4);
    assert_eq!((l.x0, l.y0, l.x1, l.y1), (1, 2, 3, 4));

    let r = Rectangle::new(1, 2, 3, 4, true);
    assert!(r.contains(1, 2));
    assert!(r.contains(4, 6));
    assert!(!r.contains(5, 6));
    assert_eq!(Rectangle::from_array(&[1, 2, 3, 4], false), Rectangle::new(1, 2, 3, 4, false));
    assert_eq!(
        Rectangle::from_tuple(&(1, 2, 3u32, 4u32), true),
        Rectangle::new(1, 2, 3, 4, true),
    );
}

#[test]
fn graphic_moves_its_anchor() {
    let c = color(1, 2, 3, 4);
    let mut g = Graphic::line(Line::new(1, 1, 4, 5), c);
    g.set_x_y(10, 20);
    match g {
        Graphic::Line { line, .. } => {
            assert_eq!((line.x0, line.y0, line.x1, line.y1), (10, 20, 13, 24));
        },
        _ => panic!("expected a line"),
    }

    let mut r = Graphic::rectangle(Rectangle::new(0, 0, 5, 5, true), c);
    r.set_x_y(2, 3);
    match r {
        Graphic::Rectangle { rectangle, .. } => {
            assert_eq!((rectangle.x, rectangle.y), (2, 3));
            assert_eq!((rectangle.width, rectangle.height), (5, 5));
        },
        _ => panic!("expected a rectangle"),
    }

    let mut n = Graphic::none();
    n.set_x_y(7, 7);
    assert!(matches!(n, Graphic::Empty));
}
