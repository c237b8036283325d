use ray_caster::canvas;
use ray_caster::graphics::color::Color;
use ray_caster::graphics::graphic::Graphic;
use ray_caster::graphics::line::Line;
use ray_caster::graphics::point::Point;
use ray_caster::graphics::rectangle::Rectangle;

fn buffer(width: u32, height: u32, fill: u8) -> Vec<u8> {
    vec![fill; (width * height * 4) as usize]
}

fn pixel(buf: &[u8], width: u32, x: u32, y: u32) -> [u8; 4] {
    let i = ((x + y * width) * 4) as usize;
    [buf[i], buf[i + 1], buf[i + 2], buf[i + 3]]
}

fn red() -> Color {
    Color { red: 200, green: 10, blue: 20, alpha: 255 }
}

#[test]
fn background_stripes_whole_buffer() {
    let mut buf = buffer(3, 2, 0);
    canvas::background::render(&mut buf, &red());
    for p in 0..6 {
        let i = p * 4;
        assert_eq!(&buf[i..i + 4], &[200, 10, 20, 255]);
    }
}

#[test]
fn plot_writes_one_pixel() {
    let mut buf = buffer(4, 4, 7);
    canvas::point::plot(&mut buf, 4, 4, &red(), 2, 1);
    assert_eq!(pixel(&buf, 4, 2, 1), [200, 10, 20, 255]);
    let written = ((2 + 1 * 4) * 4) as usize;
    for (i, b) in buf.iter().enumerate() {
        if i < written || i >= written + 4 {
            assert_eq!(*b, 7);
        }
    }
}

#[test]
fn plot_outside_buffer_is_skipped() {
    let mut buf = buffer(4, 4, 7);
    canvas::point::plot(&mut buf, 4, 4, &red(), 3, 9);
    assert!(buf.iter().all(|b| *b == 7));
}

#[test]
fn point_render_clips_to_canvas() {
    let mut buf = buffer(4, 4, 0);
    canvas::point::render(&mut buf, 4, 4, &Point::new(1, 1), &red());
    assert_eq!(pixel(&buf, 4, 1, 1), [200, 10, 20, 255]);

    let mut out = buffer(4, 4, 0);
    canvas::point::render(&mut out, 4, 4, &Point::new(-1, 2), &red());
    assert!(out.iter().all(|b| *b == 0));
}

#[test]
fn horizontal_run_fills_row_segment() {
    let mut buf = buffer(8, 4, 0);
    canvas::line::horizontal(&mut buf, 8, 4, 2, 1, 3, &red());
    for x in 0..8 {
        for y in 0..4 {
            let expected = y == 1 && (2..5).contains(&x);
            assert_eq!(pixel(&buf, 8, x, y) == [200, 10, 20, 255], expected);
        }
    }
}

#[test]
fn horizontal_run_negative_start_shrinks() {
    let mut buf = buffer(8, 4, 0);
    canvas::line::horizontal(&mut buf, 8, 4, -2, 0, 5, &red());
    for x in 0..8 {
        let expected = x < 3;
        assert_eq!(pixel(&buf, 8, x, 0) == [200, 10, 20, 255], expected);
    }
}

#[test]
fn horizontal_run_overrun_truncates() {
    let mut buf = buffer(8, 4, 0);
    canvas::line::horizontal(&mut buf, 8, 4, 6, 2, 10, &red());
    for x in 0..8 {
        let expected = x >= 6;
        assert_eq!(pixel(&buf, 8, x, 2) == [200, 10, 20, 255], expected);
    }
}

#[test]
fn horizontal_run_out_of_range_is_skipped() {
    let mut buf = buffer(8, 4, 9);
    canvas::line::horizontal(&mut buf, 8, 4, 8, 0, 3, &red());
    canvas::line::horizontal(&mut buf, 8, 4, 0, 4, 3, &red());
    canvas::line::horizontal(&mut buf, 8, 4, -9, 0, 5, &red());
    assert!(buf.iter().all(|b| *b == 9));
}

#[test]
fn vertical_run_fills_column_segment() {
    let mut buf = buffer(4, 8, 0);
    canvas::line::vertical(&mut buf, 4, 8, 1, 2, 3, &red());
    for x in 0..4 {
        for y in 0..8 {
            let expected = x == 1 && (2..5).contains(&y);
            assert_eq!(pixel(&buf, 4, x, y) == [200, 10, 20, 255], expected);
        }
    }
}

#[test]
fn vertical_run_zero_length_still_marks_start() {
    // The run loop tests its bound only after the first pass, so a run of
    // length zero still colors its start cell.
    let mut buf = buffer(4, 8, 0);
    canvas::line::vertical(&mut buf, 4, 8, 2, 3, 0, &red());
    for x in 0..4 {
        for y in 0..8 {
            let expected = x == 2 && y == 3;
            assert_eq!(pixel(&buf, 4, x, y) == [200, 10, 20, 255], expected);
        }
    }
}

#[test]
fn vertical_run_clips_both_ends() {
    let mut buf = buffer(4, 8, 0);
    canvas::line::vertical(&mut buf, 4, 8, 0, -2, 4, &red());
    for y in 0..8 {
        assert_eq!(pixel(&buf, 4, 0, y) == [200, 10, 20, 255], y < 2);
    }

    let mut low = buffer(4, 8, 0);
    canvas::line::vertical(&mut low, 4, 8, 3, 6, 9, &red());
    for y in 0..8 {
        assert_eq!(pixel(&low, 4, 3, y) == [200, 10, 20, 255], y >= 6);
    }
}

#[test]
fn rectangle_fills_exact_block() {
    let mut buf = buffer(8, 8, 0);
    let rect = Rectangle::new(2, 3, 3, 2, true);
    canvas::rectangle::render(&mut buf, 8, 8, &rect, &red());
    for x in 0..8 {
        for y in 0..8 {
            let expected = (2..5).contains(&x) && (3..5).contains(&y);
            assert_eq!(pixel(&buf, 8, x, y) == [200, 10, 20, 255], expected);
        }
    }
}

#[test]
fn rectangle_fully_outside_writes_nothing() {
    let mut buf = buffer(8, 8, 5);
    canvas::rectangle::render(&mut buf, 8, 8, &Rectangle::new(9, 0, 4, 4, true), &red());
    canvas::rectangle::render(&mut buf, 8, 8, &Rectangle::new(0, 8, 4, 4, true), &red());
    canvas::rectangle::render(&mut buf, 8, 8, &Rectangle::new(-6, 2, 4, 4, true), &red());
    canvas::rectangle::render(&mut buf, 8, 8, &Rectangle::new(2, -9, 4, 4, true), &red());
    assert!(buf.iter().all(|b| *b == 5));
}

#[test]
fn rectangle_half_outside_writes_intersection() {
    let mut buf = buffer(8, 8, 5);
    canvas::rectangle::render(&mut buf, 8, 8, &Rectangle::new(-2, 6, 4, 4, true), &red());
    for x in 0..8u32 {
        for y in 0..8u32 {
            let inside = x < 2 && y >= 6;
            if inside {
                assert_eq!(pixel(&buf, 8, x, y), [200, 10, 20, 255]);
            } else {
                assert_eq!(pixel(&buf, 8, x, y), [5, 5, 5, 5]);
            }
        }
    }
}

#[test]
fn line_horizontal_colors_exactly_one_row() {
    let mut buf = buffer(16, 8, 0);
    let line = Line::new(0, 5, 10, 5);
    canvas::line::render(&mut buf, 16, 8, &line, &red());
    for x in 0..16 {
        for y in 0..8 {
            let expected = y == 5 && x < 10;
            assert_eq!(pixel(&buf, 16, x, y) == [200, 10, 20, 255], expected);
        }
    }
}

#[test]
fn line_vertical_colors_exactly_one_column() {
    let mut buf = buffer(8, 16, 0);
    canvas::line::render(&mut buf, 8, 16, &Line::new(3, 2, 3, 9), &red());
    for x in 0..8 {
        for y in 0..16 {
            let expected = x == 3 && (2..9).contains(&y);
            assert_eq!(pixel(&buf, 8, x, y) == [200, 10, 20, 255], expected);
        }
    }
}

#[test]
fn line_diagonal_marches_one_pixel_per_column() {
    let mut buf = buffer(8, 8, 0);
    canvas::line::render(&mut buf, 8, 8, &Line::new(0, 0, 7, 3), &red());
    let mut painted = 0;
    for x in 0..8u32 {
        let mut rows = 0;
        for y in 0..8u32 {
            if pixel(&buf, 8, x, y) == [200, 10, 20, 255] {
                rows += 1;
                painted += 1;
            }
        }
        if x < 7 {
            assert_eq!(rows, 1);
        }
    }
    assert_eq!(painted, 7);
}

#[test]
fn line_axis_aligned_outside_is_skipped() {
    let mut buf = buffer(8, 8, 3);
    canvas::line::render(&mut buf, 8, 8, &Line::new(-1, 0, -1, 7), &red());
    canvas::line::render(&mut buf, 8, 8, &Line::new(0, 9, 7, 9), &red());
    assert!(buf.iter().all(|b| *b == 3));
}

#[test]
fn outline_draws_only_edges() {
    let mut buf = buffer(8, 8, 0);
    canvas::rectangle::render_outline(&mut buf, 8, 8, &Rectangle::new(1, 1, 4, 4, false), &red());
    assert_eq!(pixel(&buf, 8, 1, 2), [200, 10, 20, 255]);
    assert_eq!(pixel(&buf, 8, 5, 2), [200, 10, 20, 255]);
    assert_eq!(pixel(&buf, 8, 2, 1), [200, 10, 20, 255]);
    assert_eq!(pixel(&buf, 8, 2, 5), [200, 10, 20, 255]);
    assert_eq!(pixel(&buf, 8, 3, 3), [0, 0, 0, 0]);
}

#[test]
fn graphics_list_runs_in_order() {
    let blue = Color { red: 0, green: 0, blue: 250, alpha: 255 };
    let mut buf = buffer(6, 6, 9);
    let background = Graphic::background(red());
    let square = Graphic::rectangle(Rectangle::new(1, 1, 2, 2, true), blue);
    let list: Vec<&Graphic> = vec![&background, &square];
    canvas::graphics::render(&mut buf, 6, 6, &list);
    assert_eq!(pixel(&buf, 6, 0, 0), [200, 10, 20, 255]);
    assert_eq!(pixel(&buf, 6, 1, 1), [0, 0, 250, 255]);
    assert_eq!(pixel(&buf, 6, 2, 2), [0, 0, 250, 255]);
    assert_eq!(pixel(&buf, 6, 3, 3), [200, 10, 20, 255]);
}
