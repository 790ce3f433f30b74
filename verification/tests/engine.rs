use imgclr::color::{distance, Color};
use imgclr::engine::{dither, put_error, Buffer};
use imgclr::kernel::{kernel_by_name, Tap};
use imgclr::palette::Palette;
use imgclr::partition::{border_rects, extents, interior_rect, Rect};

fn color(r: u8, g: u8, b: u8) -> Color {
    Color::new(r, g, b)
}

fn gray(v: u8) -> Color {
    Color::new(v, v, v)
}

fn buffer(w: usize, h: usize, cells: Vec<Color>) -> Buffer {
    Buffer::from_pixels(w, h, cells).unwrap()
}

fn black_white() -> Palette {
    Palette::new(vec![gray(0), gray(255)]).unwrap()
}

#[test]
fn distance_is_the_channel_l1_sum() {
    assert_eq!(distance(&color(0, 0, 0), &color(255, 255, 255)), 765);
    assert_eq!(distance(&color(10, 20, 30), &color(30, 20, 10)), 40);
    assert_eq!(distance(&color(5, 5, 5), &color(5, 5, 5)), 0);
}

#[test]
fn matcher_picks_the_nearest_colour() {
    let p = Palette::new(vec![gray(0), gray(128), gray(255)]).unwrap();
    assert_eq!(p.best_match(&gray(10)), gray(0));
    assert_eq!(p.best_match(&gray(100)), gray(128));
    assert_eq!(p.best_match(&gray(250)), gray(255));
}

#[test]
fn matcher_breaks_ties_toward_the_lowest_index() {
    // (5, 5, 0) is at distance 10 from both entries
    let p = Palette::new(vec![color(10, 0, 0), color(0, 10, 0)]).unwrap();
    assert_eq!(p.best_match(&color(5, 5, 0)), color(10, 0, 0));
    let q = Palette::new(vec![color(0, 10, 0), color(10, 0, 0)]).unwrap();
    assert_eq!(q.best_match(&color(5, 5, 0)), color(0, 10, 0));
}

#[test]
fn put_error_truncates_toward_zero() {
    // +10 * 7/16 = 4.375 truncates to 4
    let mut c = gray(100);
    put_error(&mut c, 10, 10, 10, 7, 16);
    assert_eq!(c, gray(104));
    // -10 * 7/16 = -4.375 truncates to -4
    let mut c = gray(100);
    put_error(&mut c, -10, -10, -10, 7, 16);
    assert_eq!(c, gray(96));
    // -3/16 and -5/16 truncate to 0
    let mut c = gray(100);
    put_error(&mut c, -1, -3, -5, 1, 16);
    assert_eq!(c, gray(100));
}

#[test]
fn put_error_saturates_both_ends() {
    let mut c = gray(250);
    put_error(&mut c, 255, 255, 255, 7, 16);
    assert_eq!(c, gray(255));
    let mut c = gray(5);
    put_error(&mut c, -255, -255, -255, 7, 16);
    assert_eq!(c, gray(0));
}

#[test]
fn from_pixels_refuses_wrong_dimensions() {
    assert!(Buffer::from_pixels(2, 2, vec![gray(0); 3]).is_none());
    assert!(Buffer::from_pixels(0, 2, vec![gray(0); 2]).is_none());
    let b = Buffer::from_pixels(2, 2, vec![gray(0); 4]).unwrap();
    assert_eq!(b.width(), 2);
    assert_eq!(b.height(), 2);
}

#[test]
fn extents_and_interior_cover_floyd_steinberg() {
    let fs = kernel_by_name("floyd-steinberg").unwrap();
    assert_eq!(extents(&fs), (-1, 1, 1));
    let r = interior_rect(10, 8, &fs);
    assert_eq!(r, Rect { x0: 1, x1: 9, y0: 0, y1: 7 });
}

#[test]
fn interior_is_empty_when_the_kernel_outgrows_the_frame() {
    let jjn = kernel_by_name("jarvis-judice-ninke").unwrap();
    assert_eq!(extents(&jjn), (-2, 2, 2));
    let r = interior_rect(1, 1, &jjn);
    assert!(r.x0 >= r.x1 || r.y0 >= r.y1);
}

// The concrete golden scenario: a 2x2 frame against a black/white palette,
// with pixel (0,0) dark and the rest bright.
#[test]
fn golden_two_by_two_without_dithering() {
    let p = black_white();
    let none = kernel_by_name("none").unwrap();
    let mut work = buffer(2, 2, vec![gray(10), gray(250), gray(250), gray(250)]);
    let out = dither(&mut work, &p, &none);
    assert_eq!(out.get(0, 0), gray(0));
    assert_eq!(out.get(1, 0), gray(255));
    assert_eq!(out.get(0, 1), gray(255));
    assert_eq!(out.get(1, 1), gray(255));
}

#[test]
fn golden_two_by_two_with_floyd_steinberg() {
    let p = black_white();
    let fs = kernel_by_name("floyd-steinberg").unwrap();
    let mut work = buffer(2, 2, vec![gray(10), gray(250), gray(250), gray(250)]);
    let out = dither(&mut work, &p, &fs);
    // the output stays palette-only, and with truncation toward zero the
    // propagated error (+10 at (0,0)) moves no bright pixel across the
    // midpoint: the grid matches the undithered one
    let palette_cells = [gray(0), gray(255)];
    for y in 0..2 {
        for x in 0..2 {
            assert!(palette_cells.contains(&out.get(x, y)));
        }
    }
    assert_eq!(out.get(0, 0), gray(0));
    assert_eq!(out.get(1, 0), gray(255));
    assert_eq!(out.get(0, 1), gray(255));
    assert_eq!(out.get(1, 1), gray(255));
    // the working buffer absorbed the truncated error shares:
    // (1,0): 250 + trunc(10*7/16) = 254; (0,1): 250 + trunc(10*5/16) = 253;
    // (1,1): 250 + trunc(10*1/16), then two shares truncating to zero = 250
    assert_eq!(work.get(1, 0), gray(254));
    assert_eq!(work.get(0, 1), gray(253));
    assert_eq!(work.get(1, 1), gray(250));
}

#[test]
fn propagated_error_can_flip_a_neighbour() {
    let p = black_white();
    let fs = kernel_by_name("floyd-steinberg").unwrap();
    // without dithering both pixels round down to black
    let none = kernel_by_name("none").unwrap();
    let mut work = buffer(2, 1, vec![gray(60), gray(120)]);
    let out = dither(&mut work, &p, &none);
    assert_eq!(out.get(0, 0), gray(0));
    assert_eq!(out.get(1, 0), gray(0));
    // with Floyd-Steinberg the first pixel's error (+60, scaled by 7/16 to
    // +26) lifts the second pixel to 146, which is nearer to white
    let mut work = buffer(2, 1, vec![gray(60), gray(120)]);
    let out = dither(&mut work, &p, &fs);
    assert_eq!(out.get(0, 0), gray(0));
    assert_eq!(work.get(1, 0), gray(146));
    assert_eq!(out.get(1, 0), gray(255));
}

#[test]
fn working_buffer_saturates_under_diffusion() {
    // a lone white palette colour forces a large negative error everywhere
    let p = Palette::new(vec![gray(255)]).unwrap();
    let fs = kernel_by_name("floyd-steinberg").unwrap();
    let mut work = buffer(2, 1, vec![gray(0), gray(50)]);
    let out = dither(&mut work, &p, &fs);
    // -255 * 7/16 truncates to -111; 50 - 111 clamps to 0
    assert_eq!(work.get(1, 0), gray(0));
    assert_eq!(out.get(1, 0), gray(255));
    // a lone black palette colour forces a large positive error
    let p = Palette::new(vec![gray(0)]).unwrap();
    let mut work = buffer(2, 1, vec![gray(255), gray(200)]);
    let _ = dither(&mut work, &p, &fs);
    // +255 * 7/16 truncates to +111; 200 + 111 clamps to 255
    assert_eq!(work.get(1, 0), gray(255));
}

#[test]
fn one_pixel_frame_survives_the_widest_kernel() {
    let p = black_white();
    let jjn = kernel_by_name("jarvis-judice-ninke").unwrap();
    let mut work = buffer(1, 1, vec![gray(70)]);
    let out = dither(&mut work, &p, &jjn);
    assert_eq!(out.get(0, 0), gray(0));
    let mut work = buffer(1, 1, vec![gray(200)]);
    let out = dither(&mut work, &p, &jjn);
    assert_eq!(out.get(0, 0), gray(255));
}

#[test]
fn empty_frames_are_processed_without_incident() {
    let p = black_white();
    let fs = kernel_by_name("floyd-steinberg").unwrap();
    let mut work = buffer(0, 5, vec![]);
    let out = dither(&mut work, &p, &fs);
    assert_eq!(out.width(), 0);
    assert_eq!(out.height(), 5);
    let mut work = buffer(3, 0, vec![]);
    let out = dither(&mut work, &p, &fs);
    assert_eq!(out.cell_count(), 0);
}

#[test]
fn no_dither_equals_the_naive_per_pixel_pass() {
    let p = Palette::new(vec![color(200, 30, 30), color(30, 200, 30), color(30, 30, 200)])
        .unwrap();
    let cells = vec![
        color(180, 40, 60),
        color(10, 220, 40),
        color(90, 90, 250),
        color(120, 120, 120),
        color(250, 0, 0),
        color(0, 0, 0),
    ];
    let none = kernel_by_name("none").unwrap();
    let mut work = buffer(3, 2, cells.clone());
    let out = dither(&mut work, &p, &none);
    for y in 0..2 {
        for x in 0..3 {
            let naive = p.best_match(&cells[y * 3 + x]);
            assert_eq!(out.get(x, y), naive);
        }
    }
    // with the empty kernel the working buffer never changes
    for y in 0..2 {
        for x in 0..3 {
            assert_eq!(work.get(x, y), cells[y * 3 + x]);
        }
    }
}

#[test]
fn output_is_always_palette_only() {
    let p = Palette::new(vec![color(255, 0, 0), color(0, 255, 0), color(0, 0, 255)]).unwrap();
    let mut cells = Vec::new();
    for i in 0..25u32 {
        let v = (i * 37 % 256) as u8;
        let w = (i * 101 % 256) as u8;
        let u = (i * 211 % 256) as u8;
        cells.push(color(v, w, u));
    }
    for name in ["none", "floyd-steinberg", "atkinson", "jarvis-judice-ninke", "burkes",
        "sierra-lite"] {
        let k = kernel_by_name(name).unwrap();
        let mut work = buffer(5, 5, cells.clone());
        let out = dither(&mut work, &p, &k);
        for y in 0..5 {
            for x in 0..5 {
                let c = out.get(x, y);
                assert!(
                    c == color(255, 0, 0) || c == color(0, 255, 0) || c == color(0, 0, 255)
                );
            }
        }
    }
}

#[test]
fn requantizing_the_output_changes_nothing() {
    let p = black_white();
    let fs = kernel_by_name("floyd-steinberg").unwrap();
    let mut cells = Vec::new();
    for i in 0..16u32 {
        cells.push(gray((i * 61 % 256) as u8));
    }
    let mut work = buffer(4, 4, cells);
    let first = dither(&mut work, &p, &fs);
    // feed the output back as a fresh working buffer, with kernel `none`
    let mut pixels = Vec::new();
    for y in 0..4 {
        for x in 0..4 {
            pixels.push(first.get(x, y));
        }
    }
    let mut again = buffer(4, 4, pixels);
    let none = kernel_by_name("none").unwrap();
    let second = dither(&mut again, &p, &none);
    for y in 0..4 {
        for x in 0..4 {
            assert_eq!(second.get(x, y), first.get(x, y));
        }
    }
}

#[test]
fn memoized_rows_match_fresh_computation() {
    // long runs of identical pixels exercise the match-reuse path; the
    // output must equal the per-pixel naive pass under kernel `none`
    let p = Palette::new(vec![gray(0), gray(80), gray(160), gray(255)]).unwrap();
    let mut cells = Vec::new();
    for y in 0..3u32 {
        for x in 0..6u32 {
            let v = if x < 3 { 40 + y as u8 } else { 200 };
            cells.push(gray(v));
        }
    }
    let none = kernel_by_name("none").unwrap();
    let mut work = buffer(6, 3, cells.clone());
    let out = dither(&mut work, &p, &none);
    for y in 0..3 {
        for x in 0..6 {
            assert_eq!(out.get(x, y), p.best_match(&cells[y * 6 + x]));
        }
    }
}

#[test]
fn tap_order_is_respected_within_a_kernel() {
    let fs = kernel_by_name("floyd-steinberg").unwrap();
    let taps: Vec<Tap> = fs.taps.clone();
    assert_eq!(taps[0].dx, 1);
    assert_eq!(taps[0].dy, 0);
    assert_eq!(taps[3], Tap { dx: 1, dy: 1, num: 1 });
}

#[test]
fn border_regions_complement_the_interior() {
    let fs = kernel_by_name("floyd-steinberg").unwrap();
    let (w, h) = (10usize, 8usize);
    let interior = interior_rect(w, h, &fs);
    let borders = border_rects(w, h, interior);
    let inside =
        |r: &Rect, x: usize, y: usize| r.x0 <= x && x < r.x1 && r.y0 <= y && y < r.y1;
    for y in 0..h {
        for x in 0..w {
            let in_interior = inside(&interior, x, y);
            let hits = borders.iter().filter(|r| inside(r, x, y)).count();
            if in_interior {
                assert_eq!(hits, 0);
            } else {
                assert_eq!(hits, 1);
            }
        }
    }
}

#[test]
fn a_palette_colour_diffuses_no_error() {
    // pixel (0,0) is exactly a palette colour: its error is zero, so its
    // neighbour's working value stays untouched by it
    let p = Palette::new(vec![gray(0), gray(100), gray(255)]).unwrap();
    let fs = kernel_by_name("floyd-steinberg").unwrap();
    let mut work = buffer(2, 1, vec![gray(100), gray(77)]);
    let out = dither(&mut work, &p, &fs);
    assert_eq!(out.get(0, 0), gray(100));
    assert_eq!(work.get(1, 0), gray(77));
    assert_eq!(out.get(1, 0), gray(100));
}
