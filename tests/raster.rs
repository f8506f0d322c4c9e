use tinyrender::canvas::{Canvas, Color, DepthBuffer, FAR};
use tinyrender::fill::{triangle, triangle_with_texture, FlatFill, TextureFill, UV_ONE};
use tinyrender::geometry::{barycentric, Bary, Vec2i, Vec3i};
use tinyrender::raster::scan;

const BLACK: Color = Color { r: 0, g: 0, b: 0, a: 255 };
const WHITE: Color = Color { r: 255, g: 255, b: 255, a: 255 };
const RED: Color = Color { r: 255, g: 0, b: 0, a: 255 };
const GREEN: Color = Color { r: 0, g: 255, b: 0, a: 255 };

fn p(x: i32, y: i32, z: i32) -> Vec3i {
    Vec3i { x, y, z }
}

fn count(image: &Canvas, color: Color) -> usize {
    image.pixels.iter().filter(|c| **c == color).count()
}

#[test]
fn barycentric_of_vertices_and_centroid() {
    let (a, b, c) = (p(0, 0, 0), p(6, 0, 0), p(0, 6, 0));
    let at_a = barycentric(a, b, c, a);
    assert_eq!((at_a.u, at_a.v, at_a.w), (at_a.den, 0, 0));
    let at_b = barycentric(a, b, c, b);
    assert_eq!((at_b.u, at_b.v, at_b.w), (0, at_b.den, 0));
    let at_c = barycentric(a, b, c, c);
    assert_eq!((at_c.u, at_c.v, at_c.w), (0, 0, at_c.den));
    let mid = barycentric(a, b, c, p(2, 2, 0));
    assert_eq!(mid, Bary { u: 12, v: 12, w: 12, den: 36 });
}

#[test]
fn barycentric_weights_sum_to_denominator() {
    let (a, b, c) = (p(10, 10, 0), p(100, 30, 0), p(190, 160, 0));
    for (x, y) in [(0, 0), (50, 20), (300, -40), (120, 90), (10, 10)] {
        let bc = barycentric(a, b, c, p(x, y, 7));
        assert!(bc.den > 0);
        assert_eq!(bc.u + bc.v + bc.w, bc.den);
    }
    // Clockwise order gives the same weights.
    let cw = barycentric(a, c, b, p(120, 90, 0));
    let ccw = barycentric(a, b, c, p(120, 90, 0));
    assert_eq!((cw.u, cw.v, cw.w, cw.den), (ccw.u, ccw.w, ccw.v, ccw.den));
}

#[test]
fn barycentric_outside_point_has_negative_weight() {
    let bc = barycentric(p(0, 0, 0), p(10, 0, 0), p(0, 10, 0), p(8, 8, 0));
    assert!(!bc.is_inside());
    assert!(bc.u < 0);
}

#[test]
fn barycentric_degenerate_gives_sentinel() {
    let a = p(3, 4, 0);
    for (b, c) in [(a, a), (a, p(9, 9, 0)), (p(5, 5, 0), p(7, 6, 0)), (p(6, 8, 0), p(9, 12, 0))] {
        let bc = barycentric(a, b, c, p(5, 5, 0));
        if (b.x - a.x) * (c.y - a.y) == (c.x - a.x) * (b.y - a.y) {
            assert_eq!(bc, Bary { u: -1, v: 1, w: 1, den: 1 });
            assert!(!bc.is_inside());
        }
    }
}

#[test]
fn degenerate_triangle_writes_nothing() {
    let mut image = Canvas::new(20, 20, BLACK);
    let mut zbuf = DepthBuffer::new(20, 20);
    triangle(p(5, 5, 1), p(5, 5, 1), p(15, 12, 1), &mut image, WHITE, &mut zbuf);
    triangle(p(2, 2, 1), p(8, 8, 1), p(14, 14, 1), &mut image, WHITE, &mut zbuf);
    assert_eq!(count(&image, WHITE), 0);
    assert!(zbuf.depth.iter().all(|z| *z == FAR));
}

#[test]
fn flat_triangle_scenario() {
    let mut image = Canvas::new(200, 200, BLACK);
    let mut zbuf = DepthBuffer::new(200, 200);
    triangle(p(10, 10, 0), p(100, 30, 0), p(190, 160, 0), &mut image, WHITE, &mut zbuf);
    assert_eq!(image.get_pixel(50, 20), WHITE);
    for y in 0..200u32 {
        for x in 0..200u32 {
            let in_box = (10..=190).contains(&x) && (10..=160).contains(&y);
            if !in_box {
                assert_eq!(image.get_pixel(x, y), BLACK);
            }
        }
    }
    // The vertices themselves are covered; a point across the long edge is not.
    assert_eq!(image.get_pixel(10, 10), WHITE);
    assert_eq!(image.get_pixel(190, 160), WHITE);
    assert_eq!(image.get_pixel(50, 100), BLACK);
    assert_eq!(zbuf.get(50, 20), 0);
    assert_eq!(zbuf.get(50, 100), FAR);
}

#[test]
fn triangle_clamped_to_canvas() {
    let mut image = Canvas::new(10, 10, BLACK);
    let mut zbuf = DepthBuffer::new(10, 10);
    triangle(p(-50, -50, 0), p(200, -50, 0), p(-50, 200, 0), &mut image, RED, &mut zbuf);
    assert_eq!(count(&image, RED), 100);
}

#[test]
fn empty_canvas_is_untouched() {
    let mut image = Canvas::new(0, 0, BLACK);
    let mut zbuf = DepthBuffer::new(0, 0);
    triangle(p(0, 0, 0), p(5, 0, 0), p(0, 5, 0), &mut image, RED, &mut zbuf);
    assert!(image.pixels.is_empty());
}

#[test]
fn interpolated_depth() {
    let mut image = Canvas::new(11, 11, BLACK);
    let mut zbuf = DepthBuffer::new(11, 11);
    triangle(p(0, 0, 0), p(10, 0, 100), p(0, 10, -100), &mut image, RED, &mut zbuf);
    assert_eq!(zbuf.get(0, 0), 0);
    assert_eq!(zbuf.get(10, 0), 100);
    assert_eq!(zbuf.get(0, 10), -100);
    assert_eq!(zbuf.get(5, 0), 50);
    assert_eq!(zbuf.get(3, 4), -10);
    assert_eq!(zbuf.get(0, 1), -10);
    // -1 / 9 rounds down to -1, which is nearer than -10.
    triangle(p(0, 0, 0), p(9, 0, 0), p(0, 9, -1), &mut image, RED, &mut zbuf);
    assert_eq!(zbuf.get(0, 1), -1);
    assert_eq!(zbuf.get(1, 0), 10);
}

#[test]
fn same_triangle_twice_is_same_as_once() {
    let mut once = Canvas::new(40, 40, BLACK);
    let mut zonce = DepthBuffer::new(40, 40);
    triangle(p(1, 1, 5), p(30, 4, 9), p(12, 35, -3), &mut once, RED, &mut zonce);
    let mut twice = once.clone();
    let mut ztwice = zonce.clone();
    triangle(p(1, 1, 5), p(30, 4, 9), p(12, 35, -3), &mut twice, RED, &mut ztwice);
    assert_eq!(once.pixels, twice.pixels);
    assert_eq!(zonce.depth, ztwice.depth);
}

#[test]
fn nearer_triangle_wins_in_either_order() {
    let near = [p(0, 0, 50), p(30, 0, 50), p(0, 30, 50)];
    let far = [p(5, 5, 10), p(39, 5, 10), p(5, 39, 10)];
    let mut first = Canvas::new(40, 40, BLACK);
    let mut zfirst = DepthBuffer::new(40, 40);
    triangle(near[0], near[1], near[2], &mut first, RED, &mut zfirst);
    triangle(far[0], far[1], far[2], &mut first, GREEN, &mut zfirst);
    let mut second = Canvas::new(40, 40, BLACK);
    let mut zsecond = DepthBuffer::new(40, 40);
    triangle(far[0], far[1], far[2], &mut second, GREEN, &mut zsecond);
    triangle(near[0], near[1], near[2], &mut second, RED, &mut zsecond);
    assert_eq!(first.get_pixel(10, 10), RED);
    assert_eq!(second.get_pixel(10, 10), RED);
    assert_eq!(first.get_pixel(20, 20), GREEN);
    assert_eq!(first.pixels, second.pixels);
}

#[test]
fn equal_depth_last_write_wins() {
    let mut image = Canvas::new(10, 10, BLACK);
    let mut zbuf = DepthBuffer::new(10, 10);
    triangle(p(0, 0, 4), p(9, 0, 4), p(0, 9, 4), &mut image, RED, &mut zbuf);
    triangle(p(0, 0, 4), p(9, 0, 4), p(0, 9, 4), &mut image, GREEN, &mut zbuf);
    assert_eq!(image.get_pixel(1, 1), GREEN);
}

#[test]
fn generic_scan_matches_flat_fill() {
    let mut a = Canvas::new(16, 16, BLACK);
    let mut za = DepthBuffer::new(16, 16);
    let src = FlatFill { a: p(0, 0, 1), b: p(15, 3, 2), c: p(4, 15, 3), color: RED };
    scan(src.a, src.b, src.c, &src, &mut a, &mut za);
    let mut b = Canvas::new(16, 16, BLACK);
    let mut zb = DepthBuffer::new(16, 16);
    triangle(p(0, 0, 1), p(15, 3, 2), p(4, 15, 3), &mut b, RED, &mut zb);
    assert_eq!(a.pixels, b.pixels);
    assert_eq!(za.depth, zb.depth);
}

#[test]
fn textured_triangle_samples_and_lights() {
    let mut texture = Canvas::new(2, 2, BLACK);
    texture.put_pixel(0, 0, Color { r: 200, g: 100, b: 50, a: 255 });
    texture.put_pixel(1, 0, Color { r: 10, g: 20, b: 30, a: 255 });
    texture.put_pixel(0, 1, Color { r: 90, g: 90, b: 90, a: 255 });
    texture.put_pixel(1, 1, Color { r: 255, g: 255, b: 255, a: 255 });
    let mut image = Canvas::new(20, 20, BLACK);
    let mut zbuf = DepthBuffer::new(20, 20);
    let t0 = Vec2i { x: 0, y: 0 };
    let t1 = Vec2i { x: UV_ONE - 1, y: 0 };
    let t2 = Vec2i { x: 0, y: UV_ONE - 1 };
    triangle_with_texture(
        p(0, 0, 0),
        p(19, 0, 0),
        p(0, 19, 0),
        t0,
        t1,
        t2,
        &mut image,
        255,
        &mut zbuf,
        &texture,
    );
    assert_eq!(image.get_pixel(0, 0), Color { r: 200, g: 100, b: 50, a: 255 });
    assert_eq!(image.get_pixel(19, 0), Color { r: 10, g: 20, b: 30, a: 255 });
    assert_eq!(image.get_pixel(0, 19), Color { r: 90, g: 90, b: 90, a: 255 });
    // Half intensity halves each channel, rounding down.
    let mut dim = Canvas::new(20, 20, BLACK);
    let mut zdim = DepthBuffer::new(20, 20);
    triangle_with_texture(
        p(0, 0, 0),
        p(19, 0, 0),
        p(0, 19, 0),
        t0,
        t1,
        t2,
        &mut dim,
        128,
        &mut zdim,
        &texture,
    );
    assert_eq!(dim.get_pixel(0, 0), Color { r: 100, g: 50, b: 25, a: 255 });
    let src = TextureFill { a: p(0, 0, 0), b: p(19, 0, 0), c: p(0, 19, 0), ta: t0, tb: t1, tc: t2, intensity: 0, texture: &texture };
    let mut dark = Canvas::new(20, 20, WHITE);
    let mut zdark = DepthBuffer::new(20, 20);
    scan(src.a, src.b, src.c, &src, &mut dark, &mut zdark);
    assert_eq!(dark.get_pixel(1, 1), Color { r: 0, g: 0, b: 0, a: 255 });
    assert_eq!(dark.get_pixel(19, 19), WHITE);
}

#[test]
fn texture_bright_light_saturates() {
    let texture = Canvas::new(1, 1, Color { r: 100, g: 200, b: 20, a: 255 });
    let mut image = Canvas::new(10, 10, BLACK);
    let mut zbuf = DepthBuffer::new(10, 10);
    let t = Vec2i { x: 0, y: 0 };
    // Twice the full intensity doubles each channel, saturating at 255.
    triangle_with_texture(p(0, 0, 0), p(9, 0, 0), p(0, 9, 0), t, t, t, &mut image, 510, &mut zbuf, &texture);
    assert_eq!(image.get_pixel(1, 1), Color { r: 200, g: 255, b: 40, a: 255 });
    // A negative intensity gives black.
    let mut dark = Canvas::new(10, 10, WHITE);
    let mut zdark = DepthBuffer::new(10, 10);
    triangle_with_texture(p(0, 0, 0), p(9, 0, 0), p(0, 9, 0), t, t, t, &mut dark, -3, &mut zdark, &texture);
    assert_eq!(dark.get_pixel(1, 1), Color { r: 0, g: 0, b: 0, a: 255 });
}

#[test]
fn texture_coordinate_of_one_off_canvas_is_accepted() {
    let mut texture = Canvas::new(4, 1, BLACK);
    texture.put_pixel(3, 0, WHITE);
    let mut image = Canvas::new(20, 20, RED);
    let mut zbuf = DepthBuffer::new(20, 20);
    // The vertex at x = 40 carries u = 1, but it lies off the canvas: every
    // covered pixel has x <= 19 and so u < 1.
    triangle_with_texture(
        p(0, 0, 0),
        p(40, 0, 0),
        p(0, 40, 0),
        Vec2i { x: 0, y: 0 },
        Vec2i { x: UV_ONE, y: 0 },
        Vec2i { x: 0, y: 0 },
        &mut image,
        255,
        &mut zbuf,
        &texture,
    );
    assert_eq!(image.get_pixel(0, 0), BLACK);
    // u = 19 / 40 picks texel 1.
    assert_eq!(image.get_pixel(19, 0), BLACK);
    assert_eq!(count(&image, WHITE), 0);
    assert_eq!(count(&image, RED), 0);
}
