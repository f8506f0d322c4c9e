use tinyrender::canvas::{Canvas, Color, DepthBuffer, FAR};
use tinyrender::fill::UV_ONE;
use tinyrender::geometry::{Vec2i, Vec3i};
use tinyrender::segment;
use tinyrender::shader::{triangle_with_shader, IShader};
use tinyrender::shaders::{GouraudShader, Mesh, ShadowShader, Vertex, UNIT};
use tinyrender::transform::{
    dot4_checked, lookat_basis, projection, transform, v4p2v3, vec4_to_3, viewport, Mat4, Vec4i,
};

const BLACK: Color = Color { r: 0, g: 0, b: 0, a: 255 };
const WHITE: Color = Color { r: 255, g: 255, b: 255, a: 255 };

fn v2(x: i32, y: i32) -> Vec2i {
    Vec2i { x, y }
}

fn v3(x: i32, y: i32, z: i32) -> Vec3i {
    Vec3i { x, y, z }
}

fn v4(x: i64, y: i64, z: i64, w: i64) -> Vec4i {
    Vec4i { x, y, z, w }
}

fn lit(image: &Canvas, color: Color) -> Vec<(u32, u32)> {
    let mut out = Vec::new();
    for x in 0..image.width {
        for y in 0..image.height {
            if image.get_pixel(x, y) == color {
                out.push((x, y));
            }
        }
    }
    out
}

fn identity() -> Mat4 {
    Mat4 { r0: v4(1, 0, 0, 0), r1: v4(0, 1, 0, 0), r2: v4(0, 0, 1, 0), r3: v4(0, 0, 0, 1) }
}

#[test]
fn line_shallow() {
    let mut image = Canvas::new(8, 8, BLACK);
    segment::line(v2(0, 0), v2(4, 2), &mut image, WHITE);
    assert_eq!(lit(&image, WHITE), vec![(0, 0), (1, 0), (2, 1), (3, 1), (4, 2)]);
}

#[test]
fn line_steep_and_reversed() {
    let mut image = Canvas::new(8, 8, BLACK);
    segment::line(v2(2, 5), v2(1, 0), &mut image, WHITE);
    assert_eq!(lit(&image, WHITE), vec![(1, 0), (1, 1), (1, 2), (2, 3), (2, 4), (2, 5)]);
    let mut forward = Canvas::new(8, 8, BLACK);
    segment::line(v2(1, 0), v2(2, 5), &mut forward, WHITE);
    assert_eq!(forward.pixels, image.pixels);
}

#[test]
fn line_descending_and_single_point() {
    let mut image = Canvas::new(8, 8, BLACK);
    segment::line(v2(0, 3), v2(3, 0), &mut image, WHITE);
    assert_eq!(lit(&image, WHITE), vec![(0, 3), (1, 2), (2, 1), (3, 0)]);
    let mut dot = Canvas::new(8, 8, BLACK);
    segment::line(v2(5, 6), v2(5, 6), &mut dot, WHITE);
    assert_eq!(lit(&dot, WHITE), vec![(5, 6)]);
}

#[test]
fn resterize_keeps_the_highest() {
    let mut image = Canvas::new(16, 3, BLACK);
    let mut ybuffer = vec![i32::MIN; 16];
    segment::resterize(v2(2, 0), v2(12, 5), &mut image, &mut ybuffer, WHITE);
    assert_eq!(ybuffer[2], 0);
    assert_eq!(ybuffer[4], 1);
    assert_eq!(ybuffer[7], 2);
    assert_eq!(ybuffer[12], 5);
    assert_eq!(ybuffer[1], i32::MIN);
    assert_eq!(ybuffer[13], i32::MIN);
    assert_eq!(image.get_pixel(7, 0), WHITE);
    assert_eq!(image.get_pixel(7, 2), WHITE);
    assert_eq!(image.get_pixel(13, 1), BLACK);
    let red = Color { r: 255, g: 0, b: 0, a: 255 };
    segment::resterize(v2(2, -10), v2(12, -5), &mut image, &mut ybuffer, red);
    assert!(lit(&image, red).is_empty());
    segment::resterize(v2(0, 9), v2(4, 9), &mut image, &mut ybuffer, red);
    assert_eq!(ybuffer[3], 9);
    assert_eq!(image.get_pixel(3, 1), red);
    // A negative height rounds toward zero.
    let mut low = vec![i32::MIN; 4];
    let mut tall = Canvas::new(4, 1, BLACK);
    segment::resterize(v2(0, 0), v2(3, -2), &mut tall, &mut low, WHITE);
    assert_eq!(low, vec![0, 0, -1, -2]);
}

#[test]
fn viewport_maps_corners_exactly() {
    let vp = viewport(100, 50, 600, 400);
    let corners = [(-1, -1, (100, 50)), (1, -1, (700, 50)), (-1, 1, (100, 450)), (1, 1, (700, 450))];
    for (sx, sy, (ex, ey)) in corners {
        let clip = transform(&vp, v4(sx, sy, 0, 1)).unwrap();
        assert_eq!(clip.w, 2);
        let p = v4p2v3(clip).unwrap();
        assert_eq!((p.x, p.y), (ex, ey));
    }
    let near = v4p2v3(transform(&vp, v4(0, 0, 1, 1)).unwrap()).unwrap();
    assert_eq!(near, v3(400, 250, 255));
    let far = v4p2v3(transform(&vp, v4(0, 0, -1, 1)).unwrap()).unwrap();
    assert_eq!(far.z, 0);
}

#[test]
fn projection_divides_by_depth() {
    let m = projection(3);
    let p = transform(&m, v4(1, 2, -3, 1)).unwrap();
    assert_eq!(p, v4(3, 6, -9, 6));
    assert_eq!(v4p2v3(p), Some(v3(0, 1, -2)));
    let at_eye = transform(&m, v4(1, 2, 3, 1)).unwrap();
    assert_eq!(at_eye.w, 0);
    assert_eq!(v4p2v3(at_eye), None);
}

#[test]
fn homogeneous_divide_rounds_down() {
    assert_eq!(v4p2v3(v4(7, -7, 3, -2)), Some(v3(-4, 3, -2)));
    assert_eq!(v4p2v3(v4(1 << 40, 0, 0, 1)), None);
    assert_eq!(vec4_to_3(v4(4, 5, 6, 0)), Some(v3(4, 5, 6)));
    assert_eq!(vec4_to_3(v4(1 << 33, 5, 6, 1)), None);
}

#[test]
fn overflowing_products_are_refused() {
    assert_eq!(dot4_checked(v4(3, 4, 5, 6), v4(1, 2, 3, 4)), Some(50));
    assert_eq!(dot4_checked(v4(i64::MAX, 0, 0, 0), v4(2, 0, 0, 0)), None);
    assert_eq!(dot4_checked(v4(i64::MIN, i64::MIN, i64::MIN, i64::MIN), v4(i64::MIN, i64::MIN, -1, 1)), None);
    assert_eq!(dot4_checked(v4(i64::MAX, -1, 0, 0), v4(1, i64::MAX, 0, 0)), Some(0));
    assert_eq!(transform(&identity(), v4(i64::MAX, 1, 2, 3)), Some(v4(i64::MAX, 1, 2, 3)));
    let big = Mat4 { r0: v4(2, 0, 0, 0), ..identity() };
    assert_eq!(transform(&big, v4(i64::MAX, 1, 2, 3)), None);
}

#[test]
fn lookat_axes_are_orthonormal() {
    let b = lookat_basis(v3(1, 1, 3), v3(0, 0, 0), v3(0, 1, 0));
    assert_eq!((b.z.x, b.z.y, b.z.z), (1, 1, 3));
    assert_eq!((b.x.x, b.x.y, b.x.z), (3, 0, -1));
    assert_eq!((b.y.x, b.y.y, b.y.z), (-1, 10, -3));
    let unit = |v: (i128, i128, i128)| {
        let (x, y, z) = (v.0 as f64, v.1 as f64, v.2 as f64);
        let n = (x * x + y * y + z * z).sqrt();
        [x / n, y / n, z / n]
    };
    let axes = [unit((b.x.x, b.x.y, b.x.z)), unit((b.y.x, b.y.y, b.y.z)), unit((b.z.x, b.z.y, b.z.z))];
    for i in 0..3 {
        for j in 0..3 {
            let d: f64 = (0..3).map(|k| axes[i][k] * axes[j][k]).sum();
            let expected = if i == j { 1.0 } else { 0.0 };
            assert!((d - expected).abs() < 1e-9);
        }
    }
}

fn one_face_mesh(z: i32, normal: Vec3i) -> Mesh {
    let uv = v2(0, 0);
    Mesh {
        vertices: vec![
            Vertex { position: v3(1, 1, z), normal, texture: uv },
            Vertex { position: v3(18, 2, z), normal, texture: v2(UV_ONE - 1, 0) },
            Vertex { position: v3(2, 17, z), normal, texture: v2(0, UV_ONE - 1) },
        ],
        indices: vec![0, 1, 2],
    }
}

#[test]
fn gouraud_shader_lights_the_texture() {
    let mesh = one_face_mesh(0, v3(0, 0, UNIT));
    assert!(mesh.check_face(0));
    assert!(!mesh.check_face(1));
    assert_eq!(mesh.face_count(), 1);
    let texture = Canvas::new(1, 1, Color { r: 100, g: 50, b: 20, a: 255 });
    let mut shader = GouraudShader::new(&mesh, &texture, identity(), identity(), identity(), v3(0, 0, UNIT));
    let mut coords = Vec::new();
    for j in 0..3 {
        coords.push(shader.vertex(0, j).unwrap());
    }
    assert_eq!(coords[1], v4(18, 2, 0, 1));
    assert_eq!(shader.varying_intensity.v0, 255);
    assert!(shader.can_shade());
    let mut image = Canvas::new(20, 20, BLACK);
    let mut zbuf = DepthBuffer::new(20, 20);
    triangle_with_shader(coords[0], coords[1], coords[2], &shader, &mut image, &mut zbuf);
    assert_eq!(image.get_pixel(5, 5), Color { r: 100, g: 50, b: 20, a: 255 });
    assert_eq!(zbuf.get(5, 5), 0);
    assert_eq!(image.get_pixel(19, 19), BLACK);
    assert_eq!(zbuf.get(19, 19), FAR);

    // Half the light halves the channels, rounding down; light from behind is dark.
    let dim_mesh = one_face_mesh(0, v3(0, 0, UNIT / 2));
    let mut dim = GouraudShader::new(&dim_mesh, &texture, identity(), identity(), identity(), v3(0, 0, UNIT));
    for j in 0..3 {
        dim.vertex(0, j);
    }
    assert_eq!(dim.varying_intensity.v2, 127);
    let mut half = Canvas::new(20, 20, BLACK);
    let mut zhalf = DepthBuffer::new(20, 20);
    triangle_with_shader(coords[0], coords[1], coords[2], &dim, &mut half, &mut zhalf);
    assert_eq!(half.get_pixel(5, 5), Color { r: 49, g: 24, b: 9, a: 255 });
    let mut behind = GouraudShader::new(&mesh, &texture, identity(), identity(), identity(), v3(0, 0, -UNIT));
    behind.vertex(0, 0);
    assert_eq!(behind.varying_intensity.v0, 0);
}

#[test]
fn shadow_shader_renders_depth_as_gray() {
    let mesh = one_face_mesh(1000, v3(0, 0, UNIT));
    let mut shader = ShadowShader::new(&mesh, identity(), identity(), identity());
    let mut coords = Vec::new();
    for j in 0..3 {
        coords.push(shader.vertex(0, j).unwrap());
    }
    assert_eq!(shader.varying_tri.v1, v3(18, 2, 1000));
    let mut image = Canvas::new(20, 20, BLACK);
    let mut zbuf = DepthBuffer::new(20, 20);
    triangle_with_shader(coords[0], coords[1], coords[2], &shader, &mut image, &mut zbuf);
    assert_eq!(image.get_pixel(5, 5), Color { r: 127, g: 127, b: 127, a: 255 });
    // The stored depth is z / w + 1/2 clamped to a byte.
    assert_eq!(zbuf.get(5, 5), 255);
}

#[test]
fn shader_depth_is_perspective_correct() {
    let mesh = one_face_mesh(0, v3(0, 0, UNIT));
    let texture = Canvas::new(1, 1, WHITE);
    let mut shader = GouraudShader::new(&mesh, &texture, identity(), identity(), identity(), v3(0, 0, UNIT));
    for j in 0..3 {
        shader.vertex(0, j);
    }
    assert!(shader.uvs_in_range());
    let mut image = Canvas::new(20, 20, BLACK);
    let mut zbuf = DepthBuffer::new(20, 20);
    // Every vertex at z / w = 3 / 2: the depth is 3 / 2 + 1 / 2 = 2.
    triangle_with_shader(v4(2, 2, 3, 2), v4(36, 4, 3, 2), v4(4, 34, 3, 2), &shader, &mut image, &mut zbuf);
    assert_eq!(zbuf.get(5, 5), 2);
    // A vertex that does not project leaves everything untouched.
    let before = image.clone();
    triangle_with_shader(v4(2, 2, 3, 0), v4(36, 4, 3, 2), v4(4, 34, 3, 2), &shader, &mut image, &mut zbuf);
    assert_eq!(before.pixels, image.pixels);
}

#[test]
fn vertex_stage_refuses_what_does_not_fit() {
    let mesh = one_face_mesh(5, v3(0, 0, UNIT));
    let texture = Canvas::new(1, 1, WHITE);
    let huge = Mat4 { r0: v4(i64::MAX, 0, 0, 0), ..identity() };
    let mut gouraud = GouraudShader::new(&mesh, &texture, huge, identity(), identity(), v3(0, 0, UNIT));
    assert_eq!(gouraud.vertex(0, 1), None);
    // The varyings of the slot are still recorded.
    assert_eq!(gouraud.varying_uv.v1, v2(UV_ONE - 1, 0));
    let flat = Mat4 { r3: v4(0, 0, 0, 0), ..identity() };
    let mut shadow = ShadowShader::new(&mesh, identity(), flat, identity());
    assert_eq!(shadow.vertex(0, 2), None);
    assert_eq!(shadow.varying_tri.v2, v3(0, 0, 0));
    let scaled = Mat4 { r3: v4(0, 0, 0, 2), ..identity() };
    let mut half = ShadowShader::new(&mesh, identity(), scaled, identity());
    assert_eq!(half.vertex(0, 1), Some(v4(18, 2, 5, 2)));
    assert_eq!(half.varying_tri.v1, v3(9, 1, 2));
}

#[test]
fn gouraud_starts_with_identity_texture_coordinates() {
    let mesh = one_face_mesh(0, v3(0, 0, UNIT));
    let texture = Canvas::new(1, 1, WHITE);
    let mut shader = GouraudShader::new(&mesh, &texture, identity(), identity(), identity(), v3(0, 0, UNIT));
    assert_eq!(shader.varying_uv.v0, v2(UV_ONE, 0));
    assert_eq!(shader.varying_uv.v1, v2(0, UV_ONE));
    assert_eq!(shader.varying_uv.v2, v2(0, 0));
    assert_eq!(shader.varying_intensity.v1, 255);
    // (1, 0) lies outside [0, 1) until the vertex stage records the face.
    assert!(!shader.uvs_in_range());
    for j in 0..3 {
        shader.vertex(0, j);
    }
    assert!(shader.uvs_in_range());
}
