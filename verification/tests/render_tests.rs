use master_render_3d::ansi::{ANSIRenderer, ANSIStyle};
use master_render_3d::fx::{Fx, FX_ONE};
use master_render_3d::matrix::Mat4;
use master_render_3d::mesh::Mesh;
use master_render_3d::occlusion::OcclusionRecord;
use master_render_3d::pixel::{Image, PixelRenderer, Rgba};
use master_render_3d::screen::Screen;
use master_render_3d::vector::{Magnitude, Vector2i, Vector3, Vector4};

fn fx(units: i32) -> Fx {
    Fx::from_int(units)
}

fn v3(x: i32, y: i32, z: i32) -> Vector3 {
    Vector3::new(fx(x), fx(y), fx(z))
}

// Adding a vector and subtracting it again restores the original exactly.
#[test]
fn vector3_add_sub_round_trip() {
    let a = v3(3, -7, 11);
    let b = v3(100, 42, -5);
    let s = a.add(b);
    let d = s.sub(b);
    assert_eq!(d, a);
}

#[test]
fn vector2i_add_sub_round_trip() {
    let a = Vector2i::new(9, -4);
    let b = Vector2i::new(-2, 13);
    let d = a.add(b).sub(b);
    assert_eq!(d, a);
}

// Magnitude is non-negative, zero only for the zero vector, and exact on
// a Pythagorean triple.
#[test]
fn vector3_magnitude() {
    assert_eq!(v3(0, 0, 0).magnitude().raw, 0);
    assert!(v3(0, 0, 1).magnitude().raw > 0);
    // |(3, 4, 0)| == 5 exactly.
    assert_eq!(v3(3, 4, 0).magnitude().raw, 5 * FX_ONE);
}

#[test]
fn vector2i_magnitude() {
    assert_eq!(Vector2i::new(3, 4).magnitude().raw, 5 * FX_ONE);
    assert_eq!(Vector2i::new(0, 0).magnitude().raw, 0);
}

#[test]
fn vector4_promote_demote() {
    let v = v3(1, 2, 3);
    let h = Vector4::from(&v);
    assert_eq!(h.w().raw, FX_ONE);
    let back = Vector3::from(&h);
    assert_eq!(back, v);
}

// Identity composed with any matrix yields that matrix.
#[test]
fn matrix_identity_composition() {
    let m = Mat4::new([
        [fx(1), fx(2), fx(3), fx(4)],
        [fx(5), fx(6), fx(7), fx(8)],
        [fx(9), fx(10), fx(11), fx(12)],
        [fx(13), fx(14), fx(15), fx(16)],
    ]);
    let left = Mat4::identity().mul(&m);
    let right = m.mul(&Mat4::identity());
    for r in 0..4 {
        for c in 0..4 {
            assert_eq!(left.values()[r][c], m.values()[r][c]);
            assert_eq!(right.values()[r][c], m.values()[r][c]);
        }
    }
}

// scale(s) then translation(t) takes a vertex to v*s + t exactly.
#[test]
fn matrix_scale_then_translate() {
    let s = Mat4::scale(v3(2, 3, 4));
    let t = Mat4::translation(v3(10, 20, 30));
    let v = Vector4::from(&v3(5, 6, 7));
    let h = v.mul_mat4(&s).mul_mat4(&t);
    assert_eq!(h.x().raw, (5 * 2 + 10) * FX_ONE);
    assert_eq!(h.y().raw, (6 * 3 + 20) * FX_ONE);
    assert_eq!(h.z().raw, (7 * 4 + 30) * FX_ONE);
    assert_eq!(h.w().raw, FX_ONE);
}

// Euler rotation with zero angles (sin 0, cos 1) is the identity.
#[test]
fn matrix_euler_rotation_zero_angles() {
    let m = Mat4::euler_rotation(v3(0, 0, 0), v3(1, 1, 1));
    for r in 0..4 {
        for c in 0..4 {
            let expected = if r == c { FX_ONE } else { 0 };
            assert_eq!(m.values()[r][c].raw, expected);
        }
    }
}

// Occlusion: closer write first, farther second: the second is rejected.
#[test]
fn occlusion_close_then_far() {
    let mut rec = OcclusionRecord::new();
    assert!(!rec.blocked(4, 7, Fx::new(100)));
    rec.insert(4, 7, Fx::new(100));
    assert!(rec.blocked(4, 7, Fx::new(200)));
    // The same depth again is not blocked (only strictly closer blocks).
    assert!(!rec.blocked(4, 7, Fx::new(100)));
}

// Occlusion: farther write first, closer second: both are accepted, and
// afterwards anything farther than the closer depth is rejected.
#[test]
fn occlusion_far_then_close() {
    let mut rec = OcclusionRecord::new();
    assert!(!rec.blocked(4, 7, Fx::new(200)));
    rec.insert(4, 7, Fx::new(200));
    assert!(!rec.blocked(4, 7, Fx::new(100)));
    rec.insert(4, 7, Fx::new(100));
    assert!(rec.blocked(4, 7, Fx::new(150)));
    assert!(rec.blocked(4, 7, Fx::new(200)));
    assert!(!rec.blocked(4, 7, Fx::new(50)));
    assert_eq!(rec.len(), 2);
}

// The same two orders through the pixel backend: the cell's final color
// comes from the write with the smaller depth either way.
#[test]
fn pixel_occlusion_orders() {
    let near = Rgba::new(1, 1, 1, 255);
    let far = Rgba::new(2, 2, 2, 255);

    let mut r1 = PixelRenderer::new(4, 4);
    r1.draw_at(1, 1, near, Fx::new(10)).unwrap();
    r1.draw_at(1, 1, far, Fx::new(20)).unwrap();
    assert_eq!(r1.get_screen_buffer()[1 * 4 + 1], near);

    let mut r2 = PixelRenderer::new(4, 4);
    r2.draw_at(1, 1, far, Fx::new(20)).unwrap();
    r2.draw_at(1, 1, near, Fx::new(10)).unwrap();
    assert_eq!(r2.get_screen_buffer()[1 * 4 + 1], near);
}

// Rasterizer coverage: one vertex at (2,2), threshold exactly 1.0:
// writes at every cell within planar distance 1 (boundary inclusive),
// none beyond.
#[test]
fn rasterizer_threshold_inclusive() {
    let mut r = PixelRenderer::new(5, 5);
    let verts = vec![v3(2, 2, 0)];
    r.rasterize_list(&verts, fx(1)).unwrap();
    let empty = Rgba::new(0, 0, 0, 0);
    for y in 0u32..5 {
        for x in 0u32..5 {
            let dx = x as i64 - 2;
            let dy = y as i64 - 2;
            let within = dx * dx + dy * dy <= 1;
            let cell = r.get_screen_buffer()[(y * 5 + x) as usize];
            if within {
                assert_ne!(cell, empty, "cell ({x},{y}) should be written");
            } else {
                assert_eq!(cell, empty, "cell ({x},{y}) should be untouched");
            }
        }
    }
}

// Round trip: appending vertices and reading them back under identity
// transforms yields the originals, in order.
#[test]
fn mesh_identity_round_trip() {
    let mut mesh = Mesh::new();
    let vs = [v3(1, 2, 3), v3(-4, 5, -6), v3(7, -8, 9), v3(0, 0, 0)];
    for v in vs.iter() {
        mesh.add_vertex(*v);
    }
    let out = mesh.get_transformed_verts();
    assert_eq!(out.len(), vs.len());
    for (a, b) in out.iter().zip(vs.iter()) {
        assert_eq!(a, b);
    }
}

// End-to-end: 1x1 target, one vertex at the origin, threshold 0.5:
// exactly one accepted write at (0,0) with depth 0; the first flush is
// frame 0, a second flush with no draws is frame 1 with default-cleared
// content.
#[test]
fn end_to_end_single_pixel() {
    let mut r = PixelRenderer::new(1, 1);
    let verts = vec![v3(0, 0, 0)];
    r.rasterize_list(&verts, Fx::new(FX_ONE / 2)).unwrap();
    assert_eq!(r.z_buffer.entries.len(), 1);
    assert_eq!(r.z_buffer.entries[0].x, 0);
    assert_eq!(r.z_buffer.entries[0].y, 0);
    assert_eq!(r.z_buffer.entries[0].z.raw, 0);

    let (frame0, bytes0) = r.flush().unwrap();
    assert_eq!(frame0, 0);
    let (frame1, bytes1) = r.flush().unwrap();
    assert_eq!(frame1, 1);
    assert!(!bytes0.is_empty());
    assert!(!bytes1.is_empty());

    // Both artifacts are PNG streams of a 1x1 image; the first holds the
    // degenerate-range shade, the second the cleared cell.
    let p0 = decode_rgba(&bytes0);
    let p1 = decode_rgba(&bytes1);
    assert_eq!(p0.0, (1, 1));
    assert_eq!(p1.0, (1, 1));
    assert_eq!(p0.1, vec![239, 100, 232, 255]);
    assert_eq!(p1.1, vec![0, 0, 0, 0]);
}

fn decode_rgba(bytes: &[u8]) -> ((u32, u32), Vec<u8>) {
    let decoder = png::Decoder::new(std::io::Cursor::new(bytes));
    let mut reader = decoder.read_info().unwrap();
    let mut buf = vec![0u8; reader.output_buffer_size().unwrap()];
    let info = reader.next_frame(&mut buf).unwrap();
    buf.truncate(info.buffer_size());
    ((info.width, info.height), buf)
}

// The PNG signature marks the encoder's work: the artifact is not the
// raw RGBA data handed to it.
#[test]
fn flush_encodes_png() {
    let mut r = PixelRenderer::new(2, 2);
    r.draw_at(0, 0, Rgba::new(9, 8, 7, 255), Fx::new(5)).unwrap();
    let (_, bytes) = r.flush().unwrap();
    assert_eq!(&bytes[0..4], &[137, 80, 78, 71]);
    assert_ne!(bytes.len(), 16);
}

// Image splatting: the red channel keys transparency; opaque pixels
// write the fixed marker at position + (x, y).
#[test]
fn pixel_image_splat() {
    let pixels = vec![
        Rgba::new(255, 0, 0, 255),
        Rgba::new(0, 9, 9, 255),
        Rgba::new(1, 0, 0, 255),
        Rgba::new(0, 0, 0, 0),
    ];
    let img = Image::new(2, 2, pixels);
    let mut r = PixelRenderer::new(4, 4);
    r.draw_image_2d(&img, Vector2i::new(1, 1), Fx::new(3)).unwrap();
    let marker = Rgba::new(255, 255, 0, 255);
    let empty = Rgba::new(0, 0, 0, 0);
    assert_eq!(r.get_screen_buffer()[1 * 4 + 1], marker);
    assert_eq!(r.get_screen_buffer()[1 * 4 + 2], empty);
    assert_eq!(r.get_screen_buffer()[2 * 4 + 1], marker);
    assert_eq!(r.get_screen_buffer()[2 * 4 + 2], empty);
}

// A negative splat position walks off the addressable range: the pass
// fails with the index error.
#[test]
fn pixel_image_splat_out_of_range() {
    let img = Image::new(1, 1, vec![Rgba::new(255, 0, 0, 255)]);
    let mut r = PixelRenderer::new(4, 4);
    let res = r.draw_image_2d(&img, Vector2i::new(-1, 0), Fx::new(0));
    assert_eq!(res, Err("Index out of bounds."));
}

// Screen error taxonomy: an index beyond the target is signaled, never
// clamped.
#[test]
fn screen_set_pixel_out_of_bounds() {
    let mut s: Screen<char> = Screen::new(3, 2);
    assert_eq!(s.set_pixel(0, 2, 'x'), Err("Index out of bounds."));
    assert_eq!(s.set_pixel(2, 1, 'x'), Ok(()));
    assert_eq!(s.get_pixel(2, 1), Some(&'x'));
    assert_eq!(s.get_pixel(0, 2), None);
}

#[test]
fn screen_resize_resets() {
    let mut s: Screen<char> = Screen::new(2, 2);
    s.set_pixel(0, 0, 'x').unwrap();
    s.resize(3, 3);
    assert_eq!(s.width(), 3);
    assert_eq!(s.height(), 3);
    assert_eq!(s.get_buffer().len(), 9);
    assert!(s.get_buffer().iter().all(|c| *c == '\0'));
}

#[test]
fn screen_push_pixels_run() {
    let mut s: Screen<char> = Screen::new(4, 2);
    s.push_pixels(2, 0, vec!['a', 'b', 'c']).unwrap();
    assert_eq!(s.get_pixel(2, 0), Some(&'a'));
    assert_eq!(s.get_pixel(3, 0), Some(&'b'));
    assert_eq!(s.get_pixel(0, 1), Some(&'c'));
}

// Depth-shaded colors: nearest depth maps to the full target triple,
// farthest to zero, the midpoint to half.
#[test]
fn pixel_shading_range() {
    let mut r = PixelRenderer::new(3, 1);
    // First accepted write observes a degenerate range.
    r.draw_at(0, 0, Rgba::new(0, 0, 0, 255), Fx::new(-100)).unwrap();
    // Now the range is [-100, 0].
    let verts = vec![Vector3::new(Fx::new(1 * FX_ONE), Fx::new(0), Fx::new(-50))];
    r.rasterize_list(&verts, Fx::new(0)).unwrap();
    // multiplier = (zmax - z) / (zmax - zmin) = 50/100; channels floor.
    let cell = r.get_screen_buffer()[1];
    assert_eq!(cell, Rgba::new(119, 50, 116, 255));
}

// ANSI flush protocol: a character drawn in frame one and not in frame
// two gets an explicit blank in frame two's stream; a character drawn
// in both frames is re-emitted and never blanked.
#[test]
fn ansi_stale_cell_cleared() {
    let mut r = ANSIRenderer::new();
    r.draw_at(5, 5, "A", Fx::new(1), None).unwrap();
    r.flush();
    let frame1: String = r.take_output().into_iter().collect();
    assert!(frame1.contains('A'));
    assert!(!frame1.contains(' '));

    // Frame two: nothing drawn at (5,5).
    r.flush();
    let frame2: String = r.take_output().into_iter().collect();
    assert!(!frame2.contains('A'));
    assert_eq!(frame2.chars().filter(|c| *c == ' ').count(), 1);
}

#[test]
fn ansi_live_cell_not_cleared() {
    let mut r = ANSIRenderer::new();
    r.draw_at(5, 5, "A", Fx::new(1), None).unwrap();
    r.flush();
    let _ = r.take_output();

    r.draw_at(5, 5, "A", Fx::new(1), None).unwrap();
    r.flush();
    let frame2: String = r.take_output().into_iter().collect();
    assert!(frame2.contains('A'));
    assert_eq!(frame2.chars().filter(|c| *c == ' ').count(), 0);
}

// Styles are spliced in just before the styled cell's character.
#[test]
fn ansi_style_before_character() {
    let mut r = ANSIRenderer::new();
    r.draw_at(0, 0, "B", Fx::new(1), Some(ANSIStyle::Bold)).unwrap();
    r.flush();
    let out: String = r.take_output().into_iter().collect();
    let style_at = out.find("\u{1b}[1m").expect("style escape present");
    let char_at = out.find('B').expect("character present");
    assert!(style_at < char_at);
}

#[test]
fn ansi_style_codes() {
    assert_eq!(ANSIStyle::Reset.code(), 0);
    assert_eq!(ANSIStyle::Bold.code(), 1);
    assert_eq!(ANSIStyle::Italic.code(), 3);
    assert_eq!(ANSIStyle::Underline.code(), 4);
    assert_eq!(ANSIStyle::Invert.code(), 7);
    assert_eq!(ANSIStyle::CrossedOut.code(), 9);
    assert_eq!(ANSIStyle::Fraktur.code(), 20);
    assert_eq!(ANSIStyle::SetBrightBackgroundColor.code(), 100);
}

// The ANSI occlusion path mirrors the pixel one.
#[test]
fn ansi_occlusion() {
    let mut r = ANSIRenderer::new();
    r.draw_at(3, 3, "x", Fx::new(1), None).unwrap();
    // A farther glyph at the same cell is silently dropped.
    r.draw_at(3, 3, "y", Fx::new(2), None).unwrap();
    r.flush();
    let out: String = r.take_output().into_iter().collect();
    assert!(out.contains('x'));
    assert!(!out.contains('y'));
}

// The terminal glyph ladder on raw depth.
#[test]
fn ansi_glyph_ladder() {
    let mut r = ANSIRenderer::new();
    let verts = vec![
        Vector3::new(fx(0), fx(0), fx(20)),
        Vector3::new(fx(2), fx(0), fx(10)),
        Vector3::new(fx(4), fx(0), fx(5)),
        Vector3::new(fx(6), fx(0), fx(3)),
        Vector3::new(fx(8), fx(0), fx(1)),
    ];
    r.rasterize_list(&verts, Fx::new(0)).unwrap();
    r.flush();
    let out: String = r.take_output().into_iter().collect();
    for g in [".", "u", "w", "W", "@"] {
        assert!(out.contains(g), "glyph {g} missing");
    }
}

// ANSI image splat writes the fixed marker.
#[test]
fn ansi_image_splat() {
    let img = Image::new(2, 1, vec![Rgba::new(255, 0, 0, 255), Rgba::new(0, 0, 0, 255)]);
    let mut r = ANSIRenderer::new();
    r.draw_image_2d(&img, Vector2i::new(10, 10), Fx::new(0)).unwrap();
    r.flush();
    let out: String = r.take_output().into_iter().collect();
    assert_eq!(out.chars().filter(|c| *c == '&').count(), 1);
}

// Cursor repositioning escapes take the documented `ESC [ row ; col H`
// shape.
#[test]
fn ansi_goto_shape() {
    let mut r = ANSIRenderer::new();
    r.go_to_immediate(12, 34);
    let out: String = r.take_output().into_iter().collect();
    assert_eq!(out, "\u{1b}[34;12H");
}

#[test]
fn ansi_full_clear_escape() {
    let mut r = ANSIRenderer::new();
    r.clear();
    let out: String = r.take_output().into_iter().collect();
    assert_eq!(out, "\u{1b}[0J");
}

// Writes wrap to the next row when the cursor passes the width.
#[test]
fn ansi_write_wraps() {
    let mut r = ANSIRenderer::new();
    r.draw_at(119, 0, "abc", Fx::new(1), None).unwrap();
    let h = r.helper_ref();
    // Cells fill linearly from index 119.
    assert_eq!(h.screen.get_buffer()[119], 'a');
    assert_eq!(h.screen.get_buffer()[120], 'b');
    assert_eq!(h.screen.get_buffer()[121], 'c');
    assert_eq!(h.x, 2);
    assert_eq!(h.y, 1);
}

// Fixed-point arithmetic: multiplication truncates toward zero.
#[test]
fn fx_multiplication() {
    let half = Fx::new(FX_ONE / 2);
    let three = Fx::from_int(3);
    assert_eq!(three.mul(half).raw, 3 * FX_ONE / 2);
    let minus_three = Fx::from_int(-3);
    assert_eq!(minus_three.mul(half).raw, -(3 * FX_ONE / 2));
    assert_eq!(Fx::new(3).mul(Fx::new(3)).raw, 0);
    assert_eq!(Fx::new(-3).mul(Fx::new(3)).raw, 0);
}

// The ANSI image splatter also signals out-of-range targets instead of
// clamping them.
#[test]
fn ansi_image_splat_out_of_range() {
    let img = Image::new(1, 1, vec![Rgba::new(255, 0, 0, 255)]);
    let mut r = ANSIRenderer::new();
    let res = r.draw_image_2d(&img, Vector2i::new(-5, 0), Fx::new(0));
    assert!(res.is_err());
}

// A quarter turn about the z axis (sin 1, cos 0) maps the x unit
// vertex onto the y axis exactly.
#[test]
fn euler_rotation_quarter_turn() {
    let mut mesh = Mesh::new();
    mesh.add_vertex(v3(1, 0, 0));
    mesh.set_rotation_matrix(Mat4::euler_rotation(v3(0, 0, 1), v3(1, 1, 0)));
    let out = mesh.get_transformed_verts();
    assert_eq!(out[0], v3(0, 1, 0));
}

// A coordinate beyond the target's dimensions is signaled, never
// accepted into a later row of the flat buffer.
#[test]
fn screen_rejects_out_of_dimension_column() {
    let mut s: Screen<char> = Screen::new(3, 2);
    assert_eq!(s.set_pixel(4, 0, 'x'), Err("Index out of bounds."));
    assert!(s.get_buffer().iter().all(|c| *c == '\0'));
}

#[test]
fn pixel_draw_at_rejects_out_of_dimension() {
    let mut r = PixelRenderer::new(3, 2);
    let res = r.draw_at(4, 0, Rgba::new(1, 2, 3, 255), Fx::new(5));
    assert_eq!(res, Err("Index out of bounds."));
    assert_eq!(r.z_buffer.entries.len(), 0);
    assert!(r.get_screen_buffer().iter().all(|p| *p == Rgba::new(0, 0, 0, 0)));
}

#[test]
fn ansi_draw_at_rejects_out_of_dimension() {
    let mut r = ANSIRenderer::new();
    assert_eq!(r.draw_at(120, 0, "x", Fx::new(1), None), Err("Index out of bounds."));
    assert_eq!(r.draw_at(0, 50, "x", Fx::new(1), None), Err("Index out of bounds."));
    r.flush();
    let out: String = r.take_output().into_iter().collect();
    assert!(!out.contains('x'));
}

// The executable transform range check agrees with the pipeline: the
// demo-scale mesh passes, a mesh scaled to the representable limit
// does not.
#[test]
fn mesh_transform_range_check() {
    let mut mesh = Mesh::new();
    mesh.add_vertex(v3(1, 2, 3));
    assert!(mesh.transforms_in_range());
    mesh.set_scale_matrix(Mat4::scale(Vector3::new(
        Fx::new(i64::MAX),
        Fx::new(i64::MAX),
        Fx::new(i64::MAX),
    )));
    assert!(!mesh.transforms_in_range());
}
