//! The true-color pixel backend.
//!
//! Draws into an RGBA raster target through the occlusion record, tracks
//! the frame's observed depth range for shading, and flushes each frame
//! as an encoded image for an external sink to persist.

use vstd::prelude::*;

use crate::fx::{Fx, FX_ONE};
use crate::mesh::{Mesh, transform_in_range, transformed_seq, vert_matches};
use crate::occlusion::{DepthEntry, OcclusionRecord, occluded_spec};
use crate::screen::{EmptyCell, Screen, lin_idx};
use crate::vector::{Vector2i, Vector3};

verus! {

/// An 8-bit RGBA pixel.
#[derive(Clone, Copy, Debug, PartialEq, Eq, Structural)]
pub struct Rgba {
    pub r: u8,
    pub g: u8,
    pub b: u8,
    pub a: u8,
}

impl Rgba {
    pub fn new(r: u8, g: u8, b: u8, a: u8) -> (p: Rgba)
        ensures
            p == (Rgba { r, g, b, a }),
    {
        Rgba { r, g, b, a }
    }
}

impl EmptyCell for Rgba {
    open spec fn empty_spec() -> Rgba {
        Rgba { r: 0, g: 0, b: 0, a: 0 }
    }

    fn empty_value() -> (r: Rgba) {
        Rgba { r: 0, g: 0, b: 0, a: 0 }
    }
}

/// A source image: width, height and a row-major pixel grid.  This is
/// the library's own value form of an image read by an external
/// decoder; the core only reads it.
pub struct Image {
    pub width: u32,
    pub height: u32,
    pub pixels: Vec<Rgba>,
}

impl Image {
    /// Invariant: the grid holds exactly `width * height` pixels.
    pub open spec fn wf(&self) -> bool {
        self.pixels@.len() == (self.width as int) * (self.height as int)
    }

    /// The pixel at `(x, y)`, in specification form.
    pub open spec fn pixel_at(&self, x: int, y: int) -> Rgba {
        self.pixels@[y * (self.width as int) + x]
    }

    pub fn new(width: u32, height: u32, pixels: Vec<Rgba>) -> (r: Image)
        requires
            pixels@.len() == (width as int) * (height as int),
        ensures
            r.wf(),
            r.width == width,
            r.height == height,
            r.pixels == pixels,
    {
        Image { width, height, pixels }
    }

    pub fn width(&self) -> (r: u32)
        ensures
            r == self.width,
    {
        self.width
    }

    pub fn height(&self) -> (r: u32)
        ensures
            r == self.height,
    {
        self.height
    }

    pub fn get_pixel_at(&self, x: u32, y: u32) -> (r: Rgba)
        requires
            self.wf(),
            x < self.width,
            y < self.height,
        ensures
            r == self.pixel_at(x as int, y as int),
    {
        proof {
            lemma_row_major_in_range(x as int, y as int, self.width as int, self.height as int);
        }
        let idx: u64 = lin_idx(x, y, self.width);
        let n = self.pixels.len();
        proof {
            assert(idx < n);
        }
        self.pixels[idx as usize]
    }
}

/// For `x < w` and `y < h`, the row-major index lies inside the grid.
pub proof fn lemma_row_major_in_range(x: int, y: int, w: int, h: int)
    requires
        0 <= x < w,
        0 <= y < h,
    ensures
        0 <= y * w + x < w * h,
{
    assert(y * w + x < w * h && 0 <= y * w) by (nonlinear_arith)
        requires
            0 <= x < w,
            0 <= y < h,
    ;
}

/// The whole drawing state of the pixel backend, as mathematical
/// values: raster cells, occlusion record, and the depth range observed
/// this frame.
pub struct PixState {
    pub cells: Seq<Rgba>,
    pub zbuf: Seq<DepthEntry>,
    pub zmin: int,
    pub zmax: int,
}

/// One candidate write taken through the occlusion test: rejected
/// writes change nothing; accepted writes set the cell, append a depth
/// entry, and widen the observed depth range.  A write whose cell does
/// not fit the target's dimensions changes nothing (the caller reports
/// it).
pub open spec fn pix_write(
    s: PixState,
    x: u32,
    y: u32,
    p: Rgba,
    z: i64,
    width: int,
    height: int,
) -> PixState {
    if occluded_spec(s.zbuf, x, y, z as int) {
        s
    } else {
        let idx = (y as int) * width + (x as int);
        if (x as int) < width && (y as int) < height && 0 <= idx < s.cells.len() {
            PixState {
                cells: s.cells.update(idx, p),
                zbuf: s.zbuf.push(DepthEntry { x, y, z: Fx { raw: z } }),
                zmin: if s.zmin > z { z as int } else { s.zmin },
                zmax: if s.zmax < z { z as int } else { s.zmax },
            }
        } else {
            s
        }
    }
}

/// Whether cell `(x, y)` lies within planar distance `t` of the vertex
/// `v` (z ignored), boundary inclusive; compared on exact squares, with
/// the cell coordinates in fixed-point units.
pub open spec fn within_spec(x: u32, y: u32, v: Vector3, t: Fx) -> bool {
    let dx = (x as int) * (FX_ONE as int) - v.x.raw;
    let dy = (y as int) * (FX_ONE as int) - v.y.raw;
    t.raw >= 0 && dx * dx + dy * dy <= (t.raw as int) * (t.raw as int)
}

/// The linear shading of a depth into the frame's observed range,
/// scaled to channel base `c`: depth at the near edge of the range maps
/// to `c`, at the far edge to 0; values outside the range are clamped,
/// and a degenerate (empty) range maps everything to `c`.
pub open spec fn shade_channel(c: int, z: int, zmin: int, zmax: int) -> int {
    if zmax <= zmin {
        c
    } else if z <= zmin {
        c
    } else if z >= zmax {
        0
    } else {
        (c * (zmax - z)) / (zmax - zmin)
    }
}

/// The depth-shaded color of a vertex, toward the fixed target triple.
pub open spec fn shade_color(z: int, zmin: int, zmax: int) -> Rgba {
    Rgba {
        r: shade_channel(239, z, zmin, zmax) as u8,
        g: shade_channel(100, z, zmin, zmax) as u8,
        b: shade_channel(232, z, zmin, zmax) as u8,
        a: 255,
    }
}

/// One candidate cell/vertex pair of the splat rasterizer: if the cell
/// is within the threshold, write the shaded color at the vertex's
/// depth, subject to the occlusion test.
pub open spec fn rast_step(
    s: PixState,
    x: u32,
    y: u32,
    v: Vector3,
    t: Fx,
    width: int,
    height: int,
) -> PixState {
    if within_spec(x, y, v, t) {
        pix_write(s, x, y, shade_color(v.z.raw as int, s.zmin, s.zmax), v.z.raw, width, height)
    } else {
        s
    }
}

/// The state after testing cell `(x, y)` against the first `k` vertices.
pub open spec fn rast_verts_upto(
    s: PixState,
    x: u32,
    y: u32,
    verts: Seq<Vector3>,
    k: int,
    t: Fx,
    width: int,
    height: int,
) -> PixState
    decreases k,
{
    if k <= 0 || k > verts.len() {
        s
    } else {
        rast_step(
            rast_verts_upto(s, x, y, verts, k - 1, t, width, height),
            x,
            y,
            verts[k - 1],
            t,
            width,
            height,
        )
    }
}

/// The state after processing the first `y` rows of column `x`.
pub open spec fn rast_rows_upto(
    s: PixState,
    x: u32,
    y: int,
    verts: Seq<Vector3>,
    t: Fx,
    width: int,
    height: int,
) -> PixState
    decreases y,
{
    if y <= 0 || y > u32::MAX + 1 {
        s
    } else {
        rast_verts_upto(
            rast_rows_upto(s, x, y - 1, verts, t, width, height),
            x,
            (y - 1) as u32,
            verts,
            verts.len() as int,
            t,
            width,
            height,
        )
    }
}

/// The state after processing the first `x` columns, each over `height`
/// rows.
pub open spec fn rast_cols_upto(
    s: PixState,
    x: int,
    height: int,
    verts: Seq<Vector3>,
    t: Fx,
    width: int,
) -> PixState
    decreases x,
{
    if x <= 0 || x > u32::MAX + 1 {
        s
    } else {
        rast_rows_upto(
            rast_cols_upto(s, x - 1, height, verts, t, width),
            (x - 1) as u32,
            height,
            verts,
            t,
            width,
            height,
        )
    }
}

/// The full splat rasterization pass over a `width * height` target.
pub open spec fn rasterized(
    s: PixState,
    width: int,
    height: int,
    verts: Seq<Vector3>,
    t: Fx,
) -> PixState {
    rast_cols_upto(s, width, height, verts, t, width)
}

/// Some entry in the record sits at cell `(x, y)`.
pub open spec fn zbuf_has(entries: Seq<DepthEntry>, x: u32, y: u32) -> bool {
    exists|i: int|
        0 <= i < entries.len() && (#[trigger] entries[i]).x == x && entries[i].y == y
}

/// Some of the first `upto` vertices lies within threshold `t` of the
/// cell `(cx, cy)`.
pub open spec fn hit_by(verts: Seq<Vector3>, upto: int, cx: u32, cy: u32, t: Fx) -> bool {
    exists|k: int| 0 <= k < upto && within_spec(cx, cy, #[trigger] verts[k], t)
}

/// Appending one entry adds presence exactly at that entry's cell.
pub proof fn lemma_zbuf_has_push(entries: Seq<DepthEntry>, e: DepthEntry, cx: u32, cy: u32)
    ensures
        zbuf_has(entries.push(e), cx, cy) <==> (zbuf_has(entries, cx, cy) || (e.x == cx && e.y
            == cy)),
{
    let pushed = entries.push(e);
    if zbuf_has(entries, cx, cy) {
        let i = choose|i: int|
            0 <= i < entries.len() && (#[trigger] entries[i]).x == cx && entries[i].y == cy;
        assert(pushed[i].x == cx && pushed[i].y == cy);
    }
    if e.x == cx && e.y == cy {
        assert(pushed[entries.len() as int].x == cx && pushed[entries.len() as int].y == cy);
    }
    if zbuf_has(pushed, cx, cy) {
        let i = choose|i: int|
            0 <= i < pushed.len() && (#[trigger] pushed[i]).x == cx && pushed[i].y == cy;
        if i < entries.len() {
            assert(entries[i].x == cx && entries[i].y == cy);
        }
    }
}

/// A blocked write presupposes some entry at its cell.
pub proof fn lemma_occluded_has(entries: Seq<DepthEntry>, x: u32, y: u32, z: int)
    requires
        occluded_spec(entries, x, y, z),
    ensures
        zbuf_has(entries, x, y),
{
    let i = choose|i: int|
        0 <= i < entries.len() && crate::occlusion::entry_blocks(#[trigger] entries[i], x, y, z);
    assert(entries[i].x == x && entries[i].y == y);
}

/// Whether cell `(x, y)` is within planar distance `t` of `v`, on
/// exact squares.
pub fn within_threshold(x: u32, y: u32, v: &Vector3, t: Fx) -> (r: bool)
    ensures
        r == within_spec(x, y, *v, t),
{
    if t.raw < 0 {
        return false;
    }
    let px: i128 = (x as i128) * 65536 - (v.x.raw as i128);
    let py: i128 = (y as i128) * 65536 - (v.y.raw as i128);
    let ax: u128 = if px >= 0 {
        px as u128
    } else {
        (-px) as u128
    };
    let ay: u128 = if py >= 0 {
        py as u128
    } else {
        (-py) as u128
    };
    proof {
        assert(ax <= 0x8001_0000_0000_0000u128 && ay <= 0x8001_0000_0000_0000u128);
        assert(ax * ax == px * px && ax * ax <= 0x8001_0000_0000_0000 * 0x8001_0000_0000_0000)
            by (nonlinear_arith)
            requires
                ax == if px >= 0 { px as int } else { -(px as int) },
                ax <= 0x8001_0000_0000_0000,
        ;
        assert(ay * ay == py * py && ay * ay <= 0x8001_0000_0000_0000 * 0x8001_0000_0000_0000)
            by (nonlinear_arith)
            requires
                ay == if py >= 0 { py as int } else { -(py as int) },
                ay <= 0x8001_0000_0000_0000,
        ;
        assert((t.raw as u128) * (t.raw as u128) < 0x8000_0000_0000_0000 * 0x8000_0000_0000_0000)
            by (nonlinear_arith)
            requires
                0 <= (t.raw as u128),
                (t.raw as u128) < 0x8000_0000_0000_0000,
        ;
    }
    let d: u128 = ax * ax + ay * ay;
    let tt: u128 = (t.raw as u128) * (t.raw as u128);
    d <= tt
}

/// One channel of the depth-shaded color.
fn shade_channel_exec(c: u32, z: Fx, zmin: Fx, zmax: Fx) -> (r: u8)
    requires
        c <= 255,
    ensures
        r == shade_channel(c as int, z.raw as int, zmin.raw as int, zmax.raw as int),
{
    if zmax.raw <= zmin.raw {
        return c as u8;
    }
    if z.raw <= zmin.raw {
        return c as u8;
    }
    if z.raw >= zmax.raw {
        return 0;
    }
    let num: i128 = (zmax.raw as i128) - (z.raw as i128);
    let den: i128 = (zmax.raw as i128) - (zmin.raw as i128);
    proof {
        assert((c as int) * (num as int) <= (c as int) * (den as int) && 0 <= (c as int) * (
        num as int) && (c as int) * (den as int) <= 255 * 0x1_0000_0000_0000_0000)
            by (nonlinear_arith)
            requires
                0 < num <= den < 0x1_0000_0000_0000_0000,
                0 <= c <= 255,
        ;
        vstd::arithmetic::div_mod::lemma_div_is_ordered(
            (c as int) * (num as int),
            (c as int) * (den as int),
            den as int,
        );
        vstd::arithmetic::div_mod::lemma_div_by_multiple(c as int, den as int);
        vstd::arithmetic::div_mod::lemma_div_pos_is_pos((c as int) * (num as int), den as int);
    }
    let val: u128 = ((c as u128) * (num as u128)) / (den as u128);
    val as u8
}

/// The depth-shaded pixel toward the fixed target triple.
fn shade_pixel(z: Fx, zmin: Fx, zmax: Fx) -> (p: Rgba)
    ensures
        p == shade_color(z.raw as int, zmin.raw as int, zmax.raw as int),
{
    Rgba {
        r: shade_channel_exec(239, z, zmin, zmax),
        g: shade_channel_exec(100, z, zmin, zmax),
        b: shade_channel_exec(232, z, zmin, zmax),
        a: 255,
    }
}

/// The 4-bytes-per-pixel row-major RGBA byte form of a cell sequence.
pub open spec fn rgba_bytes(cells: Seq<Rgba>) -> Seq<u8>
    decreases cells.len(),
{
    if cells.len() == 0 {
        Seq::empty()
    } else {
        rgba_bytes(cells.drop_last()) + seq![
            cells.last().r,
            cells.last().g,
            cells.last().b,
            cells.last().a,
        ]
    }
}

/// The bytes that the PNG encoder produces for a `width * height`
/// 8-bit RGBA image with the given flat pixel data; a fixed function of
/// its arguments.
pub uninterp spec fn png_bytes_of(width: u32, height: u32, data: Seq<u8>) -> Seq<u8>;

/// Encodes one frame as a PNG byte stream.
///
/// Relies on `png::Encoder` writing into an in-memory buffer: header
/// fields from `width`, `height`, 8-bit RGBA color, then the image
/// data.  The precondition keeps the encoder's internal row-length
/// arithmetic (`4 * width * height`) within `usize`.  Writing into a
/// `Vec` cannot fail on I/O; the header is rejected only for a zero
/// width or height (RGBA at 8 bits is a valid pair), and the image
/// data only when its length is not `4 * width * height` — so success
/// is promised exactly on those terms.
#[verifier::external_body]
fn encode_png_bytes(width: u32, height: u32, data: &Vec<u8>) -> (r: Result<Vec<u8>, ()>)
    requires
        4 * (width as int) * (height as int) <= usize::MAX,
    ensures
        r is Ok ==> r->Ok_0@ == png_bytes_of(width, height, data@),
        width > 0 && height > 0 && data@.len() == 4 * (width as int) * (height as int) ==> r
            is Ok,
{
    let mut out: Vec<u8> = Vec::new();
    let mut encoder = png::Encoder::new(&mut out, width, height);
    encoder.set_color(png::ColorType::Rgba);
    encoder.set_depth(png::BitDepth::Eight);
    let mut writer = match encoder.write_header() {
        Ok(w) => w,
        Err(_) => return Err(()),
    };
    if writer.write_image_data(data.as_slice()).is_err() {
        return Err(());
    }
    if writer.finish().is_err() {
        return Err(());
    }
    Ok(out)
}

/// A drawing state together with whether every write so far succeeded;
/// the first failed write aborts a pass.
pub struct SplatOutcome {
    pub s: PixState,
    pub ok: bool,
}

/// The fixed marker pixel of the image splatter.
pub open spec fn image_mark() -> Rgba {
    Rgba { r: 255, g: 255, b: 0, a: 255 }
}

/// One source-image pixel of the image splatter: pixels with a zero
/// red channel are transparent and skipped; the rest write the marker
/// pixel at `position + (x, y)`, through the occlusion test.  A target
/// cell outside the addressable range or the raster target fails the
/// pass.
pub open spec fn img_step(
    o: SplatOutcome,
    img: Image,
    pos: Vector2i,
    z: i64,
    x: int,
    y: int,
    width: int,
    height: int,
) -> SplatOutcome {
    if !o.ok {
        o
    } else {
        let p = img.pixel_at(x, y);
        if p.r == 0 {
            o
        } else {
            let tx = pos.x + x;
            let ty = pos.y + y;
            if tx < 0 || tx > u32::MAX || ty < 0 || ty > u32::MAX {
                SplatOutcome { s: o.s, ok: false }
            } else {
                SplatOutcome {
                    s: pix_write(o.s, tx as u32, ty as u32, image_mark(), z, width, height),
                    ok: occluded_spec(o.s.zbuf, tx as u32, ty as u32, z as int) || (tx < width
                        && ty < height),
                }
            }
        }
    }
}

/// The outcome after the first `x` pixels of source row `y`.
pub open spec fn img_row_upto(
    o: SplatOutcome,
    img: Image,
    pos: Vector2i,
    z: i64,
    y: int,
    x: int,
    width: int,
    height: int,
) -> SplatOutcome
    decreases x,
{
    if x <= 0 || x > img.width {
        o
    } else {
        img_step(
            img_row_upto(o, img, pos, z, y, x - 1, width, height),
            img,
            pos,
            z,
            x - 1,
            y,
            width,
            height,
        )
    }
}

/// The outcome after the first `y` full source rows.
pub open spec fn img_rows_upto(
    o: SplatOutcome,
    img: Image,
    pos: Vector2i,
    z: i64,
    y: int,
    width: int,
    height: int,
) -> SplatOutcome
    decreases y,
{
    if y <= 0 || y > img.height {
        o
    } else {
        img_row_upto(
            img_rows_upto(o, img, pos, z, y - 1, width, height),
            img,
            pos,
            z,
            y - 1,
            img.width as int,
            width,
            height,
        )
    }
}

/// The full image splat: every source pixel, rows outermost.
pub open spec fn image_splatted(
    s: PixState,
    img: Image,
    pos: Vector2i,
    z: i64,
    width: int,
    height: int,
) -> SplatOutcome {
    img_rows_upto(SplatOutcome { s, ok: true }, img, pos, z, img.height as int, width, height)
}

/// Once a row pass has failed, the remaining pixels of the row change
/// nothing.
pub proof fn lemma_img_row_abort(
    o: SplatOutcome,
    img: Image,
    pos: Vector2i,
    z: i64,
    y: int,
    x1: int,
    x2: int,
    width: int,
    height: int,
)
    requires
        0 <= x1 <= x2 <= img.width,
        !img_row_upto(o, img, pos, z, y, x1, width, height).ok,
    ensures
        img_row_upto(o, img, pos, z, y, x2, width, height) == img_row_upto(
            o,
            img,
            pos,
            z,
            y,
            x1,
            width,
            height,
        ),
    decreases x2 - x1,
{
    if x2 > x1 {
        lemma_img_row_abort(o, img, pos, z, y, x1, x2 - 1, width, height);
    }
}

/// Once a pass has failed, the remaining rows change nothing.
pub proof fn lemma_img_rows_abort(
    o: SplatOutcome,
    img: Image,
    pos: Vector2i,
    z: i64,
    y1: int,
    y2: int,
    width: int,
    height: int,
)
    requires
        0 <= y1 <= y2 <= img.height,
        !img_rows_upto(o, img, pos, z, y1, width, height).ok,
    ensures
        img_rows_upto(o, img, pos, z, y2, width, height) == img_rows_upto(
            o,
            img,
            pos,
            z,
            y1,
            width,
            height,
        ),
    decreases y2 - y1,
{
    if y2 > y1 {
        lemma_img_rows_abort(o, img, pos, z, y1, y2 - 1, width, height);
        let prev = img_rows_upto(o, img, pos, z, y2 - 1, width, height);
        if !(y2 <= 0 || y2 > img.height) {
            lemma_img_row_abort(prev, img, pos, z, y2 - 1, 0, img.width as int, width, height);
        }
    }
}

/// The pixel backend: an RGBA raster target, the per-frame occlusion
/// record, the frame counter, and the depth range observed this frame.
pub struct PixelRenderer {
    pub screen: Screen<Rgba>,
    pub z_buffer: OcclusionRecord,
    pub frame_num: u32,
    pub z_min: Fx,
    pub z_max: Fx,
}

impl PixelRenderer {
    pub open spec fn wf(&self) -> bool {
        self.screen.wf()
    }

    /// This renderer's drawing state as mathematical values.
    pub open spec fn state(&self) -> PixState {
        PixState {
            cells: self.screen.pixels@,
            zbuf: self.z_buffer.entries@,
            zmin: self.z_min.raw as int,
            zmax: self.z_max.raw as int,
        }
    }

    pub fn new(w: u32, h: u32) -> (r: PixelRenderer)
        requires
            (w as int) * (h as int) <= u32::MAX,
        ensures
            r.wf(),
            r.screen.width == w,
            r.screen.height == h,
            r.frame_num == 0,
            r.z_min.raw == 0,
            r.z_max.raw == 0,
            r.z_buffer.entries@.len() == 0,
            forall|i: int|
                0 <= i < r.screen.pixels@.len() ==> #[trigger] r.screen.pixels@[i]
                    == Rgba::empty_spec(),
    {
        PixelRenderer {
            screen: Screen::<Rgba>::new(w, h),
            z_buffer: OcclusionRecord::new(),
            frame_num: 0,
            z_min: Fx { raw: 0 },
            z_max: Fx { raw: 0 },
        }
    }

    /// One candidate write through the occlusion test.  A write
    /// rejected by the test is a silent no-op; a write whose cell does
    /// not fit the target's dimensions is an error; an accepted write
    /// sets the cell, appends to the record and widens the observed
    /// depth range.
    pub fn draw_at(&mut self, x: u32, y: u32, pixel: Rgba, z: Fx) -> (r: Result<
        (),
        &'static str,
    >)
        requires
            old(self).wf(),
        ensures
            final(self).wf(),
            final(self).screen.width == old(self).screen.width,
            final(self).screen.height == old(self).screen.height,
            final(self).frame_num == old(self).frame_num,
            final(self).state() == pix_write(
                old(self).state(),
                x,
                y,
                pixel,
                z.raw,
                old(self).screen.width as int,
                old(self).screen.height as int,
            ),
            r is Ok <==> (occluded_spec(old(self).z_buffer.entries@, x, y, z.raw as int) || (x
                < old(self).screen.width && y < old(self).screen.height)),
    {
        if self.z_buffer.blocked(x, y, z) {
            return Ok(());
        }
        let res = self.screen.set_pixel(x, y, pixel);
        if let Err(m) = res {
            return Err(m);
        }
        proof {
            lemma_row_major_in_range(
                x as int,
                y as int,
                self.screen.width as int,
                self.screen.height as int,
            );
        }
        self.z_buffer.insert(x, y, z);
        if self.z_min.raw > z.raw {
            self.z_min = z;
        }
        if self.z_max.raw < z.raw {
            self.z_max = z;
        }
        Ok(())
    }

    pub fn get_screen_buffer(&self) -> (r: &Vec<Rgba>)
        ensures
            r == &self.screen.pixels,
    {
        self.screen.get_buffer()
    }

    /// Ends the frame: encodes the raster target as a PNG image and
    /// returns it with its frame number, then clears the target, the
    /// occlusion record and the depth range, and advances the frame
    /// counter.  A target with a row and a column always flushes (the
    /// encoder rejects only empty dimensions); on the degenerate
    /// zero-sized target the error is surfaced as a recoverable
    /// per-frame failure and the state is left untouched.
    pub fn flush(&mut self) -> (r: Result<(u32, Vec<u8>), &'static str>)
        requires
            old(self).wf(),
            old(self).frame_num < u32::MAX,
        ensures
            final(self).wf(),
            final(self).screen.width == old(self).screen.width,
            final(self).screen.height == old(self).screen.height,
            old(self).screen.width > 0 && old(self).screen.height > 0 ==> r is Ok,
            r is Ok ==> {
                &&& r->Ok_0.0 == old(self).frame_num
                &&& r->Ok_0.1@ == png_bytes_of(
                    old(self).screen.width,
                    old(self).screen.height,
                    rgba_bytes(old(self).screen.pixels@),
                )
                &&& final(self).frame_num == old(self).frame_num + 1
                &&& final(self).z_buffer.entries@.len() == 0
                &&& final(self).z_min.raw == 0
                &&& final(self).z_max.raw == 0
                &&& forall|i: int|
                    0 <= i < final(self).screen.pixels@.len()
                        ==> #[trigger] final(self).screen.pixels@[i] == Rgba::empty_spec()
            },
            r is Err ==> *final(self) == *old(self),
    {
        let n = self.screen.pixels.len();
        let mut data: Vec<u8> = Vec::new();
        for i in 0..n
            invariant
                n == self.screen.pixels@.len(),
                data@ == rgba_bytes(self.screen.pixels@.take(i as int)),
                data@.len() == 4 * i,
                self.wf(),
        {
            let p = self.screen.pixels[i];
            data.push(p.r);
            data.push(p.g);
            data.push(p.b);
            data.push(p.a);
            proof {
                let cells = self.screen.pixels@;
                assert(cells.take(i + 1).drop_last() =~= cells.take(i as int));
                assert(cells.take(i + 1).last() == cells[i as int]);
            }
        }
        proof {
            assert(self.screen.pixels@.take(n as int) =~= self.screen.pixels@);
        }
        let dl = data.len();
        proof {
            assert(dl == 4 * (self.screen.width as int) * (self.screen.height as int))
                by (nonlinear_arith)
                requires
                    dl == 4 * (n as int),
                    n == (self.screen.width as int) * (self.screen.height as int),
            ;
        }
        let encoded = encode_png_bytes(self.screen.width, self.screen.height, &data);
        match encoded {
            Ok(bytes) => {
                let frame = self.frame_num;
                self.screen.clear();
                self.z_buffer.clear();
                self.z_min = Fx { raw: 0 };
                self.z_max = Fx { raw: 0 };
                self.frame_num = frame + 1;
                Ok((frame, bytes))
            },
            Err(_) => Err("Image encoding failed."),
        }
    }

    /// The splat rasterizer over an explicit vertex list: for every
    /// cell of the target, for every vertex, a candidate write at the
    /// vertex's depth when the cell lies within the planar threshold,
    /// each through the occlusion test.  Never fails: every candidate
    /// cell fits the target.
    ///
    /// The last clause is the rasterizer's coverage law: a cell of the
    /// target ends the pass with an occlusion entry exactly when it
    /// already had one or some vertex lies within the threshold of it
    /// (boundary inclusive); in particular a fresh frame with one
    /// vertex writes every cell within the threshold and none beyond.
    pub fn rasterize_list(&mut self, verts: &Vec<Vector3>, max_distance: Fx) -> (r: Result<
        (),
        &'static str,
    >)
        requires
            old(self).wf(),
        ensures
            final(self).wf(),
            final(self).screen.width == old(self).screen.width,
            final(self).screen.height == old(self).screen.height,
            final(self).frame_num == old(self).frame_num,
            r is Ok,
            final(self).state() == rasterized(
                old(self).state(),
                old(self).screen.width as int,
                old(self).screen.height as int,
                verts@,
                max_distance,
            ),
            forall|cx: u32, cy: u32|
                cx < old(self).screen.width && cy < old(self).screen.height ==> (#[trigger] zbuf_has(
                    final(self).z_buffer.entries@,
                    cx,
                    cy,
                ) <==> (zbuf_has(old(self).z_buffer.entries@, cx, cy) || hit_by(
                    verts@,
                    verts@.len() as int,
                    cx,
                    cy,
                    max_distance,
                ))),
    {
        let w = self.screen.width();
        let h = self.screen.height();
        let t = max_distance;
        let nv = verts.len();
        let ghost s0 = self.state();
        let ghost z0 = self.z_buffer.entries@;
        let ghost vs = verts@;
        for x in 0..w
            invariant
                self.wf(),
                w == self.screen.width,
                h == self.screen.height,
                self.frame_num == old(self).frame_num,
                nv == vs.len(),
                vs == verts@,
                s0 == old(self).state(),
                z0 == old(self).z_buffer.entries@,
                self.state() == rast_cols_upto(s0, x as int, h as int, vs, t, w as int),
                forall|cx: u32, cy: u32|
                    #[trigger] zbuf_has(self.z_buffer.entries@, cx, cy) <==> (zbuf_has(z0, cx, cy)
                        || (cx < x && cy < h && hit_by(vs, nv as int, cx, cy, t))),
        {
            for y in 0..h
                invariant
                    self.wf(),
                    w == self.screen.width,
                    h == self.screen.height,
                    self.frame_num == old(self).frame_num,
                    x < w,
                    nv == vs.len(),
                    vs == verts@,
                    s0 == old(self).state(),
                    z0 == old(self).z_buffer.entries@,
                    self.state() == rast_rows_upto(
                        rast_cols_upto(s0, x as int, h as int, vs, t, w as int),
                        x,
                        y as int,
                        vs,
                        t,
                        w as int,
                        h as int,
                    ),
                    forall|cx: u32, cy: u32|
                        #[trigger] zbuf_has(self.z_buffer.entries@, cx, cy) <==> (zbuf_has(
                            z0,
                            cx,
                            cy,
                        ) || (cx < x && cy < h && hit_by(vs, nv as int, cx, cy, t)) || (cx == x
                            && cy < y && hit_by(vs, nv as int, cx, cy, t))),
            {
                let ghost s_cell = self.state();
                for k in 0..nv
                    invariant
                        self.wf(),
                        w == self.screen.width,
                        h == self.screen.height,
                        self.frame_num == old(self).frame_num,
                        x < w,
                        y < h,
                        nv == vs.len(),
                        vs == verts@,
                        s0 == old(self).state(),
                        z0 == old(self).z_buffer.entries@,
                        s_cell == rast_rows_upto(
                            rast_cols_upto(s0, x as int, h as int, vs, t, w as int),
                            x,
                            y as int,
                            vs,
                            t,
                            w as int,
                            h as int,
                        ),
                        self.state() == rast_verts_upto(
                            s_cell,
                            x,
                            y,
                            vs,
                            k as int,
                            t,
                            w as int,
                            h as int,
                        ),
                        forall|cx: u32, cy: u32|
                            #[trigger] zbuf_has(self.z_buffer.entries@, cx, cy) <==> (zbuf_has(
                                z0,
                                cx,
                                cy,
                            ) || (cx < x && cy < h && hit_by(vs, nv as int, cx, cy, t)) || (cx
                                == x && cy < y && hit_by(vs, nv as int, cx, cy, t)) || (cx == x
                                && cy == y && hit_by(vs, k as int, cx, cy, t))),
                {
                    let vert = verts[k];
                    let ghost pre = self.state();
                    let ghost zpre = self.z_buffer.entries@;
                    if within_threshold(x, y, &vert, t) {
                        let c = shade_pixel(vert.z, self.z_min, self.z_max);
                        proof {
                            lemma_row_major_in_range(x as int, y as int, w as int, h as int);
                        }
                        let res = self.draw_at(x, y, c, vert.z);
                        proof {
                            assert(res is Ok);
                            assert(self.state() == rast_verts_upto(
                                s_cell,
                                x,
                                y,
                                vs,
                                k + 1,
                                t,
                                w as int,
                                h as int,
                            ));
                            if occluded_spec(zpre, x, y, vert.z.raw as int) {
                                lemma_occluded_has(zpre, x, y, vert.z.raw as int);
                                assert(zbuf_has(self.z_buffer.entries@, x, y));
                            } else {
                                assert(self.z_buffer.entries@ == zpre.push(
                                    DepthEntry { x, y, z: Fx { raw: vert.z.raw } },
                                ));
                            }
                            assert forall|cx: u32, cy: u32|
                                #[trigger] zbuf_has(self.z_buffer.entries@, cx, cy) <==> (zbuf_has(
                                    z0,
                                    cx,
                                    cy,
                                ) || (cx < x && cy < h && hit_by(vs, nv as int, cx, cy, t)) || (cx
                                    == x && cy < y && hit_by(vs, nv as int, cx, cy, t)) || (cx
                                    == x && cy == y && hit_by(vs, k + 1, cx, cy, t))) by {
                                if !occluded_spec(zpre, x, y, vert.z.raw as int) {
                                    lemma_zbuf_has_push(
                                        zpre,
                                        DepthEntry { x, y, z: Fx { raw: vert.z.raw } },
                                        cx,
                                        cy,
                                    );
                                }
                                if cx == x && cy == y {
                                    assert(within_spec(x, y, vs[k as int], t));
                                    assert(hit_by(vs, k + 1, cx, cy, t));
                                }
                            }
                        }
                    } else {
                        proof {
                            assert(self.state() == rast_verts_upto(
                                s_cell,
                                x,
                                y,
                                vs,
                                k + 1,
                                t,
                                w as int,
                                h as int,
                            ));
                            assert forall|cx: u32, cy: u32|
                                #[trigger] zbuf_has(self.z_buffer.entries@, cx, cy) <==> (zbuf_has(
                                    z0,
                                    cx,
                                    cy,
                                ) || (cx < x && cy < h && hit_by(vs, nv as int, cx, cy, t)) || (cx
                                    == x && cy < y && hit_by(vs, nv as int, cx, cy, t)) || (cx
                                    == x && cy == y && hit_by(vs, k + 1, cx, cy, t))) by {
                                if cx == x && cy == y {
                                    assert(hit_by(vs, k + 1, x, y, t) == hit_by(
                                        vs,
                                        k as int,
                                        x,
                                        y,
                                        t,
                                    )) by {
                                        if hit_by(vs, k + 1, x, y, t) && !hit_by(
                                            vs,
                                            k as int,
                                            x,
                                            y,
                                            t,
                                        ) {
                                            let kk = choose|kk: int|
                                                0 <= kk < k + 1 && within_spec(
                                                    x,
                                                    y,
                                                    #[trigger] vs[kk],
                                                    t,
                                                );
                                            assert(kk == k);
                                            assert(false);
                                        }
                                    }
                                }
                            }
                        }
                    }
                }
            }
        }
        Ok(())
    }

    /// The splat rasterizer over a mesh: rasterizes the mesh's
    /// transformed vertices.
    pub fn rasterize_vertices(&mut self, mesh: &Mesh, max_distance: Fx) -> (r: Result<
        (),
        &'static str,
    >)
        requires
            old(self).wf(),
            forall|k: int|
                0 <= k < mesh.verts@.len() ==> #[trigger] transform_in_range(
                    mesh.verts@[k],
                    mesh.scale_matrix,
                    mesh.rotation_matrix,
                    mesh.translation_matrix,
                ),
        ensures
            final(self).wf(),
            final(self).screen.width == old(self).screen.width,
            final(self).screen.height == old(self).screen.height,
            final(self).frame_num == old(self).frame_num,
            r is Ok,
            final(self).state() == rasterized(
                old(self).state(),
                old(self).screen.width as int,
                old(self).screen.height as int,
                transformed_seq(*mesh),
                max_distance,
            ),
            forall|cx: u32, cy: u32|
                cx < old(self).screen.width && cy < old(self).screen.height ==> (#[trigger] zbuf_has(
                    final(self).z_buffer.entries@,
                    cx,
                    cy,
                ) <==> (zbuf_has(old(self).z_buffer.entries@, cx, cy) || hit_by(
                    transformed_seq(*mesh),
                    transformed_seq(*mesh).len() as int,
                    cx,
                    cy,
                    max_distance,
                ))),
    {
        let verts = mesh.get_transformed_verts();
        proof {
            assert forall|k: int| 0 <= k < verts@.len() implies verts@[k] == transformed_seq(
                *mesh,
            )[k] by {
                assert(vert_matches(
                    verts@[k],
                    mesh.verts@[k],
                    mesh.scale_matrix,
                    mesh.rotation_matrix,
                    mesh.translation_matrix,
                ));
            }
            assert(verts@ =~= transformed_seq(*mesh));
        }
        self.rasterize_list(&verts, max_distance)
    }

    /// Splats a source image at a position and flat depth: every
    /// source pixel with a non-zero red channel (the transparency key)
    /// writes a fixed marker pixel at `position + (x, y)` through the
    /// occlusion test.  A target cell that does not fit the raster
    /// target fails the pass with the index error.
    pub fn draw_image_2d(&mut self, image: &Image, position: Vector2i, z: Fx) -> (r: Result<
        (),
        &'static str,
    >)
        requires
            old(self).wf(),
            image.wf(),
        ensures
            final(self).wf(),
            final(self).screen.width == old(self).screen.width,
            final(self).screen.height == old(self).screen.height,
            final(self).frame_num == old(self).frame_num,
            final(self).state() == image_splatted(
                old(self).state(),
                *image,
                position,
                z.raw,
                old(self).screen.width as int,
                old(self).screen.height as int,
            ).s,
            r is Ok <==> image_splatted(
                old(self).state(),
                *image,
                position,
                z.raw,
                old(self).screen.width as int,
                old(self).screen.height as int,
            ).ok,
    {
        let w = self.screen.width();
        let h = self.screen.height();
        let iw = image.width();
        let ih = image.height();
        let ghost out0 = SplatOutcome { s: old(self).state(), ok: true };
        let ghost img = *image;
        for y in 0..ih
            invariant
                self.wf(),
                w == self.screen.width,
                w == old(self).screen.width,
                h == self.screen.height,
                self.screen.height == old(self).screen.height,
                self.frame_num == old(self).frame_num,
                img == *image,
                image.wf(),
                iw == image.width,
                ih == image.height,
                out0 == (SplatOutcome { s: old(self).state(), ok: true }),
                img_rows_upto(out0, img, position, z.raw, y as int, w as int, h as int) == (SplatOutcome {
                    s: self.state(),
                    ok: true,
                }),
        {
            for x in 0..iw
                invariant
                    self.wf(),
                    w == self.screen.width,
                    w == old(self).screen.width,
                    h == self.screen.height,
                    self.screen.height == old(self).screen.height,
                    self.frame_num == old(self).frame_num,
                    img == *image,
                    image.wf(),
                    iw == image.width,
                    ih == image.height,
                    y < ih,
                    out0 == (SplatOutcome { s: old(self).state(), ok: true }),
                    img_row_upto(
                        img_rows_upto(out0, img, position, z.raw, y as int, w as int, h as int),
                        img,
                        position,
                        z.raw,
                        y as int,
                        x as int,
                        w as int,
                        h as int,
                    ) == (SplatOutcome { s: self.state(), ok: true }),
            {
                let ghost row0 = img_rows_upto(out0, img, position, z.raw, y as int, w as int, h as int);
                let ghost pre = img_row_upto(
                    row0,
                    img,
                    position,
                    z.raw,
                    y as int,
                    x as int,
                    w as int,
                    h as int,
                );
                let p = image.get_pixel_at(x, y);
                if p.r != 0 {
                    let tx: i64 = (position.x() as i64) + (x as i64);
                    let ty: i64 = (position.y() as i64) + (y as i64);
                    if tx < 0 || tx > 0xffff_ffffi64 || ty < 0 || ty > 0xffff_ffffi64 {
                        proof {
                            let cur = img_row_upto(
                                row0,
                                img,
                                position,
                                z.raw,
                                y as int,
                                x + 1,
                                w as int,
                                h as int,
                            );
                            assert(cur == (SplatOutcome { s: self.state(), ok: false }));
                            lemma_img_row_abort(
                                row0,
                                img,
                                position,
                                z.raw,
                                y as int,
                                x + 1,
                                iw as int,
                                w as int,
                                h as int,
                            );
                            assert(img_row_upto(
                                row0,
                                img,
                                position,
                                z.raw,
                                y as int,
                                iw as int,
                                w as int,
                                h as int,
                            ) == cur);
                            assert(img_rows_upto(out0, img, position, z.raw, y + 1, w as int, h as int)
                                == cur);
                            lemma_img_rows_abort(
                                out0,
                                img,
                                position,
                                z.raw,
                                y + 1,
                                ih as int,
                                w as int,
                                h as int,
                            );
                            assert(img_rows_upto(out0, img, position, z.raw, ih as int, w as int, h as int)
                                == cur);
                        }
                        return Err("Index out of bounds.");
                    }
                    let ghost zpre = self.z_buffer.entries@;
                    let res = self.draw_at(tx as u32, ty as u32, Rgba::new(255, 255, 0, 255), z);
                    proof {
                        assert(self.state() == pix_write(
                            pre.s,
                            tx as u32,
                            ty as u32,
                            image_mark(),
                            z.raw,
                            w as int,
                            h as int,
                        ));
                    }
                    if res.is_err() {
                        proof {
                            let cur = img_row_upto(
                                row0,
                                img,
                                position,
                                z.raw,
                                y as int,
                                x + 1,
                                w as int,
                                h as int,
                            );
                            assert(cur == (SplatOutcome { s: self.state(), ok: false }));
                            lemma_img_row_abort(
                                row0,
                                img,
                                position,
                                z.raw,
                                y as int,
                                x + 1,
                                iw as int,
                                w as int,
                                h as int,
                            );
                            assert(img_row_upto(
                                row0,
                                img,
                                position,
                                z.raw,
                                y as int,
                                iw as int,
                                w as int,
                                h as int,
                            ) == cur);
                            assert(img_rows_upto(out0, img, position, z.raw, y + 1, w as int, h as int)
                                == cur);
                            lemma_img_rows_abort(
                                out0,
                                img,
                                position,
                                z.raw,
                                y + 1,
                                ih as int,
                                w as int,
                                h as int,
                            );
                            assert(img_rows_upto(out0, img, position, z.raw, ih as int, w as int, h as int)
                                == cur);
                        }
                        return Err("Index out of bounds.");
                    }
                }
                proof {
                    assert(img_row_upto(
                        row0,
                        img,
                        position,
                        z.raw,
                        y as int,
                        x + 1,
                        w as int,
                        h as int,
                    ) == (SplatOutcome { s: self.state(), ok: true }));
                }
            }
        }
        Ok(())
    }
}

} // verus!
