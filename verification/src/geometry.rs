//! Image geometry: the pixel model, the transparent-border bounding box,
//! the crop, and the aspect-preserving fit of a sprite into a maximum
//! terminal dimension.

use vstd::prelude::*;

verus! {

/// Mathematical model of a decoded RGBA image: the flat byte sequence in
/// row-major order (four bytes per pixel, alpha last) with its dimensions.
#[verifier::ext_equal]
pub struct ImageView {
    pub bytes: Seq<u8>,
    pub width: int,
    pub height: int,
}

impl ImageView {
    /// The byte sequence holds exactly four bytes for each pixel of the grid.
    pub open spec fn wf(self) -> bool {
        0 <= self.width && 0 <= self.height && self.bytes.len() == 4 * self.width
            * self.height
    }

    pub open spec fn in_bounds(self, x: int, y: int) -> bool {
        0 <= x < self.width && 0 <= y < self.height
    }

    /// Index of the first byte of pixel (x, y).
    pub open spec fn pixel_start(self, x: int, y: int) -> int {
        4 * (y * self.width + x)
    }

    /// The four RGBA bytes of pixel (x, y).
    pub open spec fn pixel(self, x: int, y: int) -> Seq<u8> {
        self.bytes.subrange(self.pixel_start(x, y), self.pixel_start(x, y) + 4)
    }

    pub open spec fn alpha(self, x: int, y: int) -> u8 {
        self.bytes[self.pixel_start(x, y) + 3]
    }

    /// A pixel qualifies for the bounding box if it is not fully transparent.
    pub open spec fn visible(self, x: int, y: int) -> bool {
        self.in_bounds(x, y) && self.alpha(x, y) > 0
    }

    pub open spec fn has_visible(self) -> bool {
        exists|x: int, y: int| self.visible(x, y)
    }
}

/// The byte range of an in-bounds pixel lies inside the image bytes.
pub proof fn lemma_pixel_start_bounds(v: ImageView, x: int, y: int)
    requires
        v.wf(),
        v.in_bounds(x, y),
    ensures
        0 <= v.pixel_start(x, y),
        v.pixel_start(x, y) + 4 <= v.bytes.len(),
{
    assert(0 <= 4 * (y * v.width + x) && 4 * (y * v.width + x) + 4 <= 4 * v.width
        * v.height) by (nonlinear_arith)
        requires
            0 <= x < v.width,
            0 <= y < v.height,
    ;
}

/// A decoded width x height grid of RGBA pixels, row-major, alpha last.
#[derive(Debug)]
pub struct PixelBuffer {
    pub data: Vec<u8>,
    pub width: u32,
    pub height: u32,
}

impl View for PixelBuffer {
    type V = ImageView;

    open spec fn view(&self) -> ImageView {
        ImageView { bytes: self.data@, width: self.width as int, height: self.height as int }
    }
}

/// Inclusive pixel coordinates of an axis-aligned box.
#[derive(Debug, Clone, Copy, PartialEq, Eq, Structural)]
pub struct BoundingBox {
    pub min_x: u32,
    pub min_y: u32,
    pub max_x: u32,
    pub max_y: u32,
}

impl BoundingBox {
    /// Every visible pixel of the image lies inside the box.
    pub open spec fn covers(self, v: ImageView) -> bool {
        forall|x: int, y: int|
            v.visible(x, y) ==> self.min_x <= x <= self.max_x && self.min_y <= y
                <= self.max_y
    }

    /// Each of the four border rows and columns of the box holds a visible
    /// pixel, so no smaller box covers the image.
    pub open spec fn tight(self, v: ImageView) -> bool {
        &&& (exists|y: int| v.visible(self.min_x as int, y))
        &&& (exists|y: int| v.visible(self.max_x as int, y))
        &&& (exists|x: int| v.visible(x, self.min_y as int))
        &&& (exists|x: int| v.visible(x, self.max_y as int))
    }

    /// The minimal axis-aligned box covering all visible pixels.
    pub open spec fn is_alpha_bbox(self, v: ImageView) -> bool {
        &&& self.min_x <= self.max_x
        &&& (self.max_x as int) < v.width
        &&& self.min_y <= self.max_y
        &&& (self.max_y as int) < v.height
        &&& self.covers(v)
        &&& self.tight(v)
    }
}

/// Scan order of the pixel grid: all rows above `y`, then row `y` up to
/// column `x`.
spec fn scanned_before(xx: int, yy: int, x: int, y: int) -> bool {
    yy < y || (yy == y && xx < x)
}

/// Finds the minimal box covering the pixels with alpha above zero, or
/// `None` when the image is fully transparent.
pub fn alpha_bounding_box(pb: &PixelBuffer) -> (r: Option<BoundingBox>)
    requires
        pb@.wf(),
    ensures
        r is Some <==> pb@.has_visible(),
        r matches Some(b) ==> b.is_alpha_bbox(pb@),
{
    let ghost v = pb@;
    let width = pb.width;
    let height = pb.height;
    let n = pb.data.len();
    let mut found: bool = false;
    let mut min_x: u32 = 0;
    let mut min_y: u32 = 0;
    let mut max_x: u32 = 0;
    let mut max_y: u32 = 0;
    let mut y: u32 = 0;
    while y < height
        invariant
            v == pb@,
            v.wf(),
            width == pb.width,
            height == pb.height,
            n == pb.data.len(),
            y <= height,
            !found ==> forall|xx: int, yy: int|
                #[trigger] v.visible(xx, yy) ==> !scanned_before(xx, yy, 0, y as int),
            found ==> {
                &&& min_x <= max_x < width
                &&& min_y <= max_y < y
                &&& forall|xx: int, yy: int|
                    #[trigger] v.visible(xx, yy) && scanned_before(xx, yy, 0, y as int)
                        ==> min_x <= xx <= max_x && min_y <= yy <= max_y
                &&& (exists|yy: int| v.visible(min_x as int, yy))
                &&& (exists|yy: int| v.visible(max_x as int, yy))
                &&& (exists|xx: int| v.visible(xx, min_y as int))
                &&& (exists|xx: int| v.visible(xx, max_y as int))
            },
        decreases height - y,
    {
        let mut x: u32 = 0;
        while x < width
            invariant
                v == pb@,
                v.wf(),
                width == pb.width,
                height == pb.height,
                n == pb.data.len(),
                y < height,
                x <= width,
                !found ==> forall|xx: int, yy: int|
                    #[trigger] v.visible(xx, yy) ==> !scanned_before(
                        xx,
                        yy,
                        x as int,
                        y as int,
                    ),
                found ==> {
                    &&& min_x <= max_x < width
                    &&& min_y <= max_y <= y
                    &&& max_y < height
                    &&& forall|xx: int, yy: int|
                        #[trigger] v.visible(xx, yy) && scanned_before(
                            xx,
                            yy,
                            x as int,
                            y as int,
                        ) ==> min_x <= xx <= max_x && min_y <= yy <= max_y
                    &&& (exists|yy: int| v.visible(min_x as int, yy))
                    &&& (exists|yy: int| v.visible(max_x as int, yy))
                    &&& (exists|xx: int| v.visible(xx, min_y as int))
                    &&& (exists|xx: int| v.visible(xx, max_y as int))
                },
            decreases width - x,
        {
            proof {
                lemma_pixel_start_bounds(v, x as int, y as int);
            }
            assert(4 * ((y as int) * (width as int) + (x as int)) == v.pixel_start(
                x as int,
                y as int,
            ));
            let idx: usize = 4 * ((y as usize) * (width as usize) + (x as usize)) + 3;
            let a = pb.data[idx];
            assert(a == v.alpha(x as int, y as int));
            if a > 0 {
                assert(v.visible(x as int, y as int));
                if !found {
                    found = true;
                    min_x = x;
                    max_x = x;
                    min_y = y;
                    max_y = y;
                } else {
                    if x < min_x {
                        min_x = x;
                    }
                    if x > max_x {
                        max_x = x;
                    }
                    if y > max_y {
                        max_y = y;
                    }
                }
            }
            x = x + 1;
        }
        y = y + 1;
    }
    if found {
        assert forall|xx: int, yy: int| v.visible(xx, yy) implies scanned_before(
            xx,
            yy,
            0,
            height as int,
        ) by {}
        Some(BoundingBox { min_x, min_y, max_x, max_y })
    } else {
        assert(!v.has_visible());
        None
    }
}

/// Copies the sub-image inside the inclusive box into a fresh buffer.
pub fn crop_to_box(pb: &PixelBuffer, b: &BoundingBox) -> (r: PixelBuffer)
    requires
        pb@.wf(),
        b.min_x <= b.max_x,
        (b.max_x as int) < pb@.width,
        b.min_y <= b.max_y,
        (b.max_y as int) < pb@.height,
    ensures
        r@.wf(),
        r@.width == b.max_x - b.min_x + 1,
        r@.height == b.max_y - b.min_y + 1,
        forall|x: int, y: int|
            0 <= x < r@.width && 0 <= y < r@.height ==> r@.pixel(x, y) == pb@.pixel(
                b.min_x + x,
                b.min_y + y,
            ),
{
    let ghost v = pb@;
    let width = pb.width;
    let n = pb.data.len();
    let cw: u32 = b.max_x - b.min_x + 1;
    let ch: u32 = b.max_y - b.min_y + 1;
    let mut data: Vec<u8> = Vec::new();
    let mut y: u32 = 0;
    while y < ch
        invariant
            v == pb@,
            v.wf(),
            width == pb.width,
            n == pb.data.len(),
            cw == b.max_x - b.min_x + 1,
            ch == b.max_y - b.min_y + 1,
            b.min_x <= b.max_x,
            (b.max_x as int) < v.width,
            b.min_y <= b.max_y,
            (b.max_y as int) < v.height,
            y <= ch,
            data@.len() == 4 * ((y as int) * (cw as int)),
            forall|xx: int, yy: int|
                0 <= xx < cw && 0 <= yy < y ==> #[trigger] (ImageView {
                    bytes: data@,
                    width: cw as int,
                    height: ch as int,
                }).pixel(xx, yy) == v.pixel(b.min_x + xx, b.min_y + yy),
        decreases ch - y,
    {
        let mut x: u32 = 0;
        while x < cw
            invariant
                v == pb@,
                v.wf(),
                width == pb.width,
                n == pb.data.len(),
                cw == b.max_x - b.min_x + 1,
                ch == b.max_y - b.min_y + 1,
                b.min_x <= b.max_x,
                (b.max_x as int) < v.width,
                b.min_y <= b.max_y,
                (b.max_y as int) < v.height,
                y < ch,
                x <= cw,
                data@.len() == 4 * ((y as int) * (cw as int) + (x as int)),
                forall|xx: int, yy: int|
                    (0 <= xx < cw && 0 <= yy < y) || (yy == y && 0 <= xx < x)
                        ==> #[trigger] (ImageView {
                        bytes: data@,
                        width: cw as int,
                        height: ch as int,
                    }).pixel(xx, yy) == v.pixel(b.min_x + xx, b.min_y + yy),
            decreases cw - x,
        {
            let sx: u32 = b.min_x + x;
            let sy: u32 = b.min_y + y;
            proof {
                lemma_pixel_start_bounds(v, sx as int, sy as int);
            }
            let src: usize = 4 * ((sy as usize) * (width as usize) + (sx as usize));
            let p0 = pb.data[src];
            let p1 = pb.data[src + 1];
            let p2 = pb.data[src + 2];
            let p3 = pb.data[src + 3];
            let ghost prev = data@;
            data.push(p0);
            data.push(p1);
            data.push(p2);
            data.push(p3);
            proof {
                let cwi = cw as int;
                let base = 4 * ((y as int) * cwi + (x as int));
                assert(data@.subrange(base, base + 4) =~= v.pixel(sx as int, sy as int));
                assert forall|xx: int, yy: int|
                    (0 <= xx < cw && 0 <= yy < y) || (yy == y && 0 <= xx < x) implies (ImageView {
                    bytes: data@,
                    width: cwi,
                    height: ch as int,
                }).pixel(xx, yy) == v.pixel(b.min_x + xx, b.min_y + yy) by {
                    let s = 4 * (yy * cwi + xx);
                    assert(yy * cwi + xx + 1 <= (y as int) * cwi + (x as int))
                        by (nonlinear_arith)
                        requires
                            (0 <= xx < cwi && 0 <= yy < y) || (yy == y && 0 <= xx < x),
                    ;
                    assert((ImageView { bytes: prev, width: cwi, height: ch as int }).pixel(
                        xx,
                        yy,
                    ) == v.pixel(b.min_x + xx, b.min_y + yy));
                    assert(data@.subrange(s, s + 4) =~= prev.subrange(s, s + 4));
                }
            }
            x = x + 1;
        }
        proof {
            assert(4 * ((y as int) * (cw as int) + (cw as int)) == 4 * (((y as int) + 1) * (
            cw as int))) by (nonlinear_arith);
        }
        y = y + 1;
    }
    proof {
        assert(4 * ((ch as int) * (cw as int)) == 4 * (cw as int) * (ch as int))
            by (nonlinear_arith);
    }
    PixelBuffer { data, width: cw, height: ch }
}

/// The result of a crop against one particular box: the dimensions of the
/// inclusive box, and every pixel copied from the source.
pub open spec fn crop_matches(r: ImageView, v: ImageView, b: BoundingBox) -> bool {
    &&& r.width == b.max_x - b.min_x + 1
    &&& r.height == b.max_y - b.min_y + 1
    &&& forall|x: int, y: int|
        0 <= x < r.width && 0 <= y < r.height ==> #[trigger] r.pixel(x, y) == v.pixel(
            b.min_x + x,
            b.min_y + y,
        )
}

/// How a crop result relates to its source: an all-transparent source gives
/// the zero-by-zero image, any other source is cut to its minimal alpha
/// bounding box.
pub open spec fn is_crop_of(r: ImageView, v: ImageView) -> bool {
    &&& r.wf()
    &&& if v.has_visible() {
        exists|b: BoundingBox| #[trigger] b.is_alpha_bbox(v) && crop_matches(r, v, b)
    } else {
        r.width == 0 && r.height == 0
    }
}

/// Cuts the image down to the minimal box covering its pixels of alpha above
/// zero; a fully transparent image becomes the zero-by-zero image.
pub fn crop_transparent_pixels(pb: &PixelBuffer) -> (r: PixelBuffer)
    requires
        pb@.wf(),
    ensures
        is_crop_of(r@, pb@),
{
    match alpha_bounding_box(pb) {
        Some(b) => {
            let r = crop_to_box(pb, &b);
            proof {
                assert(b.is_alpha_bbox(pb@) && crop_matches(r@, pb@, b));
            }
            r
        },
        None => PixelBuffer { data: Vec::new(), width: 0, height: 0 },
    }
}

/// Two minimal alpha bounding boxes of the same image are equal.
pub proof fn lemma_alpha_bbox_unique(v: ImageView, b1: BoundingBox, b2: BoundingBox)
    requires
        b1.is_alpha_bbox(v),
        b2.is_alpha_bbox(v),
    ensures
        b1 == b2,
{
    let ly1 = choose|y: int| v.visible(b1.min_x as int, y);
    let ly2 = choose|y: int| v.visible(b2.min_x as int, y);
    let ry1 = choose|y: int| v.visible(b1.max_x as int, y);
    let ry2 = choose|y: int| v.visible(b2.max_x as int, y);
    let tx1 = choose|x: int| v.visible(x, b1.min_y as int);
    let tx2 = choose|x: int| v.visible(x, b2.min_y as int);
    let bx1 = choose|x: int| v.visible(x, b1.max_y as int);
    let bx2 = choose|x: int| v.visible(x, b2.max_y as int);
    assert(v.visible(b1.min_x as int, ly1) && v.visible(b2.min_x as int, ly2));
    assert(v.visible(b1.max_x as int, ry1) && v.visible(b2.max_x as int, ry2));
    assert(v.visible(tx1, b1.min_y as int) && v.visible(tx2, b2.min_y as int));
    assert(v.visible(bx1, b1.max_y as int) && v.visible(bx2, b2.max_y as int));
}

/// Images of equal dimensions whose pixels all agree have equal bytes.
pub proof fn lemma_pixels_determine_bytes(r1: ImageView, r2: ImageView)
    requires
        r1.wf(),
        r2.wf(),
        r1.width == r2.width,
        r1.height == r2.height,
        forall|x: int, y: int|
            0 <= x < r1.width && 0 <= y < r1.height ==> #[trigger] r1.pixel(x, y) == r2.pixel(
                x,
                y,
            ),
    ensures
        r1.bytes == r2.bytes,
{
    let w = r1.width;
    let h = r1.height;
    assert forall|k: int| 0 <= k < r1.bytes.len() implies r1.bytes[k] == r2.bytes[k] by {
        assert(w > 0 && h > 0) by (nonlinear_arith)
            requires
                0 <= w,
                0 <= h,
                4 * w * h > 0,
        ;
        let p = k / 4;
        let c = k % 4;
        vstd::arithmetic::div_mod::lemma_fundamental_div_mod(k, 4);
        vstd::arithmetic::div_mod::lemma_mod_pos_bound(k, 4);
        assert(4 * p <= k);
        assert(p < w * h) by (nonlinear_arith)
            requires
                4 * p <= k,
                k < 4 * w * h,
        ;
        let yy = p / w;
        let xx = p % w;
        vstd::arithmetic::div_mod::lemma_fundamental_div_mod(p, w);
        vstd::arithmetic::div_mod::lemma_mod_pos_bound(p, w);
        assert(yy < h) by (nonlinear_arith)
            requires
                w * yy + xx == p,
                0 <= xx,
                p < w * h,
                w > 0,
                0 <= h,
        ;
        assert(yy >= 0) by (nonlinear_arith)
            requires
                w * yy + xx == p,
                0 <= p,
                0 <= xx < w,
        ;
        assert(yy * w + xx == p) by (nonlinear_arith)
            requires
                w * yy + xx == p,
        ;
        lemma_pixel_start_bounds(r1, xx, yy);
        assert(r1.pixel(xx, yy) == r2.pixel(xx, yy));
        assert(r1.bytes[k] == r1.pixel(xx, yy)[c]);
        assert(r2.bytes[k] == r2.pixel(xx, yy)[c]);
    }
    assert(r1.bytes =~= r2.bytes);
}

/// The crop relation is a function: a source image admits one crop result.
pub proof fn lemma_crop_deterministic(v: ImageView, r1: ImageView, r2: ImageView)
    requires
        is_crop_of(r1, v),
        is_crop_of(r2, v),
    ensures
        r1 == r2,
{
    if v.has_visible() {
        let b1 = choose|b: BoundingBox| b.is_alpha_bbox(v) && crop_matches(r1, v, b);
        let b2 = choose|b: BoundingBox| b.is_alpha_bbox(v) && crop_matches(r2, v, b);
        lemma_alpha_bbox_unique(v, b1, b2);
        assert forall|x: int, y: int| 0 <= x < r1.width && 0 <= y < r1.height implies #[trigger] r1
            .pixel(x, y) == r2.pixel(x, y) by {
            assert(r1.pixel(x, y) == v.pixel(b1.min_x + x, b1.min_y + y));
            assert(r2.pixel(x, y) == v.pixel(b2.min_x + x, b2.min_y + y));
        }
        lemma_pixels_determine_bytes(r1, r2);
        assert(r1 =~= r2);
    } else {
        assert(r1.bytes =~= r2.bytes);
        assert(r1 =~= r2);
    }
}

/// Cropping is idempotent: the crop of a cropped image is that image itself.
pub proof fn lemma_crop_idempotent(v: ImageView, r: ImageView, rr: ImageView)
    requires
        v.wf(),
        is_crop_of(r, v),
        is_crop_of(rr, r),
    ensures
        rr == r,
{
    if !v.has_visible() {
        assert(!r.has_visible());
        assert(rr.bytes =~= r.bytes);
        assert(rr =~= r);
    } else {
        let b = choose|b: BoundingBox| b.is_alpha_bbox(v) && crop_matches(r, v, b);
        let w = r.width;
        let h = r.height;
        let ly = choose|y: int| v.visible(b.min_x as int, y);
        assert(v.visible(b.min_x as int, ly));
        lemma_pixel_alpha(r, v, 0, ly - b.min_y, b.min_x as int, ly);
        assert(r.visible(0, ly - b.min_y));
        assert(r.has_visible());
        let ry = choose|y: int| v.visible(b.max_x as int, y);
        assert(v.visible(b.max_x as int, ry));
        lemma_pixel_alpha(r, v, w - 1, ry - b.min_y, b.max_x as int, ry);
        assert(r.visible(w - 1, ry - b.min_y));
        let tx = choose|x: int| v.visible(x, b.min_y as int);
        assert(v.visible(tx, b.min_y as int));
        lemma_pixel_alpha(r, v, tx - b.min_x, 0, tx, b.min_y as int);
        assert(r.visible(tx - b.min_x, 0));
        let bx = choose|x: int| v.visible(x, b.max_y as int);
        assert(v.visible(bx, b.max_y as int));
        lemma_pixel_alpha(r, v, bx - b.min_x, h - 1, bx, b.max_y as int);
        assert(r.visible(bx - b.min_x, h - 1));
        let full = BoundingBox {
            min_x: 0,
            min_y: 0,
            max_x: (b.max_x - b.min_x) as u32,
            max_y: (b.max_y - b.min_y) as u32,
        };
        assert(full.tight(r));
        assert(full.is_alpha_bbox(r));
        let b2 = choose|bb: BoundingBox| bb.is_alpha_bbox(r) && crop_matches(rr, r, bb);
        lemma_alpha_bbox_unique(r, b2, full);
        assert forall|x: int, y: int| 0 <= x < rr.width && 0 <= y < rr.height implies #[trigger] rr
            .pixel(x, y) == r.pixel(x, y) by {
            assert(rr.pixel(x, y) == r.pixel(full.min_x + x, full.min_y + y));
        }
        lemma_pixels_determine_bytes(rr, r);
        assert(rr =~= r);
    }
}

/// Pixels that are equal byte for byte have the same alpha value.
pub proof fn lemma_pixel_alpha(v1: ImageView, v2: ImageView, x1: int, y1: int, x2: int, y2: int)
    requires
        v1.wf(),
        v2.wf(),
        v1.in_bounds(x1, y1),
        v2.in_bounds(x2, y2),
        v1.pixel(x1, y1) == v2.pixel(x2, y2),
    ensures
        v1.alpha(x1, y1) == v2.alpha(x2, y2),
{
    lemma_pixel_start_bounds(v1, x1, y1);
    lemma_pixel_start_bounds(v2, x2, y2);
    assert(v1.alpha(x1, y1) == v1.pixel(x1, y1)[3]);
    assert(v2.alpha(x2, y2) == v2.pixel(x2, y2)[3]);
}

/// The one dimension the renderer should honor; at most one side is set.
#[derive(Debug, Clone, Copy, PartialEq, Eq)]
pub struct FitTarget {
    pub width: Option<u32>,
    pub height: Option<u32>,
}

/// Aspect-preserving fit of a width x height image under a maximum dimension
/// cap; a cap of zero means no constraint, and a square image constrains the
/// height.
pub open spec fn spec_fit(width: u32, height: u32, max_dim: u32) -> FitTarget {
    if max_dim == 0 {
        FitTarget { width: None, height: None }
    } else if height >= width {
        FitTarget {
            width: None,
            height: Some(if height <= max_dim { height } else { max_dim }),
        }
    } else {
        FitTarget {
            width: Some(if width <= max_dim { width } else { max_dim }),
            height: None,
        }
    }
}

/// With no cap neither side of the fit target is set; under a cap exactly
/// one side is set, and it exceeds neither the cap nor the image's own
/// dimension.
pub proof fn lemma_fit_target_invariant(width: u32, height: u32, max_dim: u32)
    ensures
        max_dim == 0 ==> spec_fit(width, height, max_dim) == (FitTarget {
            width: None,
            height: None,
        }),
        max_dim > 0 ==> ((spec_fit(width, height, max_dim).width is Some) != (spec_fit(
            width,
            height,
            max_dim,
        ).height is Some)),
        spec_fit(width, height, max_dim).width matches Some(w) ==> w <= max_dim && w <= width,
        spec_fit(width, height, max_dim).height matches Some(h) ==> h <= max_dim && h
            <= height,
{
}

/// Computes the dimension constraint handed to the renderer.
pub fn fit_dimensions(width: u32, height: u32, max_dim: u32) -> (r: FitTarget)
    ensures
        r == spec_fit(width, height, max_dim),
{
    if max_dim == 0 {
        FitTarget { width: None, height: None }
    } else if height >= width {
        let h = if height <= max_dim { height } else { max_dim };
        FitTarget { width: None, height: Some(h) }
    } else {
        let w = if width <= max_dim { width } else { max_dim };
        FitTarget { width: Some(w), height: None }
    }
}

} // verus!

