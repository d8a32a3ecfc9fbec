use vstd::prelude::*;

verus! {

/// Position of pixel `(x, y)` in a row-major grid `width` pixels wide.
pub open spec fn index_spec(width: nat, x: nat, y: nat) -> nat {
    y * width + x
}

/// An `image::RgbImage`, the sample store of the output image. Verus cannot
/// take `image::ImageBuffer` as a declared type (its pixel parameter is bound
/// by an outside trait), so the buffer is held here and reached only through
/// the wrappers below.
#[verifier::external_body]
pub struct RgbStore {
    img: image::RgbImage,
}

/// Width in pixels of an RGB image buffer.
pub uninterp spec fn rgb_image_width(img: RgbStore) -> nat;

/// Height in pixels of an RGB image buffer.
pub uninterp spec fn rgb_image_height(img: RgbStore) -> nat;

/// The raw samples of an RGB image buffer: red, green and blue of each pixel
/// in turn, row by row from the top-left pixel.
pub uninterp spec fn rgb_image_bytes(img: RgbStore) -> Seq<u8>;

/// The three samples of the pixel at position `i` among the cells.
pub open spec fn pixel_of(bytes: Seq<u8>, i: int) -> Seq<u8> {
    bytes.subrange(3 * i, 3 * i + 3)
}

/// Relies on `image::ImageBuffer::new`: a buffer of the given size whose
/// samples are all zero, three per pixel. It computes that length as
/// `3 * width`, then times `height`, and panics where either product
/// overflows `usize`.
#[verifier::external_body]
fn rgb_new(width: u32, height: u32) -> (r: RgbStore)
    requires
        3 * width <= usize::MAX,
        3 * width * height <= usize::MAX,
    ensures
        rgb_image_width(r) == width,
        rgb_image_height(r) == height,
        rgb_image_bytes(r) == Seq::new((3 * width * height) as nat, |i: int| 0u8),
{
    RgbStore { img: image::RgbImage::new(width, height) }
}

/// Relies on `image::ImageBuffer::dimensions`: the width and height the
/// buffer was made with.
#[verifier::external_body]
fn rgb_dimensions(img: &RgbStore) -> (r: (u32, u32))
    ensures
        r.0 == rgb_image_width(*img),
        r.1 == rgb_image_height(*img),
{
    img.img.dimensions()
}

/// Relies on `image::ImageBuffer::get_pixel`: the samples at
/// `(y * width + x) * 3` and the two after it. It panics outside the image.
#[verifier::external_body]
fn rgb_get(img: &RgbStore, x: u32, y: u32) -> (r: [u8; 3])
    requires
        x < rgb_image_width(*img),
        y < rgb_image_height(*img),
    ensures
        r@ == pixel_of(
            rgb_image_bytes(*img),
            index_spec(rgb_image_width(*img), x as nat, y as nat) as int,
        ),
{
    img.img.get_pixel(x, y).0
}

/// Relies on `image::ImageBuffer::put_pixel`: it overwrites the samples at
/// `(y * width + x) * 3` and the two after it, and nothing else. It panics
/// outside the image.
#[verifier::external_body]
fn rgb_put(img: &mut RgbStore, x: u32, y: u32, rgb: [u8; 3])
    requires
        x < rgb_image_width(*old(img)),
        y < rgb_image_height(*old(img)),
    ensures
        rgb_image_width(*final(img)) == rgb_image_width(*old(img)),
        rgb_image_height(*final(img)) == rgb_image_height(*old(img)),
        rgb_image_bytes(*final(img)) == ({
            let base = 3 * index_spec(rgb_image_width(*old(img)), x as nat, y as nat) as int;
            rgb_image_bytes(*old(img)).update(base, rgb@[0]).update(
                base + 1,
                rgb@[1],
            ).update(base + 2, rgb@[2])
        }),
{
    img.img.put_pixel(x, y, image::Rgb(rgb))
}

/// Relies on `image::ImageBuffer::into_raw`: the samples of the buffer, as
/// they are stored.
#[verifier::external_body]
fn rgb_into_raw(img: RgbStore) -> (r: Vec<u8>)
    ensures
        r@ == rgb_image_bytes(img),
{
    img.img.into_raw()
}

/// The pixel that sits at position `i` of a row-major grid of `width` by
/// `height` pixels: the inverse of `index_spec`.
pub fn pixel_coords(width: u32, height: u32, i: usize) -> (r: (u32, u32))
    requires
        i < width * height,
    ensures
        r.0 < width,
        r.1 < height,
        index_spec(width as nat, r.0 as nat, r.1 as nat) == i,
{
    let w: usize = width as usize;
    let h: usize = height as usize;
    proof {
        assert(w > 0) by (nonlinear_arith)
            requires
                i < w * h,
        ;
    }
    let x: usize = i % w;
    let y: usize = i / w;
    proof {
        assert(y * w + x == i) by (nonlinear_arith)
            requires
                x == i % w,
                y == i / w,
                w > 0,
        ;
        assert(y < h) by (nonlinear_arith)
            requires
                y * w + x == i,
                i < w * h,
                w > 0,
                x >= 0,
        ;
    }
    (x as u32, y as u32)
}

/// The output image: a `width` by `height` grid of RGB byte triples, stored
/// row by row from the top-left pixel.
pub struct PixelBuffer {
    img: RgbStore,
}

impl View for PixelBuffer {
    type V = Seq<u8>;

    closed spec fn view(&self) -> Seq<u8> {
        rgb_image_bytes(self.img)
    }
}

proof fn lemma_index_in_grid(width: nat, height: nat, x: nat, y: nat)
    requires
        x < width,
        y < height,
    ensures
        index_spec(width, x, y) < width * height,
{
    assert(y * width + x < width * height) by (nonlinear_arith)
        requires
            x < width,
            y < height,
    ;
}

impl PixelBuffer {
    pub closed spec fn spec_width(&self) -> nat {
        rgb_image_width(self.img)
    }

    pub closed spec fn spec_height(&self) -> nat {
        rgb_image_height(self.img)
    }

    /// Three samples per pixel.
    pub closed spec fn wf(&self) -> bool {
        &&& self@.len() == 3 * (self.spec_width() * self.spec_height())
        &&& self.spec_width() <= u32::MAX
        &&& self.spec_height() <= u32::MAX
        &&& self@.len() <= usize::MAX
    }

    /// A grid of black pixels.
    pub fn new(width: u32, height: u32) -> (r: Self)
        requires
            3 * width <= usize::MAX,
            3 * width * height <= usize::MAX,
        ensures
            r.wf(),
            r.spec_width() == width,
            r.spec_height() == height,
            r@ == Seq::new((3 * width * height) as nat, |i: int| 0u8),
    {
        let img = rgb_new(width, height);
        let r = PixelBuffer { img };
        proof {
            assert(3 * width * height == 3 * (width * height)) by (nonlinear_arith);
        }
        r
    }

    /// Takes the pixels of a whole image in row-major order, writing each
    /// cell once; `None` when their number is not `width * height`, or the
    /// image would not fit in memory.
    pub fn from_pixels(width: u32, height: u32, pixels: &Vec<[u8; 3]>) -> (r: Option<Self>)
        ensures
            r is Some <==> (pixels@.len() == width * height && 3 * width <= usize::MAX && 3 * width
                * height <= usize::MAX),
            r matches Some(b) ==> {
                &&& b.wf()
                &&& b.spec_width() == width
                &&& b.spec_height() == height
                &&& forall|i: int|
                    0 <= i < pixels@.len() ==> #[trigger] pixel_of(b@, i) == pixels@[i]@
            },
    {
        let w: u128 = width as u128;
        let h: u128 = height as u128;
        assert(w * h <= u32::MAX * u32::MAX && 3 * w * h <= 3 * u32::MAX * u32::MAX)
            by (nonlinear_arith)
            requires
                w <= u32::MAX,
                h <= u32::MAX,
        ;
        if 3 * w > usize::MAX as u128 || 3 * w * h > usize::MAX as u128 || pixels.len() as u128
            != w * h {
            return None;
        }
        let mut b = PixelBuffer::new(width, height);
        let n: usize = pixels.len();
        let mut k: usize = 0;
        while k < n
            invariant
                k <= n,
                n == pixels@.len(),
                n == width * height,
                b.wf(),
                b.spec_width() == width,
                b.spec_height() == height,
                forall|i: int| 0 <= i < k ==> #[trigger] pixel_of(b@, i) == pixels@[i]@,
            decreases n - k,
        {
            let (x, y) = b.coords(k);
            let ghost before = b@;
            b.set(x, y, pixels[k]);
            proof {
                assert forall|i: int| 0 <= i < k + 1 implies #[trigger] pixel_of(b@, i)
                    == pixels@[i]@ by {
                    assert(pixel_of(before, i) =~= pixel_of(b@, i) || i == k);
                    if i == k {
                        assert(pixel_of(b@, i) =~= pixels@[i]@);
                    }
                }
            }
            k = k + 1;
        }
        Some(b)
    }

    pub fn width(&self) -> (r: u32)
        ensures
            r == self.spec_width(),
    {
        rgb_dimensions(&self.img).0
    }

    pub fn height(&self) -> (r: u32)
        ensures
            r == self.spec_height(),
    {
        rgb_dimensions(&self.img).1
    }

    /// Position of pixel `(x, y)` among the cells.
    pub fn index(&self, x: u32, y: u32) -> (r: usize)
        requires
            self.wf(),
            x < self.spec_width(),
            y < self.spec_height(),
        ensures
            r == index_spec(self.spec_width(), x as nat, y as nat),
            3 * r + 3 <= self@.len(),
    {
        let w = self.width();
        proof {
            lemma_index_in_grid(self.spec_width(), self.spec_height(), x as nat, y as nat);
            let i = index_spec(self.spec_width(), x as nat, y as nat);
            assert(3 * i + 3 <= 3 * (self.spec_width() * self.spec_height()));
            assert((y as nat) * (w as nat) <= i);
        }
        (y as usize) * (w as usize) + (x as usize)
    }

    /// The pixel that sits at position `i` among the cells.
    pub fn coords(&self, i: usize) -> (r: (u32, u32))
        requires
            self.wf(),
            3 * i < self@.len(),
        ensures
            r.0 < self.spec_width(),
            r.1 < self.spec_height(),
            index_spec(self.spec_width(), r.0 as nat, r.1 as nat) == i,
    {
        pixel_coords(self.width(), self.height(), i)
    }

    /// The samples of pixel `(x, y)`.
    pub fn get(&self, x: u32, y: u32) -> (r: [u8; 3])
        requires
            self.wf(),
            x < self.spec_width(),
            y < self.spec_height(),
        ensures
            r@ == pixel_of(self@, index_spec(self.spec_width(), x as nat, y as nat) as int),
    {
        rgb_get(&self.img, x, y)
    }

    /// Writes pixel `(x, y)` and leaves every other pixel as it was.
    pub fn set(&mut self, x: u32, y: u32, rgb: [u8; 3])
        requires
            old(self).wf(),
            x < old(self).spec_width(),
            y < old(self).spec_height(),
        ensures
            final(self).wf(),
            final(self).spec_width() == old(self).spec_width(),
            final(self).spec_height() == old(self).spec_height(),
            pixel_of(final(self)@, index_spec(old(self).spec_width(), x as nat, y as nat) as int)
                == rgb@,
            forall|j: int|
                0 <= j < old(self).spec_width() * old(self).spec_height() && j != index_spec(
                    old(self).spec_width(),
                    x as nat,
                    y as nat,
                ) ==> #[trigger] pixel_of(final(self)@, j) == pixel_of(old(self)@, j),
    {
        let ghost i = index_spec(self.spec_width(), x as nat, y as nat) as int;
        proof {
            lemma_index_in_grid(self.spec_width(), self.spec_height(), x as nat, y as nat);
        }
        rgb_put(&mut self.img, x, y, rgb);
        proof {
            assert(pixel_of(self@, i) =~= rgb@);
            assert forall|j: int|
                0 <= j < old(self).spec_width() * old(self).spec_height() && j != i implies
                #[trigger] pixel_of(self@, j) == pixel_of(old(self)@, j) by {
                assert(pixel_of(self@, j) =~= pixel_of(old(self)@, j));
            }
        }
    }

    /// The samples of the finished image, red, green and blue of each pixel
    /// in turn, row by row, as an encoder takes them.
    pub fn into_bytes(self) -> (r: Vec<u8>)
        requires
            self.wf(),
        ensures
            r@ == self@,
            r@.len() == 3 * (self.spec_width() * self.spec_height()),
    {
        rgb_into_raw(self.img)
    }
}

/// Row-major layout is a one-to-one correspondence between the pixels of a
/// `width` by `height` grid and the positions `0 .. width * height`: distinct
/// pixels never share a cell, so each cell is written by exactly one pixel.
pub proof fn lemma_index_injective(width: nat, height: nat, x1: nat, y1: nat, x2: nat, y2: nat)
    requires
        x1 < width,
        x2 < width,
        y1 < height,
        y2 < height,
        index_spec(width, x1, y1) == index_spec(width, x2, y2),
    ensures
        x1 == x2,
        y1 == y2,
{
    lemma_index_in_grid(width, height, x1, y1);
    assert(y1 == y2) by (nonlinear_arith)
        requires
            y1 * width + x1 == y2 * width + x2,
            x1 < width,
            x2 < width,
    ;
}

/// Every position of the grid is the cell of some pixel.
pub proof fn lemma_index_surjective(width: nat, height: nat, i: nat)
    requires
        i < width * height,
    ensures
        exists|x: nat, y: nat| x < width && y < height && index_spec(width, x, y) == i,
{
    assert(width > 0) by (nonlinear_arith)
        requires
            i < width * height,
    ;
    let x = i % width;
    let y = i / width;
    assert(y * width + x == i) by (nonlinear_arith)
        requires
            x == i % width,
            y == i / width,
            width > 0,
    ;
    assert(y < height) by (nonlinear_arith)
        requires
            y * width + x == i,
            i < width * height,
            width > 0,
    ;
    assert(index_spec(width, x, y) == i);
}

} // verus!
