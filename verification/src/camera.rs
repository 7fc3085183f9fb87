//! The camera: what is rendered, how large, and how far a path is followed.

use vstd::prelude::*;
use crate::point3::Point3;
use crate::utility::random_offset;
use crate::utility::scalar::Scalar;
use crate::utility::scalar::HALF_BITS;
use crate::utility::scalar::ONE_BITS;
use crate::utility::scalar::SIGN_BIT;
use crate::vec3::Vec3;

pub mod path;
pub mod schedule;

verus! {

/// The pattern of `-1.0`.
pub const MINUS_ONE_BITS: u64 = 0xBFF0_0000_0000_0000;

/// The pattern of `10.0`.
pub const TEN_BITS: u64 = 0x4024_0000_0000_0000;

/// The pattern of `90.0`.
pub const NINETY_BITS: u64 = 0x4056_8000_0000_0000;

/// What a render is asked to be. Angles are in degrees.
#[derive(Clone, Copy, Debug, PartialEq, Eq, Structural)]
pub struct CameraBuilder {
    /// Width of the image over its height.
    pub aspect_ratio: Scalar,
    /// Width of the image in pixels.
    pub image_width: u32,
    /// Random samples taken per pixel.
    pub samples_per_pixel: u32,
    /// Bounces after which a path is given up.
    pub max_depth: u32,
    /// Vertical field of view.
    pub v_fov: Scalar,
    /// Where the camera stands.
    pub lookfrom: Point3,
    /// What the camera looks at.
    pub lookat: Point3,
    /// Which way is up for the camera.
    pub vup: Vec3,
    /// Angle of the cone of rays through each pixel; zero for a pinhole.
    pub defocus_angle: Scalar,
    /// Distance from the camera to the plane in perfect focus.
    pub focus_dist: Scalar,
}

/// The geometry that follows from a [`CameraBuilder`] by trigonometry and
/// vector algebra: the image height that the aspect ratio gives, the weight
/// of one sample, the centre of pixel (0, 0), the steps from pixel to pixel,
/// and the axes of the defocus disk.
#[derive(Clone, Copy, Debug, PartialEq, Eq, Structural)]
pub struct Viewport {
    pub image_height: u32,
    pub pixel_sample_scale: Scalar,
    pub pixel_00_loc: Point3,
    pub pixel_delta_u: Vec3,
    pub pixel_delta_v: Vec3,
    pub defocus_disk_u: Vec3,
    pub defocus_disk_v: Vec3,
}

/// A camera ready to render. An image is never less than one pixel high.
#[derive(Clone, Copy, Debug, PartialEq, Eq, Structural)]
pub struct Camera {
    pub image_width: u32,
    pub samples_per_pixel: u32,
    pub max_depth: u32,
    pub defocus_angle: Scalar,
    pub defocus_disk_u: Vec3,
    pub defocus_disk_v: Vec3,
    pub image_height: u32,
    pub center: Point3,
    pub pixel_00_loc: Point3,
    pub pixel_delta_u: Vec3,
    pub pixel_delta_v: Vec3,
    pub pixel_sample_scale: Scalar,
}

impl Default for CameraBuilder {
    /// A square image of 100 pixels a side, ten samples per pixel and ten
    /// bounces, seen through a pinhole at the origin that looks down the
    /// negative z axis with a field of view of 90 degrees.
    fn default() -> (b: CameraBuilder)
        ensures
            b.aspect_ratio.bits == ONE_BITS,
            b.image_width == 100,
            b.samples_per_pixel == 10,
            b.max_depth == 10,
            b.v_fov.bits == NINETY_BITS,
            b.lookfrom == (Point3 {
                e0: Scalar { bits: 0 },
                e1: Scalar { bits: 0 },
                e2: Scalar { bits: 0 },
            }),
            b.lookat == (Point3 {
                e0: Scalar { bits: 0 },
                e1: Scalar { bits: 0 },
                e2: Scalar { bits: MINUS_ONE_BITS },
            }),
            b.vup == (Vec3 {
                e0: Scalar { bits: 0 },
                e1: Scalar { bits: ONE_BITS },
                e2: Scalar { bits: 0 },
            }),
            b.defocus_angle.bits == 0,
            b.focus_dist.bits == TEN_BITS,
    {
        CameraBuilder {
            aspect_ratio: Scalar::one(),
            image_width: 100,
            samples_per_pixel: 10,
            max_depth: 10,
            v_fov: Scalar::from_bits(NINETY_BITS),
            lookfrom: Point3::new(Scalar::zero(), Scalar::zero(), Scalar::zero()),
            lookat: Point3::new(Scalar::zero(), Scalar::zero(), Scalar::from_bits(MINUS_ONE_BITS)),
            vup: Vec3::new(Scalar::zero(), Scalar::one(), Scalar::zero()),
            defocus_angle: Scalar::zero(),
            focus_dist: Scalar::from_bits(TEN_BITS),
        }
    }
}

impl CameraBuilder {
    /// The height of an image for which the aspect ratio gives `rows` rows:
    /// `rows`, but never less than one.
    pub open spec fn spec_image_height(rows: u32) -> u32 {
        if rows < 1 {
            1
        } else {
            rows
        }
    }

    /// The height of an image for which the aspect ratio gives `rows` rows.
    #[verifier::when_used_as_spec(spec_image_height)]
    pub fn image_height(rows: u32) -> (height: u32)
        ensures
            height == CameraBuilder::spec_image_height(rows),
    {
        if rows < 1 {
            1
        } else {
            rows
        }
    }

    /// The camera for this request and the geometry that follows from it.
    /// The camera stands at `lookfrom`; an image height of zero becomes one.
    pub fn build(self, viewport: Viewport) -> (c: Camera)
        ensures
            c.wf(),
            c.image_width == self.image_width,
            c.samples_per_pixel == self.samples_per_pixel,
            c.max_depth == self.max_depth,
            c.defocus_angle == self.defocus_angle,
            c.center == self.lookfrom,
            c.image_height == CameraBuilder::spec_image_height(viewport.image_height),
            c.pixel_sample_scale == viewport.pixel_sample_scale,
            c.pixel_00_loc == viewport.pixel_00_loc,
            c.pixel_delta_u == viewport.pixel_delta_u,
            c.pixel_delta_v == viewport.pixel_delta_v,
            c.defocus_disk_u == viewport.defocus_disk_u,
            c.defocus_disk_v == viewport.defocus_disk_v,
    {
        let image_height: u32 = CameraBuilder::image_height(viewport.image_height);
        Camera {
            image_width: self.image_width,
            samples_per_pixel: self.samples_per_pixel,
            max_depth: self.max_depth,
            defocus_angle: self.defocus_angle,
            defocus_disk_u: viewport.defocus_disk_u,
            defocus_disk_v: viewport.defocus_disk_v,
            image_height,
            center: self.lookfrom,
            pixel_00_loc: viewport.pixel_00_loc,
            pixel_delta_u: viewport.pixel_delta_u,
            pixel_delta_v: viewport.pixel_delta_v,
            pixel_sample_scale: viewport.pixel_sample_scale,
        }
    }
}

impl Camera {
    /// Whether the image has a height, as it does for every camera that
    /// [`CameraBuilder::build`] made.
    pub open spec fn wf(self) -> bool {
        self.image_height >= 1
    }

    /// The number of pixels in the image.
    pub open spec fn spec_pixel_count(self) -> nat {
        (self.image_width * self.image_height) as nat
    }

    /// The place of pixel (`i`, `j`) in a row-major buffer: rows from the
    /// top, and within a row from the left.
    pub open spec fn spec_pixel_index(self, i: u32, j: u32) -> nat {
        (j * self.image_width + i) as nat
    }

    /// Whether every ray starts at the camera's centre, which it does when
    /// the defocus angle is zero or less.
    pub open spec fn spec_pinhole(&self) -> bool {
        self.defocus_angle.spec_le(Scalar { bits: 0 })
    }

    /// The number of pixels in the image, or `None` when a buffer of that
    /// many cannot be addressed.
    pub fn pixel_count(&self) -> (n: Option<usize>)
        ensures
            n == if self.spec_pixel_count() <= usize::MAX {
                Some(self.spec_pixel_count() as usize)
            } else {
                None
            },
    {
        let width: u64 = self.image_width as u64;
        let height: u64 = self.image_height as u64;
        assert(width * height <= 0xFFFF_FFFF * 0xFFFF_FFFF) by (nonlinear_arith)
            requires
                width <= 0xFFFF_FFFF,
                height <= 0xFFFF_FFFF,
        ;
        let count: u64 = width * height;
        if count <= usize::MAX as u64 {
            Some(count as usize)
        } else {
            None
        }
    }

    /// The place of pixel (`i`, `j`) in the image's buffer, for a pixel of
    /// the image and an image whose buffer can be addressed.
    pub fn pixel_index(&self, i: u32, j: u32) -> (k: usize)
        requires
            i < self.image_width,
            j < self.image_height,
            self.spec_pixel_count() <= usize::MAX,
        ensures
            k == self.spec_pixel_index(i, j),
            k < self.spec_pixel_count(),
    {
        proof {
            lemma_pixel_index_in_bounds(*self, i, j);
        }
        let width: usize = self.image_width as usize;
        let row: usize = j as usize;
        assert(row * width <= j * self.image_width + i) by (nonlinear_arith)
            requires
                row == j,
                width == self.image_width,
                i >= 0,
        ;
        row * width + i as usize
    }

    /// A random offset within the footprint of a pixel, and none in depth:
    /// first across, then down, each the double made of one word of the
    /// generator less a half, a whole number of `2^53`rds in `[-0.5, 0.5)`.
    pub fn sample_square(rng: &mut rand::rngs::StdRng) -> (offset: Vec3)
        ensures
            exists|k: nat|
                k < crate::utility::scalar::UNIT_STEPS && offset.e0.is_centered_fraction(k),
            exists|k: nat|
                k < crate::utility::scalar::UNIT_STEPS && offset.e1.is_centered_fraction(k),
            (Scalar { bits: (HALF_BITS + SIGN_BIT) as u64 }).spec_le(offset.e0),
            offset.e0.spec_lt(Scalar { bits: HALF_BITS }),
            (Scalar { bits: (HALF_BITS + SIGN_BIT) as u64 }).spec_le(offset.e1),
            offset.e1.spec_lt(Scalar { bits: HALF_BITS }),
            offset.e2.bits == 0,
    {
        let across = random_offset(rng);
        let ghost ka = choose|k: nat|
            k < crate::utility::scalar::UNIT_STEPS && across.is_centered_fraction(k);
        let down = random_offset(rng);
        let ghost kd = choose|k: nat|
            k < crate::utility::scalar::UNIT_STEPS && down.is_centered_fraction(k);
        let offset = Vec3::new(across, down, Scalar::zero());
        assert(offset.e0.is_centered_fraction(ka) && offset.e1.is_centered_fraction(kd));
        offset
    }

    /// Whether the camera is a pinhole: every ray starts at its centre.
    /// Otherwise rays start on the defocus disk around it.
    #[verifier::when_used_as_spec(spec_pinhole)]
    pub fn pinhole(&self) -> (b: bool)
        ensures
            b == self.spec_pinhole(),
    {
        self.defocus_angle.le(Scalar::zero())
    }
}

/// Every pixel of the image has a place inside the buffer.
pub proof fn lemma_pixel_index_in_bounds(c: Camera, i: u32, j: u32)
    requires
        i < c.image_width,
        j < c.image_height,
    ensures
        c.spec_pixel_index(i, j) < c.spec_pixel_count(),
{
    let w = c.image_width as int;
    let h = c.image_height as int;
    assert(j * w + i < w * h) by (nonlinear_arith)
        requires
            0 <= i < w,
            0 <= j < h,
    ;
}

/// No two pixels share a place in the buffer.
pub proof fn lemma_pixel_index_is_injective(c: Camera, i1: u32, j1: u32, i2: u32, j2: u32)
    requires
        i1 < c.image_width,
        i2 < c.image_width,
        c.spec_pixel_index(i1, j1) == c.spec_pixel_index(i2, j2),
    ensures
        i1 == i2,
        j1 == j2,
{
    let w = c.image_width as int;
    assert(j1 == j2 && i1 == i2) by (nonlinear_arith)
        requires
            0 <= i1 < w,
            0 <= i2 < w,
            0 <= j1,
            0 <= j2,
            j1 * w + i1 == j2 * w + i2,
    ;
}

/// Every place in the buffer belongs to a pixel: the one in row `k / width`
/// and column `k % width`.
pub proof fn lemma_pixel_index_is_onto(c: Camera, k: nat)
    requires
        k < c.spec_pixel_count(),
    ensures
        c.image_width > 0,
        k % (c.image_width as nat) < c.image_width,
        k / (c.image_width as nat) < c.image_height,
        c.spec_pixel_index((k % (c.image_width as nat)) as u32, (k / (c.image_width as nat)) as u32)
            == k,
{
    let w = c.image_width as int;
    let h = c.image_height as int;
    let k = k as int;
    assert(w > 0) by (nonlinear_arith)
        requires
            0 <= k < w * h,
            0 <= w,
            0 <= h,
    ;
    assert(0 <= k % w < w && 0 <= k / w < h && (k / w) * w + k % w == k) by (nonlinear_arith)
        requires
            0 <= k < w * h,
            0 < w,
            0 <= h,
    ;
}

/// In a row-major buffer the pixels follow each other as they are rendered:
/// the next pixel of a row comes next, and the first pixel of the next row
/// comes after the last of this one.
pub proof fn lemma_pixel_index_is_row_major(c: Camera, i: u32, j: u32)
    requires
        i < c.image_width,
    ensures
        i + 1 < c.image_width ==> c.spec_pixel_index((i + 1) as u32, j) == c.spec_pixel_index(i, j)
            + 1,
        i + 1 == c.image_width && j < u32::MAX ==> c.spec_pixel_index(0, (j + 1) as u32)
            == c.spec_pixel_index(i, j) + 1,
{
    let w = c.image_width as int;
    assert((j + 1) * w == j * w + w) by (nonlinear_arith);
}

} // verus!
