//! Shared data types: exact rational coordinates, points, polygons, and the
//! plain settings and message records the application exchanges with its shell.

use vstd::prelude::*;

verus! {

/// Largest numerator or denominator of a well-formed coordinate: with both
/// bounded by `2^60`, the products of exact area arithmetic fit in `i128`.
pub const COORD_LIMIT: u64 = 0x1000_0000_0000_0000;

/// An exact nonnegative rational coordinate, `num / den`.
///
/// Canvas geometry is carried as rationals so that grid steps like
/// `w / k` are represented without rounding: the coordinate `col * w / k`
/// is simply the pair `(col * w, k)`.
#[derive(Clone, Copy, Debug, PartialEq, Eq, Structural)]
pub struct Frac {
    pub num: u64,
    pub den: u64,
}

impl Frac {
    /// A well-formed coordinate has a positive denominator, and is small
    /// enough that products used in exact area arithmetic fit in `i128`.
    pub open spec fn wf(self) -> bool {
        1 <= self.den <= COORD_LIMIT && self.num <= COORD_LIMIT
    }

    /// The rational value `self` is at most the integer `v`.
    pub open spec fn le_int(self, v: int) -> bool {
        self.num <= v * self.den
    }

    /// The rational value `self` is strictly below the integer `v`.
    pub open spec fn lt_int(self, v: int) -> bool {
        self.num < v * self.den
    }

    /// Builds the coordinate `num / den`.
    pub fn new(num: u64, den: u64) -> (r: Frac)
        requires
            1 <= den <= COORD_LIMIT,
            num <= COORD_LIMIT,
        ensures
            r.num == num,
            r.den == den,
            r.wf(),
    {
        Frac { num, den }
    }
}

/// A point in 2-D canvas space: origin at the top left, `x` growing to the
/// right, `y` growing downwards.
#[derive(Clone, Copy, Debug, PartialEq, Eq, Structural)]
pub struct Point {
    pub x: Frac,
    pub y: Frac,
}

impl Point {
    pub open spec fn wf(self) -> bool {
        self.x.wf() && self.y.wf()
    }

    /// The point lies in the closed canvas rectangle `[0, w] x [0, h]`.
    pub open spec fn in_canvas(self, w: int, h: int) -> bool {
        self.x.le_int(w) && self.y.le_int(h)
    }
}

/// A polygon: an ordered, non-empty loop of points; the closing segment from
/// the last point back to the first is implied.
#[derive(Clone, Debug, PartialEq, Eq)]
pub struct Polygon {
    pub pnts: Vec<Point>,
}

impl Polygon {
    pub open spec fn wf(self) -> bool {
        self.pnts@.len() >= 1
        && forall|i: int| 0 <= i < self.pnts@.len() ==> #[trigger] self.pnts@[i].wf()
    }

    /// Every vertex lies in the closed canvas rectangle `[0, w] x [0, h]`.
    pub open spec fn in_canvas(self, w: int, h: int) -> bool {
        forall|i: int| 0 <= i < self.pnts@.len() ==> #[trigger] self.pnts@[i].in_canvas(w, h)
    }
}

/// The state the application keeps between calls: the image paths found by
/// the last scan, the index of the image on display, and the settings.
#[derive(Debug)]
pub struct RevealState {
    pub images: Vec<String>,
    pub image_index: usize,
    pub settings: RevealSettings,
}

impl RevealState {
    /// The index points into the image list (trivially so while the list is
    /// empty), and the list is small enough for signed index arithmetic.
    pub open spec fn wf(self) -> bool {
        &&& self.images@.len() <= isize::MAX
        &&& self.images@.len() > 0 ==> self.image_index < self.images@.len()
    }
}

impl Default for RevealState {
    fn default() -> (r: Self)
        ensures
            r.images@ == Seq::<String>::empty(),
            r.image_index == 0,
            r.wf(),
    {
        RevealState { images: Vec::new(), image_index: 0, settings: RevealSettings::default() }
    }
}

/// Which covering the generator should produce.
#[derive(Clone, Copy, Debug, PartialEq, Eq, Structural)]
pub enum CoveringType {
    Triangles,
    Rectangles,
}

impl Default for CoveringType {
    fn default() -> (r: Self)
        ensures
            r == CoveringType::Triangles,
    {
        CoveringType::Triangles
    }
}

/// How covering shapes are removed again; only manual removal exists.
#[derive(Clone, Copy, Debug, PartialEq, Eq, Structural)]
pub enum UncoveringStrategy {
    Manual,
}

impl Default for UncoveringStrategy {
    fn default() -> (r: Self)
        ensures
            r == UncoveringStrategy::Manual,
    {
        UncoveringStrategy::Manual
    }
}

/// User-facing settings of the reveal game.
#[derive(Clone, Debug)]
pub struct RevealSettings {
    pub image_source: Option<String>,
    pub covering_type: CoveringType,
    /// Approximate number of objects to cover the image with.
    pub covering_object_count: usize,
    pub uncovering_strategy: UncoveringStrategy,
    pub show_control_buttons: bool,
}

impl Default for RevealSettings {
    fn default() -> (r: Self)
        ensures
            r.image_source is None,
            r.covering_type == CoveringType::Rectangles,
            r.covering_object_count == 10,
            r.uncovering_strategy == UncoveringStrategy::Manual,
            r.show_control_buttons,
    {
        RevealSettings {
            image_source: None,
            covering_type: CoveringType::Rectangles,
            covering_object_count: 10,
            uncovering_strategy: UncoveringStrategy::Manual,
            show_control_buttons: true,
        }
    }
}

/// One image as handed to the presentation layer, with an optional
/// quiz question about it.
#[derive(Debug)]
pub struct RevealObject {
    /// Base64 encoded image
    pub image: String,
    /// MIME subtype of the image, e.g. 'png' or 'webp'
    pub image_type: String,
    pub question: Option<String>,
    pub answers: Vec<String>,
    pub correct_answer: usize,
}

/// An image with the metadata the game reads from it.
#[derive(Debug)]
pub struct ImageWithMeta {
    /// The base64-encoded image data.
    pub base64: String,
    /// The type of the image (e.g., "jpeg", "png").
    pub image_type: String,
    /// The year the image was taken, if its metadata says so.
    pub date_taken: Option<i64>,
}

} // verus!
