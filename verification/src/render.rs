//! What an evaluation is asked to render, and what comes back.

use vstd::prelude::*;

verus! {

/// A double-precision number, held as its bit pattern. The runtime relays
/// such numbers between its callers and the engine and never computes with
/// them. It can tell whether two of them are equal as numbers, which the
/// bits decide: see [`Scalar::equals`].
#[derive(Clone, Copy, Debug, PartialEq, Eq, Hash, Structural)]
pub struct Scalar(pub u64);

/// A point or an extent in the plane.
#[derive(Clone, Copy, Debug, PartialEq, Eq, Hash, Structural)]
pub struct Vector2 {
    pub x: Scalar,
    pub y: Scalar,
}

/// A size in whole pixels.
#[derive(Clone, Copy, Debug, PartialEq, Eq, Hash, Structural)]
pub struct Resolution {
    pub x: u32,
    pub y: u32,
}

/// An affine map of the plane: the two columns of its matrix, then the
/// translation.
#[derive(Clone, Copy, Debug, PartialEq, Eq, Hash, Structural)]
pub struct Transform {
    pub x_axis: Vector2,
    pub y_axis: Vector2,
    pub translation: Vector2,
}

impl Scalar {
    /// The bits stand for no number: the exponent is all ones and the
    /// fraction is not zero.
    pub open spec fn is_nan(self) -> bool {
        (self.0 & 0x7FF0_0000_0000_0000) == 0x7FF0_0000_0000_0000 && (self.0 & 0x000F_FFFF_FFFF_FFFF) != 0
    }

    /// The bits stand for zero, of either sign.
    pub open spec fn is_zero(self) -> bool {
        (self.0 & 0x7FFF_FFFF_FFFF_FFFF) == 0
    }

    /// The two scalars are equal as numbers: both stand for a number, and
    /// they have the same bits or are both zero.
    pub open spec fn equals(self, other: Scalar) -> bool {
        !self.is_nan() && !other.is_nan() && (self.0 == other.0 || (self.is_zero() && other.is_zero()))
    }

    /// Whether the two scalars are equal as numbers.
    pub fn same_number(self, other: Scalar) -> (r: bool)
        ensures
            r == self.equals(other),
    {
        let self_nan = (self.0 & 0x7FF0_0000_0000_0000) == 0x7FF0_0000_0000_0000 && (self.0 & 0x000F_FFFF_FFFF_FFFF) != 0;
        let other_nan = (other.0 & 0x7FF0_0000_0000_0000) == 0x7FF0_0000_0000_0000 && (other.0 & 0x000F_FFFF_FFFF_FFFF) != 0;
        let both_zero = (self.0 & 0x7FFF_FFFF_FFFF_FFFF) == 0 && (other.0 & 0x7FFF_FFFF_FFFF_FFFF) == 0;
        !self_nan && !other_nan && (self.0 == other.0 || both_zero)
    }
}

impl Vector2 {
    /// The two are equal as pairs of numbers.
    pub open spec fn equals(self, other: Vector2) -> bool {
        self.x.equals(other.x) && self.y.equals(other.y)
    }

    /// Whether the two are equal as pairs of numbers.
    pub fn same_point(self, other: Vector2) -> (r: bool)
        ensures
            r == self.equals(other),
    {
        self.x.same_number(other.x) && self.y.same_number(other.y)
    }
}

impl Transform {
    /// The two transforms are equal number by number.
    pub open spec fn equals(self, other: Transform) -> bool {
        self.x_axis.equals(other.x_axis) && self.y_axis.equals(other.y_axis) && self.translation.equals(other.translation)
    }

    /// Whether the two transforms are equal number by number.
    pub fn same_transform(self, other: Transform) -> (r: bool)
        ensures
            r == self.equals(other),
    {
        self.x_axis.same_point(other.x_axis) && self.y_axis.same_point(other.y_axis) && self.translation.same_point(other.translation)
    }
}

/// The part of the document that an evaluation looks at.
#[derive(Clone, Copy, Debug, PartialEq, Eq, Hash, Structural)]
pub struct Footprint {
    pub transform: Transform,
    pub resolution: Resolution,
}

/// The clock of an evaluation: the wall time, and the time the animation has
/// run, in whole seconds and the nanoseconds beyond them.
#[derive(Clone, Copy, Debug, PartialEq, Eq, Hash, Structural)]
pub struct TimingInformation {
    pub time: Scalar,
    pub animation_seconds: u64,
    pub animation_subsec_nanos: u32,
}

/// What kind of output the engine is to produce.
#[derive(Clone, Copy, Debug, PartialEq, Eq, Hash, Structural)]
pub enum ExportFormat {
    Svg,
    Raster,
}

/// How artwork is drawn.
#[derive(Clone, Copy, Debug, PartialEq, Eq, Hash, Structural)]
pub enum RenderMode {
    Normal,
    Outline,
    SvgPreview,
}

/// Everything the engine needs to know for one evaluation.
#[derive(Clone, Copy, Debug, PartialEq, Eq, Hash, Structural)]
pub struct RenderConfig {
    pub viewport: Footprint,
    pub scale: Scalar,
    pub export_format: ExportFormat,
    pub time: TimingInformation,
    pub pointer: Vector2,
    pub render_mode: RenderMode,
    pub hide_artboards: bool,
    pub for_export: bool,
    pub for_eyedropper: bool,
}

/// A live surface that the engine has drawn into.
#[derive(Clone, Copy, Debug, PartialEq, Eq, Hash, Structural)]
pub struct SurfaceFrame {
    pub surface_id: u64,
    pub resolution: Resolution,
    pub transform: Transform,
}

impl SurfaceFrame {
    /// The two frames show the same surface in the same way: the same
    /// surface, of the same size, under transforms that are equal as
    /// numbers.
    pub open spec fn equals(self, other: SurfaceFrame) -> bool {
        self.surface_id == other.surface_id && self.resolution == other.resolution && self.transform.equals(other.transform)
    }

    /// Whether the two frames show the same surface in the same way.
    pub fn same_surface(self, other: SurfaceFrame) -> (r: bool)
        ensures
            r == self.equals(other),
    {
        self.surface_id == other.surface_id && self.resolution.x == other.resolution.x && self.resolution.y == other.resolution.y
            && self.transform.same_transform(other.transform)
    }
}

/// Geometry that the engine recomputed while rendering. The runtime hands
/// each record on unread.
#[derive(Clone, Debug, PartialEq, Eq)]
pub struct RenderMetadata<A> {
    pub upstream_footprints: A,
    pub local_transforms: A,
    pub first_element_source_id: A,
    pub click_targets: A,
    pub clip_targets: A,
}

/// The forms a rendered output can take.
#[derive(Clone, Debug, PartialEq, Eq)]
pub enum RenderOutputType<A> {
    /// A live surface, with its transform written out as the matrix
    /// attribute of the markup (empty for the identity).
    CanvasFrame { frame: SurfaceFrame, matrix: String },
    /// Vector markup, with the images it refers to.
    Svg { svg: String, image_data: A },
    /// A texture that stays with the engine.
    Texture,
    /// Raw pixels, four bytes each, row by row.
    Buffer { data: Vec<u8>, width: u32, height: u32 },
    /// A form this runtime has no use for, with the words that describe it
    /// in a diagnostic.
    Unsupported { description: String },
}

/// The forms of a rendered output, as plain values.
pub enum RenderOutputTypeView<A> {
    CanvasFrame { frame: SurfaceFrame, matrix: Seq<char> },
    Svg { svg: Seq<char>, image_data: A },
    Texture,
    Buffer { data: Seq<u8>, width: u32, height: u32 },
    Unsupported { description: Seq<char> },
}

impl<A> View for RenderOutputType<A> {
    type V = RenderOutputTypeView<A>;

    open spec fn view(&self) -> RenderOutputTypeView<A> {
        match *self {
            RenderOutputType::CanvasFrame { frame, matrix } => RenderOutputTypeView::CanvasFrame { frame, matrix: matrix@ },
            RenderOutputType::Svg { svg, image_data } => RenderOutputTypeView::Svg { svg: svg@, image_data },
            RenderOutputType::Texture => RenderOutputTypeView::Texture,
            RenderOutputType::Buffer { data, width, height } => RenderOutputTypeView::Buffer { data: data@, width, height },
            RenderOutputType::Unsupported { description } => RenderOutputTypeView::Unsupported { description: description@ },
        }
    }
}

/// A rendered output with the geometry that belongs to it.
#[derive(Clone, Debug, PartialEq, Eq)]
pub struct RenderOutput<A> {
    pub data: RenderOutputType<A>,
    pub metadata: RenderMetadata<A>,
}

/// A rendered output, as plain values.
pub struct RenderOutputView<A> {
    pub data: RenderOutputTypeView<A>,
    pub metadata: RenderMetadata<A>,
}

impl<A> View for RenderOutput<A> {
    type V = RenderOutputView<A>;

    open spec fn view(&self) -> RenderOutputView<A> {
        RenderOutputView { data: self.data@, metadata: self.metadata }
    }
}

/// The value that an evaluation of the graph produced.
#[derive(Clone, Debug, PartialEq, Eq)]
pub enum TaggedValue<A> {
    /// Something to show, save or sample.
    RenderOutput(RenderOutput<A>),
    /// Any other value, with the words that describe it in a diagnostic.
    Other { description: String },
}

/// The value of an evaluation, as plain values.
pub enum TaggedValueView<A> {
    RenderOutput(RenderOutputView<A>),
    Other { description: Seq<char> },
}

impl<A> View for TaggedValue<A> {
    type V = TaggedValueView<A>;

    open spec fn view(&self) -> TaggedValueView<A> {
        match *self {
            TaggedValue::RenderOutput(output) => TaggedValueView::RenderOutput(output@),
            TaggedValue::Other { description } => TaggedValueView::Other { description: description@ },
        }
    }
}

} // verus!
