//! The kinds of shadow that an object can cast.

use vstd::prelude::*;

verus! {

/// Where a shadow falls: behind the object, or inside it.
#[derive(Clone, Copy, Debug, PartialEq, Eq, Hash, Structural)]
pub enum ShadowType {
    Drop,
    Inner,
}

/// How a choice is offered in a panel.
#[derive(Clone, Copy, Debug, PartialEq, Eq, Hash, Structural)]
pub enum ChoiceWidgetHint {
    Dropdown,
    RadioButtons,
}

/// What a panel shows for one choice.
#[derive(Clone, Copy, Debug, PartialEq, Eq)]
pub struct VariantMetadata {
    pub name: &'static str,
    pub label: &'static str,
    pub description: Option<&'static str>,
    pub icon: Option<&'static str>,
}

/// What a panel shows for one choice, as plain values.
pub struct VariantMetadataView {
    pub name: Seq<char>,
    pub label: Seq<char>,
    pub description: Option<Seq<char>>,
    pub icon: Option<Seq<char>>,
}

impl View for VariantMetadata {
    type V = VariantMetadataView;

    open spec fn view(&self) -> VariantMetadataView {
        VariantMetadataView {
            name: self.name@,
            label: self.label@,
            description: match self.description {
                Some(d) => Some(d@),
                None => None,
            },
            icon: match self.icon {
                Some(i) => Some(i@),
                None => None,
            },
        }
    }
}

impl ShadowType {
    /// The number that stands for the kind.
    pub open spec fn number(self) -> nat {
        match self {
            ShadowType::Drop => 0,
            ShadowType::Inner => 1,
        }
    }

    /// The kind that a number stands for. A number that stands for none is
    /// read as the default, a drop shadow.
    pub open spec fn of_number(number: nat) -> ShadowType {
        if number == 1 {
            ShadowType::Inner
        } else {
            ShadowType::Drop
        }
    }

    /// The words that a panel shows for the kind.
    pub open spec fn words(self) -> Seq<char> {
        match self {
            ShadowType::Drop => "Drop Shadow"@,
            ShadowType::Inner => "Inner Shadow"@,
        }
    }

    /// What a panel shows for the kind.
    pub open spec fn metadata(self) -> VariantMetadataView {
        match self {
            ShadowType::Drop => VariantMetadataView {
                name: "Drop"@,
                label: "Drop Shadow"@,
                description: Some("Cast a shadow behind the object"@),
                icon: None,
            },
            ShadowType::Inner => VariantMetadataView {
                name: "Inner"@,
                label: "Inner Shadow"@,
                description: Some("Cast a shadow inside the object"@),
                icon: None,
            },
        }
    }

    /// The kinds are offered in a dropdown.
    pub fn widget_hint() -> (r: ChoiceWidgetHint)
        ensures
            r == ChoiceWidgetHint::Dropdown,
    {
        ChoiceWidgetHint::Dropdown
    }

    /// What the choice is about.
    pub fn description() -> (r: Option<&'static str>)
        ensures
            r matches Some(words) && words@ == "Select the type of shadow to apply"@,
    {
        Some("Select the type of shadow to apply")
    }

    /// The number that stands for the kind.
    pub fn as_u32(&self) -> (r: u32)
        ensures
            r == self.number(),
    {
        match self {
            ShadowType::Drop => 0,
            ShadowType::Inner => 1,
        }
    }

    /// The number that stands for the kind, as a byte.
    pub fn to_primitive(self) -> (r: u8)
        ensures
            r == self.number(),
    {
        match self {
            ShadowType::Drop => 0,
            ShadowType::Inner => 1,
        }
    }

    /// The kind that a byte stands for; the default for a byte that stands
    /// for none.
    pub fn from_primitive(number: u8) -> (r: ShadowType)
        ensures
            r == Self::of_number(number as nat),
    {
        if number == 1 {
            ShadowType::Inner
        } else {
            ShadowType::Drop
        }
    }

    /// The words that a panel shows for the kind.
    pub fn label(&self) -> (r: String)
        ensures
            r@ == self.words(),
    {
        match self {
            ShadowType::Drop => "Drop Shadow".to_owned(),
            ShadowType::Inner => "Inner Shadow".to_owned(),
        }
    }

    /// The choices as a panel lists them: one group, a drop shadow first.
    pub fn list() -> (r: Vec<Vec<(ShadowType, VariantMetadata)>>)
        ensures
            r@.len() == 1,
            r@[0]@.len() == 2,
            r@[0]@[0].0 == ShadowType::Drop,
            r@[0]@[1].0 == ShadowType::Inner,
            forall|i: int| 0 <= i < 2 ==> (#[trigger] r@[0]@[i]).1@ == r@[0]@[i].0.metadata(),
    {
        let mut entries: Vec<(ShadowType, VariantMetadata)> = Vec::new();
        entries.push(
            (
                ShadowType::Drop,
                VariantMetadata { name: "Drop", label: "Drop Shadow", description: Some("Cast a shadow behind the object"), icon: None },
            ),
        );
        entries.push(
            (
                ShadowType::Inner,
                VariantMetadata { name: "Inner", label: "Inner Shadow", description: Some("Cast a shadow inside the object"), icon: None },
            ),
        );
        let mut list: Vec<Vec<(ShadowType, VariantMetadata)>> = Vec::new();
        list.push(entries);
        list
    }
}

impl Default for ShadowType {
    fn default() -> (r: ShadowType)
        ensures
            r == ShadowType::Drop,
    {
        ShadowType::Drop
    }
}

impl From<u8> for ShadowType {
    fn from(number: u8) -> (r: Self) {
        ShadowType::from_primitive(number)
    }
}

impl vstd::std_specs::convert::FromSpecImpl<u8> for ShadowType {
    open spec fn obeys_from_spec() -> bool {
        true
    }

    open spec fn from_spec(number: u8) -> Self {
        ShadowType::of_number(number as nat)
    }
}

impl From<ShadowType> for u8 {
    fn from(kind: ShadowType) -> (r: Self) {
        kind.to_primitive()
    }
}

impl vstd::std_specs::convert::FromSpecImpl<ShadowType> for u8 {
    open spec fn obeys_from_spec() -> bool {
        true
    }

    open spec fn from_spec(kind: ShadowType) -> Self {
        kind.number() as u8
    }
}

/// Reading the number of a kind gives the kind back.
pub proof fn lemma_number_round_trip(kind: ShadowType)
    ensures
        ShadowType::of_number(kind.number()) == kind,
{
}

/// The largest extent of a raster whose pixels a signed offset can reach.
pub const MAX_EXTENT: u32 = 0x7fff_ffff;

/// The pixel of the shadow that falls on a pixel of the image, where the
/// shadow has been moved so that this pixel looks at column `s_x` and row
/// `s_y`: that pixel if it lies in the raster, and none if the shadow does
/// not reach so far.
pub open spec fn shadow_sample(s_x: int, s_y: int, width: int, height: int) -> Option<(u32, u32)> {
    if 0 <= s_x < width && 0 <= s_y < height && width <= MAX_EXTENT && height <= MAX_EXTENT {
        Some((s_x as u32, s_y as u32))
    } else {
        None
    }
}

/// The pixel of the shadow that falls on a pixel of the image.
pub fn sample_position(s_x: i32, s_y: i32, width: u32, height: u32) -> (r: Option<(u32, u32)>)
    ensures
        r == shadow_sample(s_x as int, s_y as int, width as int, height as int),
{
    if s_x >= 0 && s_y >= 0 && width <= MAX_EXTENT && height <= MAX_EXTENT && (s_x as u32) < width && (s_y as u32) < height {
        Some((s_x as u32, s_y as u32))
    } else {
        None
    }
}

/// The offsets that a spread of `radius` pixels looks at around a pixel at
/// `center` along an extent: from the first to the last, no further than the
/// radius and not beyond either end of the raster.
pub open spec fn spread_window(center: int, extent: int, radius: int) -> (int, int) {
    (
        if -radius >= -center {
            -radius
        } else {
            -center
        },
        if radius <= extent - 1 - center {
            radius
        } else {
            extent - 1 - center
        },
    )
}

/// The offsets that a spread looks at around a pixel.
pub fn dilate_window(center: u32, extent: u32, radius: i32) -> (r: (i32, i32))
    requires
        center < extent <= MAX_EXTENT,
        radius >= 0,
    ensures
        r.0 == spread_window(center as int, extent as int, radius as int).0,
        r.1 == spread_window(center as int, extent as int, radius as int).1,
        -(radius as int) <= r.0 <= 0 <= r.1 <= radius,
        0 <= center + r.0,
        center + r.1 < extent,
{
    let center = center as i32;
    let last = extent as i32 - 1 - center;
    let first = if -radius >= -center {
        -radius
    } else {
        -center
    };
    let end = if radius <= last {
        radius
    } else {
        last
    };
    (first, end)
}

} // verus!
