//! What an export is asked for, and how the file it writes is named.

use crate::document::NodeId;
use crate::render::{Resolution, Scalar};
use crate::text::join3;
use vstd::prelude::*;

verus! {

/// The containers an export can be written in.
#[derive(Clone, Copy, Debug, PartialEq, Eq, Hash, Structural)]
pub enum FileType {
    Png,
    Jpg,
    Svg,
    /// Text art: the raster transcribed into coloured characters.
    Ascii,
}

impl FileType {
    /// The ending of a file of this kind. Text art is written as markup.
    pub open spec fn extension(self) -> Seq<char> {
        match self {
            FileType::Svg => "svg"@,
            FileType::Png => "png"@,
            FileType::Jpg => "jpg"@,
            FileType::Ascii => "svg"@,
        }
    }

    /// The media type under which a file of this kind is handed out.
    pub open spec fn mime(self) -> Seq<char> {
        match self {
            FileType::Png => "image/png"@,
            FileType::Jpg => "image/jpeg"@,
            FileType::Svg => "image/svg+xml"@,
            FileType::Ascii => "image/svg+xml"@,
        }
    }

    /// The name of the kind as diagnostics write it.
    pub open spec fn label(self) -> Seq<char> {
        match self {
            FileType::Png => "Png"@,
            FileType::Jpg => "Jpg"@,
            FileType::Svg => "Svg"@,
            FileType::Ascii => "Ascii"@,
        }
    }

    /// The ending of a file of this kind.
    pub fn file_extension(self) -> (r: &'static str)
        ensures
            r@ == self.extension(),
    {
        match self {
            FileType::Svg => "svg",
            FileType::Png => "png",
            FileType::Jpg => "jpg",
            FileType::Ascii => "svg",
        }
    }

    /// The media type under which a file of this kind is handed out.
    pub fn to_mime(self) -> (r: &'static str)
        ensures
            r@ == self.mime(),
    {
        match self {
            FileType::Png => "image/png",
            FileType::Jpg => "image/jpeg",
            FileType::Svg => "image/svg+xml",
            FileType::Ascii => "image/svg+xml",
        }
    }

    /// The name of the kind as diagnostics write it.
    pub fn debug_name(self) -> (r: &'static str)
        ensures
            r@ == self.label(),
    {
        match self {
            FileType::Png => "Png",
            FileType::Jpg => "Jpg",
            FileType::Svg => "Svg",
            FileType::Ascii => "Ascii",
        }
    }
}

/// The region of the document that an export covers.
#[derive(Clone, Copy, Debug, PartialEq, Eq, Hash, Structural)]
pub enum ExportBounds {
    AllArtwork,
    Selection,
    Artboard(NodeId),
}

/// The question an export puts to the document before it is submitted: the
/// box of which artwork, and whether artboards count towards it.
#[derive(Clone, Copy, Debug, PartialEq, Eq, Hash, Structural)]
pub enum BoundsQuery {
    AllArtwork { include_artboards: bool },
    Selection { include_artboards: bool },
    Artboard(NodeId),
}

/// What the user asked of an export.
#[derive(Clone, Debug, PartialEq, Eq)]
pub struct ExportConfig {
    pub name: String,
    pub file_type: FileType,
    pub scale_factor: Scalar,
    pub bounds: ExportBounds,
    pub transparent_background: bool,
    /// Size of the exported region in pixels; set when the export is
    /// submitted.
    pub size: Resolution,
    pub artboard_name: Option<String>,
    pub artboard_count: usize,
}

/// The request of an export, as plain values.
pub struct ExportConfigView {
    pub name: Seq<char>,
    pub file_type: FileType,
    pub scale_factor: Scalar,
    pub bounds: ExportBounds,
    pub transparent_background: bool,
    pub size: Resolution,
    pub artboard_name: Option<Seq<char>>,
    pub artboard_count: usize,
}

impl View for ExportConfig {
    type V = ExportConfigView;

    open spec fn view(&self) -> ExportConfigView {
        ExportConfigView {
            name: self.name@,
            file_type: self.file_type,
            scale_factor: self.scale_factor,
            bounds: self.bounds,
            transparent_background: self.transparent_background,
            size: self.size,
            artboard_name: match self.artboard_name {
                Some(n) => Some(n@),
                None => None,
            },
            artboard_count: self.artboard_count,
        }
    }
}

/// The name of the exported file: the document's name, then the artboard's
/// where the document has more than one, then the ending of the file kind.
pub open spec fn export_file_name(config: ExportConfigView) -> Seq<char> {
    let base = match config.artboard_name {
        Some(artboard) if config.artboard_count > 1 => config.name + " - "@ + artboard,
        _ => config.name,
    };
    base + "."@ + config.file_type.extension()
}

impl ExportConfig {
    /// The box that the document is asked for. Artboards count towards it
    /// unless the background is to stay transparent.
    pub fn bounds_query(&self) -> (r: BoundsQuery)
        ensures
            r == match self.bounds {
                ExportBounds::AllArtwork => BoundsQuery::AllArtwork { include_artboards: !self.transparent_background },
                ExportBounds::Selection => BoundsQuery::Selection { include_artboards: !self.transparent_background },
                ExportBounds::Artboard(id) => BoundsQuery::Artboard(id),
            },
    {
        match self.bounds {
            ExportBounds::AllArtwork => BoundsQuery::AllArtwork { include_artboards: !self.transparent_background },
            ExportBounds::Selection => BoundsQuery::Selection { include_artboards: !self.transparent_background },
            ExportBounds::Artboard(id) => BoundsQuery::Artboard(id),
        }
    }

    /// The name under which the export is saved.
    pub fn file_name(&self) -> (r: String)
        ensures
            r@ == export_file_name(self@),
    {
        let extension = self.file_type.file_extension();
        match &self.artboard_name {
            Some(artboard) if self.artboard_count > 1 => {
                let base = join3(self.name.as_str(), " - ", artboard.as_str());
                join3(base.as_str(), ".", extension)
            },
            _ => join3(self.name.as_str(), ".", extension),
        }
    }
}

} // verus!
