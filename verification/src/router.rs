//! What becomes of the value of an evaluation, by the purpose it was
//! dispatched for: shown, written to a file, or sampled.

use crate::ascii::{rows_fit, text_art, text_art_svg, TextArtRow};
use crate::export::{export_file_name, ExportConfig, ExportConfigView, FileType};
use crate::messages::{views, Message, MessageView};
use crate::raster::{encoded_image, rgba_from_raw, rgba_into_raw, rgba_to_rgb, without_alpha, write_jpeg_rgb, write_png_rgb, write_png_rgba};
use crate::render::{RenderMetadata, RenderOutput, RenderOutputType, RenderOutputTypeView, SurfaceFrame, TaggedValue, TaggedValueView};
use crate::text::{join, decimal, push_decimal};
use vstd::prelude::*;
use vstd::string::StrSliceExecFns;

verus! {

/// Puts `message` at the end of the queue.
pub fn enqueue<A>(responses: &mut Vec<Message<A>>, message: Message<A>)
    ensures
        views(final(responses)@) == views(old(responses)@).push(message@),
        final(responses)@ == old(responses)@.push(message),
{
    responses.push(message);
    assert(views(responses@) =~= views(old(responses)@).push(message@));
}

/// The words that name a value in a diagnostic: the form of a rendered
/// output, or the description that came with the value.
pub open spec fn output_label<A>(value: TaggedValueView<A>) -> Seq<char> {
    match value {
        TaggedValueView::RenderOutput(output) => data_label(output.data),
        TaggedValueView::Other { description } => description,
    }
}

/// The words that name a rendered output in a diagnostic.
pub open spec fn data_label<A>(data: RenderOutputTypeView<A>) -> Seq<char> {
    match data {
        RenderOutputTypeView::CanvasFrame { .. } => "CanvasFrame"@,
        RenderOutputTypeView::Svg { .. } => "Svg"@,
        RenderOutputTypeView::Texture => "Texture"@,
        RenderOutputTypeView::Buffer { .. } => "Buffer"@,
        RenderOutputTypeView::Unsupported { description } => description,
    }
}

/// The words that name a rendered output in a diagnostic.
pub fn describe_data<A>(data: &RenderOutputType<A>) -> (r: String)
    ensures
        r@ == data_label(data@),
{
    match data {
        RenderOutputType::CanvasFrame { .. } => "CanvasFrame".to_owned(),
        RenderOutputType::Svg { .. } => "Svg".to_owned(),
        RenderOutputType::Texture => "Texture".to_owned(),
        RenderOutputType::Buffer { .. } => "Buffer".to_owned(),
        RenderOutputType::Unsupported { description } => description.clone(),
    }
}

/// The words that name a value in a diagnostic.
pub fn describe_value<A>(value: &TaggedValue<A>) -> (r: String)
    ensures
        r@ == output_label(value@),
{
    match value {
        TaggedValue::RenderOutput(output) => describe_data(&output.data),
        TaggedValue::Other { description } => description.clone(),
    }
}

/// The markup that stands in the artwork for a live surface: a foreign
/// object of the surface's size, moved by its transform unless that is the
/// identity, around a placeholder that names the surface.
pub open spec fn canvas_placeholder(frame: SurfaceFrame, matrix: Seq<char>) -> Seq<char> {
    let transform = if matrix.len() == 0 {
        Seq::<char>::empty()
    } else {
        " transform=\""@ + matrix + "\""@
    };
    "<svg><foreignObject width=\""@ + decimal(frame.resolution.x as nat) + "\" height=\""@ + decimal(frame.resolution.y as nat) + "\""@ + transform
        + "><div data-canvas-placeholder=\""@ + decimal(frame.surface_id as nat)
        + "\" data-is-viewport=\"true\"></div></foreignObject></svg>"@
}

/// Writes the markup that stands for a live surface.
pub fn canvas_placeholder_svg(frame: SurfaceFrame, matrix: &str) -> (r: String)
    ensures
        r@ == canvas_placeholder(frame, matrix@),
{
    let mut svg = String::new();
    svg.push_str("<svg><foreignObject width=\"");
    push_decimal(&mut svg, frame.resolution.x as u64);
    svg.push_str("\" height=\"");
    push_decimal(&mut svg, frame.resolution.y as u64);
    svg.push_str("\"");
    if matrix.is_empty() {
        assert(svg@ + Seq::<char>::empty() =~= svg@);
    } else {
        let ghost before = svg@;
        svg.push_str(" transform=\"");
        svg.push_str(matrix);
        svg.push_str("\"");
        assert(svg@ =~= before + (" transform=\""@ + matrix@ + "\""@));
    }
    svg.push_str("><div data-canvas-placeholder=\"");
    push_decimal(&mut svg, frame.surface_id);
    svg.push_str("\" data-is-viewport=\"true\"></div></foreignObject></svg>");
    assert(svg@ =~= canvas_placeholder(frame, matrix@));
    svg
}

/// What showing or exporting a value comes to: the messages it adds, or the
/// words of the failure, which adds none.
pub struct Outcome<A> {
    pub result: Result<(), Seq<char>>,
    pub messages: Seq<MessageView<A>>,
}

/// The messages that pass on the geometry of a rendered output, and ask for
/// what depends on it to be drawn again.
pub open spec fn metadata_messages<A>(metadata: RenderMetadata<A>) -> Seq<MessageView<A>> {
    seq![
        MessageView::UpdateUpstreamTransforms {
            upstream_footprints: metadata.upstream_footprints,
            local_transforms: metadata.local_transforms,
            first_element_source_id: metadata.first_element_source_id,
        },
        MessageView::UpdateClickTargets { click_targets: metadata.click_targets },
        MessageView::UpdateClipTargets { clip_targets: metadata.clip_targets },
        MessageView::RenderScrollbars,
        MessageView::RenderRulers,
        MessageView::DrawOverlays,
    ]
}

/// The frame is on show already: the frame that was shown last equals it.
pub open spec fn on_show(last: Option<SurfaceFrame>, frame: SurfaceFrame) -> bool {
    last matches Some(previous) && previous.equals(frame)
}

/// The live surface that is on show once `value` has been presented: none
/// after markup, the surface of the value after a live surface that was not
/// on show already, and the one before in every other case.
pub open spec fn canvas_after<A>(value: TaggedValueView<A>, last: Option<SurfaceFrame>) -> Option<SurfaceFrame> {
    match value {
        TaggedValueView::RenderOutput(output) => match output.data {
            RenderOutputTypeView::Svg { .. } => None,
            RenderOutputTypeView::CanvasFrame { frame, .. } => if on_show(last, frame) {
                last
            } else {
                Some(frame)
            },
            _ => last,
        },
        _ => last,
    }
}

/// What showing `value` comes to. Markup is handed to the frontend with its
/// images; a live surface is handed over as a placeholder unless it is the
/// one on show already; a texture needs nothing. Then the geometry follows.
/// Any other value is refused by name.
pub open spec fn render_outcome<A>(value: TaggedValueView<A>, last: Option<SurfaceFrame>) -> Outcome<A> {
    match value {
        TaggedValueView::RenderOutput(output) => match output.data {
            RenderOutputTypeView::Svg { svg, image_data } => Outcome {
                result: Ok(()),
                messages: seq![MessageView::UpdateImageData { image_data }, MessageView::UpdateDocumentArtwork { svg }] + metadata_messages(
                    output.metadata,
                ),
            },
            RenderOutputTypeView::CanvasFrame { frame, matrix } => Outcome {
                result: Ok(()),
                messages: if on_show(last, frame) {
                    metadata_messages(output.metadata)
                } else {
                    seq![MessageView::UpdateDocumentArtwork { svg: canvas_placeholder(frame, matrix) }] + metadata_messages(output.metadata)
                },
            },
            RenderOutputTypeView::Texture => Outcome { result: Ok(()), messages: metadata_messages(output.metadata) },
            _ => Outcome { result: Err("Invalid node graph output type: "@ + data_label(output.data)), messages: Seq::empty() },
        },
        TaggedValueView::Other { description } => Outcome {
            result: Err("Invalid node graph output type: "@ + description),
            messages: Seq::empty(),
        },
    }
}

/// The outcome is the one that was computed: success for success, and a
/// failure with the same words for a failure.
pub open spec fn agrees(got: Result<(), String>, expected: Result<(), Seq<char>>) -> bool {
    match got {
        Ok(()) => expected is Ok,
        Err(words) => expected == Err::<(), Seq<char>>(words@),
    }
}

fn add_metadata<A>(metadata: RenderMetadata<A>, responses: &mut Vec<Message<A>>)
    ensures
        views(final(responses)@) == views(old(responses)@) + metadata_messages(metadata),
{
    let RenderMetadata { upstream_footprints, local_transforms, first_element_source_id, click_targets, clip_targets } = metadata;
    enqueue(responses, Message::UpdateUpstreamTransforms { upstream_footprints, local_transforms, first_element_source_id });
    enqueue(responses, Message::UpdateClickTargets { click_targets });
    enqueue(responses, Message::UpdateClipTargets { clip_targets });
    enqueue(responses, Message::RenderScrollbars);
    enqueue(responses, Message::RenderRulers);
    enqueue(responses, Message::DrawOverlays);
    assert(views(responses@) =~= views(old(responses)@) + metadata_messages(metadata));
}

/// Shows the value of an evaluation: adds the messages that present it to
/// `responses` and remembers the live surface that is on show.
pub fn present_output<A>(last_svg_canvas: &mut Option<SurfaceFrame>, node_graph_output: TaggedValue<A>, responses: &mut Vec<Message<A>>) -> (r: Result<
    (),
    String,
>)
    ensures
        agrees(r, render_outcome(node_graph_output@, *old(last_svg_canvas)).result),
        views(final(responses)@) == views(old(responses)@) + render_outcome(node_graph_output@, *old(last_svg_canvas)).messages,
        *final(last_svg_canvas) == if r is Ok {
            canvas_after(node_graph_output@, *old(last_svg_canvas))
        } else {
            *old(last_svg_canvas)
        },
{
    let ghost before = views(responses@);
    let render_output = match node_graph_output {
        TaggedValue::RenderOutput(render_output) => render_output,
        TaggedValue::Other { description } => {
            assert(before + Seq::<MessageView<A>>::empty() =~= before);
            return Err(join("Invalid node graph output type: ", description.as_str()));
        },
    };
    let RenderOutput { data, metadata } = render_output;
    match data {
        RenderOutputType::Svg { svg, image_data } => {
            enqueue(responses, Message::UpdateImageData { image_data });
            enqueue(responses, Message::UpdateDocumentArtwork { svg });
            *last_svg_canvas = None;
        },
        RenderOutputType::CanvasFrame { frame, matrix } => {
            let shown = match *last_svg_canvas {
                Some(previous) => previous.same_surface(frame),
                None => false,
            };
            if !shown {
                let svg = canvas_placeholder_svg(frame, matrix.as_str());
                *last_svg_canvas = Some(frame);
                enqueue(responses, Message::UpdateDocumentArtwork { svg });
            }
        },
        RenderOutputType::Texture => {},
        other => {
            let label = describe_data(&other);
            assert(before + Seq::<MessageView<A>>::empty() =~= before);
            return Err(join("Invalid node graph output type: ", label.as_str()));
        },
    }
    add_metadata(metadata, responses);
    assert(views(responses@) =~= before + render_outcome(node_graph_output@, *old(last_svg_canvas)).messages);
    Ok(())
}

/// The message that a preview adds: the pixels of a raw buffer, where this
/// build can read rasters. Any other value is passed over in silence.
pub open spec fn preview_messages<A>(value: TaggedValueView<A>, raster_capable: bool) -> Seq<MessageView<A>> {
    match value {
        TaggedValueView::RenderOutput(output) => match output.data {
            RenderOutputTypeView::Buffer { data, width, height } if raster_capable => seq![MessageView::PreviewImage { data, width, height }],
            _ => Seq::empty(),
        },
        _ => Seq::empty(),
    }
}

/// Hands the pixels of a preview to the eyedropper. Never fails: a value
/// that cannot be sampled is dropped.
pub fn preview_output<A>(raster_capable: bool, node_graph_output: TaggedValue<A>, responses: &mut Vec<Message<A>>) -> (r: Result<(), String>)
    ensures
        r is Ok,
        views(final(responses)@) == views(old(responses)@) + preview_messages(node_graph_output@, raster_capable),
{
    let ghost before = views(responses@);
    match node_graph_output {
        TaggedValue::RenderOutput(RenderOutput { data: RenderOutputType::Buffer { data, width, height }, .. }) => {
            if raster_capable {
                enqueue(responses, Message::PreviewImage { data, width, height });
                assert(views(responses@) =~= before + preview_messages(node_graph_output@, raster_capable));
            } else {
                assert(before + Seq::<MessageView<A>>::empty() =~= before);
            }
        },
        _ => {
            assert(before + Seq::<MessageView<A>>::empty() =~= before);
        },
    };
    Ok(())
}

/// What is said when an export meets a value that its file kind cannot be
/// written from.
pub open spec fn mismatch_message<A>(file_type: FileType, value: TaggedValueView<A>) -> Seq<char> {
    "Incorrect render type for exporting to an SVG ("@ + file_type.label() + ", "@ + output_label(value) + ")"@
}

/// What is said when text art is asked of a graph that produced no raster.
pub open spec fn text_art_needs_raster() -> Seq<char> {
    "ASCII export requires raster output. Please ensure your document contains raster content or use PNG/JPG export."@
}

/// What saving an encoded file comes to: the file under `name` if the
/// encoding succeeded, and the encoder's words behind `prefix` if not.
pub open spec fn saved_encoding<A>(name: Seq<char>, encoded: Result<Seq<u8>, Seq<char>>, prefix: Seq<char>) -> Outcome<A> {
    match encoded {
        Ok(content) => Outcome { result: Ok(()), messages: seq![MessageView::TriggerSaveFile { name, content }] },
        Err(words) => Outcome { result: Err(prefix + words), messages: Seq::empty() },
    }
}

/// What exporting a raw buffer to a raster kind of file comes to. The buffer
/// must hold four bytes for each pixel. A PNG keeps the alpha bytes where
/// the background is to stay transparent and drops them where not; a JPEG
/// always drops them; text art is left to the transcriber.
pub open spec fn buffer_export_outcome<A>(config: ExportConfigView, data: Seq<u8>, width: u32, height: u32) -> Outcome<A> {
    let name = export_file_name(config);
    if 4 * width * height > data.len() {
        Outcome { result: Err("Failed to create image buffer for export"@), messages: Seq::empty() }
    } else {
        match config.file_type {
            FileType::Png => if config.transparent_background {
                saved_encoding(name, encoded_image(false, true, width, height, data.take(4 * width * height)), "Failed to encode PNG: "@)
            } else {
                saved_encoding(name, encoded_image(false, false, width, height, without_alpha(data, width * height)), "Failed to encode PNG: "@)
            },
            FileType::Jpg => saved_encoding(
                name,
                encoded_image(true, false, width, height, without_alpha(data, width * height)),
                "Failed to encode JPG: "@,
            ),
            FileType::Svg => Outcome { result: Err("SVG cannot be exported from an image buffer"@), messages: Seq::empty() },
            FileType::Ascii => Outcome { result: Ok(()), messages: seq![MessageView::SaveTextArt { name, data, width, height }] },
        }
    }
}

/// What exporting `value` comes to. Markup is saved as it is for a vector
/// file, refused for text art, and handed on for rasterising for the other
/// kinds. A raw buffer is encoded where this build can encode rasters and
/// the file is not a vector file. Every other pairing is a mismatch, which
/// is said and writes nothing.
pub open spec fn export_outcome<A>(value: TaggedValueView<A>, config: ExportConfigView, raster_capable: bool) -> Outcome<A> {
    let name = export_file_name(config);
    let mismatch = Outcome::<A> { result: Err(mismatch_message(config.file_type, value)), messages: Seq::empty() };
    match value {
        TaggedValueView::RenderOutput(output) => match output.data {
            RenderOutputTypeView::Svg { svg, .. } => if config.file_type == FileType::Svg {
                Outcome { result: Ok(()), messages: seq![MessageView::TriggerSaveFile { name, content: vstd::utf8::encode_utf8(svg) }] }
            } else if config.file_type == FileType::Ascii {
                Outcome { result: Err(text_art_needs_raster()), messages: Seq::empty() }
            } else {
                Outcome {
                    result: Ok(()),
                    messages: seq![
                        MessageView::TriggerExportImage {
                            svg,
                            name,
                            mime: config.file_type.mime(),
                            size: config.size,
                            scale_factor: config.scale_factor,
                        },
                    ],
                }
            },
            RenderOutputTypeView::Buffer { data, width, height } => if raster_capable && config.file_type != FileType::Svg {
                buffer_export_outcome(config, data, width, height)
            } else {
                mismatch
            },
            _ => mismatch,
        },
        _ => mismatch,
    }
}

/// Saves an encoded file under `name`, or reports why there is none.
pub fn save_encoded<A>(name: String, encoded: Result<Vec<u8>, String>, prefix: &str, responses: &mut Vec<Message<A>>) -> (r: Result<(), String>)
    ensures
        match encoded {
            Ok(content) => r is Ok && views(final(responses)@) == views(old(responses)@).push(
                MessageView::TriggerSaveFile { name: name@, content: content@ },
            ),
            Err(words) => r is Err && r->Err_0@ == prefix@ + words@ && final(responses)@ == old(responses)@,
        },
{
    match encoded {
        Ok(content) => {
            enqueue(responses, Message::TriggerSaveFile { name, content });
            Ok(())
        },
        Err(words) => Err(join(prefix, words.as_str())),
    }
}

/// Writes a raw buffer to a raster kind of file.
fn export_buffer<A>(export_config: ExportConfig, name: String, data: Vec<u8>, width: u32, height: u32, responses: &mut Vec<Message<A>>) -> (r: Result<
    (),
    String,
>)
    requires
        name@ == export_file_name(export_config@),
    ensures
        agrees(r, buffer_export_outcome::<A>(export_config@, data@, width, height).result),
        views(final(responses)@) == views(old(responses)@) + buffer_export_outcome::<A>(export_config@, data@, width, height).messages,
{
    let ghost before = views(responses@);
    proof {
        assert(before + Seq::<MessageView<A>>::empty() =~= before);
    }
    let image = match rgba_from_raw(width, height, data) {
        Some(image) => image,
        None => {
            return Err("Failed to create image buffer for export".to_owned());
        },
    };
    match export_config.file_type {
        FileType::Png => {
            let encoded = if export_config.transparent_background {
                write_png_rgba(&image)
            } else {
                let opaque = rgba_to_rgb(&image);
                write_png_rgb(&opaque)
            };
            let r = save_encoded(name, encoded, "Failed to encode PNG: ", responses);
            assert(views(responses@) =~= before + buffer_export_outcome::<A>(export_config@, data@, width, height).messages);
            r
        },
        FileType::Jpg => {
            let opaque = rgba_to_rgb(&image);
            let encoded = write_jpeg_rgb(&opaque);
            let r = save_encoded(name, encoded, "Failed to encode JPG: ", responses);
            assert(views(responses@) =~= before + buffer_export_outcome::<A>(export_config@, data@, width, height).messages);
            r
        },
        FileType::Svg => Err("SVG cannot be exported from an image buffer".to_owned()),
        FileType::Ascii => {
            let data = rgba_into_raw(image);
            enqueue(responses, Message::SaveTextArt { name, data, width, height });
            assert(views(responses@) =~= before + buffer_export_outcome::<A>(export_config@, data@, width, height).messages);
            Ok(())
        },
    }
}

/// Writes the value of an evaluation to the file that the export asked for:
/// adds to `responses` the message that saves it, or fails with the reason
/// and adds nothing.
pub fn export_output<A>(raster_capable: bool, node_graph_output: TaggedValue<A>, export_config: ExportConfig, responses: &mut Vec<Message<A>>) -> (r: Result<
    (),
    String,
>)
    ensures
        agrees(r, export_outcome(node_graph_output@, export_config@, raster_capable).result),
        views(final(responses)@) == views(old(responses)@) + export_outcome(node_graph_output@, export_config@, raster_capable).messages,
{
    let ghost before = views(responses@);
    proof {
        assert(before + Seq::<MessageView<A>>::empty() =~= before);
    }
    let file_type = export_config.file_type;
    let name = export_config.file_name();
    let mut mismatch = String::new();
    mismatch.push_str("Incorrect render type for exporting to an SVG (");
    mismatch.push_str(file_type.debug_name());
    mismatch.push_str(", ");
    mismatch.push_str(describe_value(&node_graph_output).as_str());
    mismatch.push_str(")");
    assert(mismatch@ =~= mismatch_message(file_type, node_graph_output@));
    match node_graph_output {
        TaggedValue::RenderOutput(RenderOutput { data: RenderOutputType::Svg { svg, .. }, .. }) => {
            if file_type == FileType::Svg {
                let content = svg.as_str().as_bytes_vec();
                enqueue(responses, Message::TriggerSaveFile { name, content });
            } else if file_type == FileType::Ascii {
                return Err("ASCII export requires raster output. Please ensure your document contains raster content or use PNG/JPG export.".to_owned());
            } else {
                let mime = file_type.to_mime().to_owned();
                enqueue(responses, Message::TriggerExportImage { svg, name, mime, size: export_config.size, scale_factor: export_config.scale_factor });
            }
            assert(views(responses@) =~= before + export_outcome(node_graph_output@, export_config@, raster_capable).messages);
            Ok(())
        },
        TaggedValue::RenderOutput(RenderOutput { data: RenderOutputType::Buffer { data, width, height }, .. }) => {
            if raster_capable && file_type != FileType::Svg {
                export_buffer(export_config, name, data, width, height, responses)
            } else {
                Err(mismatch)
            }
        },
        _ => Err(mismatch),
    }
}

/// The message hands a raster over for text art, and the rows that were
/// measured fit the raster.
pub open spec fn transcribable<A>(hand_over: MessageView<A>, rows: Seq<TextArtRow>) -> bool {
    hand_over matches MessageView::SaveTextArt { data, width, height, .. } && 4 * width * height <= data.len() && rows_fit(
        width as int,
        height as int,
        rows,
    )
}

/// The message that saves the text art of a raster that was handed over:
/// under the name that came with the raster, the bytes of the drawing that
/// [`text_art`] describes.
pub open spec fn text_art_file<A>(hand_over: MessageView<A>, svg_width: Seq<char>, svg_height: Seq<char>, rows: Seq<TextArtRow>) -> MessageView<A> {
    MessageView::TriggerSaveFile {
        name: hand_over->SaveTextArt_name,
        content: vstd::utf8::encode_utf8(
            text_art(
                hand_over->SaveTextArt_data,
                hand_over->SaveTextArt_width as int,
                hand_over->SaveTextArt_height as int,
                svg_width,
                svg_height,
                rows,
            ),
        ),
    }
}

/// Carries out the request to save a raster as text art, once the
/// brightness of its cells has been measured: the answer is the message
/// that saves the drawing. A message that hands over no raster, or rows that
/// do not fit the raster, are given back as they came.
pub fn save_text_art<A>(hand_over: Message<A>, svg_width: &str, svg_height: &str, rows: &Vec<TextArtRow>) -> (r: Result<Message<A>, Message<A>>)
    ensures
        transcribable(hand_over@, rows@) ==> r is Ok && r->Ok_0@ == text_art_file(hand_over@, svg_width@, svg_height@, rows@),
        !transcribable(hand_over@, rows@) ==> r == Err::<Message<A>, Message<A>>(hand_over),
{
    match hand_over {
        Message::SaveTextArt { name, data, width, height } => match text_art_svg(&data, width, height, svg_width, svg_height, rows) {
            Some(svg) => Ok(Message::TriggerSaveFile { name, content: svg.as_str().as_bytes_vec() }),
            None => Err(Message::SaveTextArt { name, data, width, height }),
        },
        other => Err(other),
    }
}

/// What the export of a raw buffer as text art hands over can be carried
/// out with rows that fit the raster, and the file is then saved under the
/// name of the export.
pub proof fn lemma_text_art_hand_over<A>(config: ExportConfigView, data: Seq<u8>, width: u32, height: u32, rows: Seq<TextArtRow>)
    requires
        config.file_type == FileType::Ascii,
        4 * width * height <= data.len(),
        rows_fit(width as int, height as int, rows),
    ensures
        buffer_export_outcome::<A>(config, data, width, height).result is Ok,
        buffer_export_outcome::<A>(config, data, width, height).messages.len() == 1,
        transcribable(buffer_export_outcome::<A>(config, data, width, height).messages[0], rows),
        forall|svg_width: Seq<char>, svg_height: Seq<char>| #[trigger]
            text_art_file(buffer_export_outcome::<A>(config, data, width, height).messages[0], svg_width, svg_height, rows) == (
            MessageView::<A>::TriggerSaveFile {
                name: export_file_name(config),
                content: vstd::utf8::encode_utf8(text_art(data, width as int, height as int, svg_width, svg_height, rows)),
            }),
{
}

} // verus!
