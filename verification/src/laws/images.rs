//! Laws of the images that renders come to, and of every step to them.
use crate::laws::rendering::{law_crop_is_within, law_crop_shows_its_region};
use crate::raster::{
    cropped, encodable, encoding, finished, holds_image, jpeg_encoding, jpeg_signature, low_bits,
    noted, png_addressable, png_decoding, png_encoding, png_signature, quality_used, shown_image,
    signature, starts_with, ImageView,
};
use crate::render::{
    error_text, format_named, height_chosen, resolved, size_checked, started, Clip, ImageFormat,
    OutcomeView, RenderErrorView, RenderOptions, RunView,
};
use crate::text::{decimal_text, signed_text};
use vstd::prelude::*;

verus! {

/// Without a clip, the image that is encoded is the painted one: its pixels
/// byte for byte, at its size, with no note about it.
pub proof fn law_unclipped_image_is_the_painted_one(image: ImageView, opts: RenderOptions)
    requires
        opts.clip is None,
    ensures
        shown_image(image, opts).0.pixels == image.pixels,
        shown_image(image, opts).0.width == image.width,
        shown_image(image, opts).0.height == image.height,
        shown_image(image, opts).1 is None,
{
}

/// A PNG without a clip is the encoding of the painted pixels at the painted
/// size, reported with that size and the notes of its run; where the encoder
/// refuses the image, its error is the render's.
pub proof fn law_png_of_a_whole_page(run: RunView, image: ImageView, opts: RenderOptions)
    requires
        opts.clip is None,
        opts.format is Png,
    ensures
        finished(run, image, opts) == match png_encoding(
            image.pixels,
            image.width,
            image.height,
        ) {
            Ok(bytes) => Ok::<OutcomeView, RenderErrorView>(
                OutcomeView {
                    bytes,
                    width: image.width,
                    height: image.height,
                    format: ImageFormat::Png,
                    fidelity_notes: run.notes,
                },
            ),
            Err(e) => Err(RenderErrorView::Encode(e)),
        },
{
}

/// A JPEG without a clip, of at most 65535 pixels a side, is the encoding of
/// the painted pixels at the painted size and at the quality that was asked
/// for, taken into 1 to 100.
pub proof fn law_jpeg_of_a_whole_page(run: RunView, image: ImageView, opts: RenderOptions)
    requires
        opts.clip is None,
        opts.format is Jpeg,
        image.width <= 65_535,
        image.height <= 65_535,
    ensures
        ({
            let quality = if opts.jpeg_quality == 0 {
                1u8
            } else if opts.jpeg_quality > 100 {
                100u8
            } else {
                opts.jpeg_quality
            };
            finished(run, image, opts) == match jpeg_encoding(
                image.pixels,
                quality,
                image.width as u16,
                image.height as u16,
            ) {
                Ok(bytes) => Ok::<OutcomeView, RenderErrorView>(
                    OutcomeView {
                        bytes,
                        width: image.width,
                        height: image.height,
                        format: ImageFormat::Jpeg,
                        fidelity_notes: run.notes,
                    },
                ),
                Err(e) => Err(RenderErrorView::Encode(e)),
            }
        }),
{
}

/// Whatever the options, an outcome is the encoding of the image that is shown,
/// in the format and at the quality that were asked for, reported with its
/// size. It starts with the notes of its run; then comes what the crop has to
/// say and then what the format has.
pub proof fn law_outcome_is_the_shown_image(run: RunView, image: ImageView, opts: RenderOptions)
    ensures
        ({
            let (shown, note) = shown_image(image, opts);
            let cropped = match note {
                Some(n) => run.notes.push(n),
                None => run.notes,
            };
            let w = shown.width as int;
            let h = shown.height as int;
            let quality = if opts.jpeg_quality == 0 {
                1u8
            } else if opts.jpeg_quality > 100 {
                100u8
            } else {
                opts.jpeg_quality
            };
            let encoded = match opts.format {
                ImageFormat::Png => png_encoding(shown.pixels, shown.width, shown.height),
                ImageFormat::Jpeg => jpeg_encoding(
                    shown.pixels,
                    quality,
                    (w % 65_536) as u16,
                    (h % 65_536) as u16,
                ),
            };
            let cut = "a JPEG has no room for "@ + decimal_text(w as nat) + "x"@ + decimal_text(
                h as nat,
            ) + "; image is encoded as "@ + decimal_text((w % 65_536) as nat) + "x"@
                + decimal_text((h % 65_536) as nat);
            match finished(run, image, opts) {
                Ok(o) => {
                    &&& encoded == Ok::<Seq<u8>, Seq<char>>(o.bytes)
                    &&& o.width == shown.width && o.height == shown.height
                    &&& o.format == opts.format
                    &&& opts.format is Png || (w <= 65_535 && h <= 65_535) ==> o.fidelity_notes
                        == cropped
                    &&& opts.format is Jpeg && (w > 65_535 || h > 65_535) ==> o.fidelity_notes
                        == cropped.push(cut)
                },
                Err(e) => encoded is Err && e == RenderErrorView::Encode(encoded->Err_0),
            }
        }),
{
}

/// A clip shows the part of its region that lies on the image, and says so
/// where that is not all of it; one that lies beside the image leaves it whole
/// and says that. An extent of zero counts as one.
pub proof fn law_clip_shows_the_overlap(image: ImageView, opts: RenderOptions, clip: Clip)
    requires
        opts.clip == Some(clip),
        image.pixels.len() == image.width * image.height * 4,
        image.width > 0,
        image.height > 0,
    ensures
        ({
            let (shown, note) = shown_image(image, opts);
            let w = if clip.width == 0 {
                1
            } else {
                clip.width as int
            };
            let h = if clip.height == 0 {
                1
            } else {
                clip.height as int
            };
            let x0 = if clip.x < 0 {
                0
            } else {
                clip.x as int
            };
            let y0 = if clip.y < 0 {
                0
            } else {
                clip.y as int
            };
            let x1 = if clip.x + w > image.width {
                image.width as int
            } else {
                clip.x + w
            };
            let y1 = if clip.y + h > image.height {
                image.height as int
            } else {
                clip.y + h
            };
            let size = decimal_text(image.width as nat) + "x"@ + decimal_text(image.height as nat);
            if x0 < x1 && y0 < y1 {
                &&& shown.width == x1 - x0 && shown.height == y1 - y0
                &&& shown.pixels.len() == (x1 - x0) * (y1 - y0) * 4
                &&& x1 - x0 == w && y1 - y0 == h ==> note is None
                &&& x1 - x0 != w || y1 - y0 != h ==> note is Some && note->0 =~= "clip "@
                    + decimal_text(w as nat) + "x"@ + decimal_text(h as nat) + " at ("@
                    + signed_text(clip.x) + ","@ + signed_text(clip.y) + ") exceeded the "@ + size
                    + " render and was clamped"@
            } else {
                &&& shown == image
                &&& note is Some && note->0 =~= "clip origin ("@ + signed_text(clip.x) + ","@
                    + signed_text(clip.y) + ") lies outside the "@ + size
                    + " render; returning the uncropped image"@
            }
        }),
{
    law_crop_is_within(image, clip);
}

/// Pixel by pixel and channel by channel, a clip shows what was painted at the
/// same place of the page.
pub proof fn law_clip_shows_the_painted_pixels(
    image: ImageView,
    opts: RenderOptions,
    clip: Clip,
    x: int,
    y: int,
    c: int,
)
    requires
        opts.clip == Some(clip),
        image.pixels.len() == image.width * image.height * 4,
        image.width > 0,
        image.height > 0,
        clip.x < image.width && clip.y < image.height,
        clip.x >= 0 || clip.x + clip.width > 0,
        clip.y >= 0 || clip.y + clip.height > 0,
        0 <= x < shown_image(image, opts).0.width,
        0 <= y < shown_image(image, opts).0.height,
        0 <= c < 4,
    ensures
        ({
            let shown = shown_image(image, opts).0;
            let x0 = if clip.x < 0 {
                0
            } else {
                clip.x as int
            };
            let y0 = if clip.y < 0 {
                0
            } else {
                clip.y as int
            };
            shown.pixels[(y * shown.width + x) * 4 + c] == image.pixels[((y0 + y) * image.width + x0
                + x) * 4 + c]
        }),
{
    law_crop_shows_its_region(image, clip, x, y, c);
}

/// Which images can be encoded: those that are not empty and have a buffer of
/// their size. A JPEG is encoded at the low 16 bits of its size and may have a
/// longer buffer.
pub proof fn law_encodable_images(image: ImageView)
    ensures
        encodable(image, ImageFormat::Png) <==> image.width > 0 && image.height > 0
            && image.pixels.len() == image.width * image.height * 4,
        ({
            let w = image.width as int % 65_536;
            let h = image.height as int % 65_536;
            encodable(image, ImageFormat::Jpeg) <==> w > 0 && h > 0 && image.pixels.len() >= w * h
                * 4
        }),
{
}

/// The first bytes of a file tell its format.
pub proof fn law_signatures(bytes: Seq<u8>, head: Seq<u8>)
    ensures
        signature(ImageFormat::Png) == seq![0x89u8, 0x50, 0x4e, 0x47, 0x0d, 0x0a, 0x1a, 0x0a],
        signature(ImageFormat::Jpeg) == seq![0xffu8, 0xd8],
        png_signature() == signature(ImageFormat::Png),
        jpeg_signature() == signature(ImageFormat::Jpeg),
        starts_with(bytes, head) <==> head.is_prefix_of(bytes),
{
    if head.len() <= bytes.len() {
        assert(bytes.take(head.len() as int) =~= bytes.subrange(0, head.len() as int));
    }
}

/// An encoder's error is the render's.
pub proof fn law_encoder_errors(image: ImageView, quality: u8, e: Seq<char>)
    ensures
        png_encoding(image.pixels, image.width, image.height) == Err::<Seq<u8>, Seq<char>>(e)
            ==> encoding(image, ImageFormat::Png, quality) == Err::<Seq<u8>, RenderErrorView>(
            RenderErrorView::Encode(e),
        ),
{
}

/// A render starts unless its viewport is degenerate: a width or height of
/// zero, or a ratio that is not positive and finite, is refused with the reason.
/// Its layout width is the one asked for, up to 8192 and with a note beyond.
pub proof fn law_render_starts(opts: RenderOptions, scale: Seq<char>)
    ensures
        ({
            let empty = opts.width == 0 || opts.height == 0;
            let odd = opts.scale_bits == 0 || opts.scale_bits >= 0x7f80_0000;
            let r = started(opts, scale);
            &&& empty ==> r == Err::<RunView, RenderErrorView>(
                RenderErrorView::BadViewport(
                    decimal_text(opts.width as nat) + "x"@ + decimal_text(opts.height as nat),
                ),
            )
            &&& !empty && odd ==> r == Err::<RunView, RenderErrorView>(
                RenderErrorView::BadViewport("scale="@ + scale),
            )
            &&& !empty && !odd ==> r is Ok && !r->Ok_0.waited
            &&& !empty && !odd && opts.width <= 8192 ==> r->Ok_0.width == opts.width
                && r->Ok_0.notes.len() == 0
            &&& !empty && !odd && opts.width > 8192 ==> r->Ok_0.width == 8192 && r->Ok_0.notes
                == seq![
                "viewport width clamped from "@ + decimal_text(opts.width as nat) + " to "@
                    + decimal_text(8192) + " px"@,
            ]
        }),
{
}

/// Waiting goes on just as long as fetches are pending and there is time left.
/// Nothing but a note of what may be missing, and that there was a wait, is
/// added to the run.
pub proof fn law_waiting_for_fetches(run: RunView, idle: bool, late: bool, budget: Seq<char>)
    ensures
        ({
            let (after, step) = resolved(run, idle, late, budget);
            &&& idle ==> step is Settled && after == run
            &&& !idle && !late ==> step is Sleep && after.waited && after.notes == run.notes
            &&& !idle && late ==> step is Settled && after.waited == run.waited && after.notes
                == run.notes.push(
                "subresource fetches still in flight after "@ + budget
                    + "; image may be missing late-loading assets (stylesheets, images, fonts)"@,
            )
            &&& after.width == run.width
        }),
{
}

/// The height of an image is the viewport's, and for a full page the document's
/// where that is larger, never more than 16384; just where it would be more, a
/// note is added that says so.
pub proof fn law_height_of_an_image(
    run: RunView,
    opts: RenderOptions,
    document: u64,
    text: Seq<char>,
)
    ensures
        ({
            let (after, chosen) = height_chosen(run, opts, document, text);
            let taller = opts.full_page && document > opts.height;
            let wanted = if taller {
                document as int
            } else {
                opts.height as int
            };
            &&& wanted > 16_384 <==> chosen is Limit
            &&& wanted <= 16_384 ==> after == run && (chosen is Document <==> taller)
            &&& wanted > 16_384 ==> after.width == run.width && after.waited == run.waited
                && after.notes == run.notes.push(
                if !opts.full_page {
                    "viewport height clamped from "@ + decimal_text(opts.height as nat) + " to "@
                        + decimal_text(16_384) + " px"@
                } else if taller {
                    "full-page height clamped from "@ + text
                        + " to 16384 CSS px (MAX_RENDER_HEIGHT); image is truncated"@
                } else {
                    "full-page height clamped from "@ + decimal_text(opts.height as nat)
                        + " to 16384 CSS px (MAX_RENDER_HEIGHT); image is truncated"@
                },
            )
        }),
{
}

/// An image of up to 64 million pixels is rendered at its size, a height of
/// zero counting as one; a larger one is refused with its size and the limit.
pub proof fn law_size_of_an_image(width: u32, height: u32)
    ensures
        ({
            let h = if height == 0 {
                1u32
            } else {
                height
            };
            size_checked(width, height) == if width * h <= 64_000_000 {
                Ok::<(u32, u32), RenderErrorView>((width, h))
            } else {
                Err(RenderErrorView::TooLarge { width, height: h, max: 64_000_000 })
            }
        }),
{
}

/// The formats that a request can name: `png`, which is also meant where none
/// is named, `jpeg` and `jpg`. Any other name is no format.
pub proof fn law_format_names(s: Seq<char>)
    ensures
        format_named(None) == Some(ImageFormat::Png),
        format_named(Some(s)) == Some(ImageFormat::Png) <==> s == "png"@,
        format_named(Some(s)) == Some(ImageFormat::Jpeg) <==> s == "jpeg"@ || s == "jpg"@,
{
    reveal_strlit("png");
    reveal_strlit("jpeg");
    reveal_strlit("jpg");
    assert("png"@[0] == 'p' && "jpeg"@[0] == 'j' && "jpg"@[0] == 'j');
}

/// What the errors of a render say.
pub proof fn law_error_texts(s: Seq<char>, width: u32, height: u32, max: u64)
    ensures
        error_text(RenderErrorView::BadViewport(s)) == "viewport is degenerate: "@ + s,
        error_text(RenderErrorView::Encode(s)) == "image encoding failed: "@ + s,
        error_text(RenderErrorView::PaintPanic(s)) == "the paint pass panicked: "@ + s,
        error_text(RenderErrorView::TooLarge { width, height, max }) == "requested render area "@
            + decimal_text(width as nat) + "x"@ + decimal_text(height as nat) + " exceeds the "@
            + decimal_text(max as nat)
            + " pixel cap; reduce the viewport or disable full-page capture"@,
{
}

/// A crop on its own shows what a render with that clip shows, and a note that
/// is due is put behind the others.
pub proof fn law_crop_alone(
    image: ImageView,
    opts: RenderOptions,
    clip: Clip,
    notes: Seq<Seq<char>>,
    note: Seq<char>,
)
    requires
        opts.clip == Some(clip),
    ensures
        cropped(image, clip) == shown_image(image, opts),
        noted(notes, Some(note)) == notes.push(note),
        noted(notes, None) == notes,
{
}

/// A JPEG is encoded at a quality from 1 to 100, which is the given one where
/// that is in bounds and the nearest bound where it is not, and at the low 16
/// bits of its size.
pub proof fn law_jpeg_parameters(quality: u8, n: u32)
    ensures
        1 <= quality_used(quality) <= 100,
        1 <= quality <= 100 ==> quality_used(quality) == quality,
        quality == 0 ==> quality_used(quality) == 1,
        quality > 100 ==> quality_used(quality) == 100,
        low_bits(n) == n as int % 65_536,
{
}

/// A PNG holds an image just when decoding it gives the size and every byte
/// back; only of rows above 64 MiB nothing is said. Every image within the
/// limit on pixels can be encoded.
pub proof fn law_held_images(file: Seq<u8>, buffer: Seq<u8>, width: u32, height: u32)
    ensures
        width * 4 <= 64 * 1024 * 1024 ==> (holds_image(file, buffer, width, height)
            <==> png_decoding(file) == Some((width, height, buffer))),
        width > 0 && height > 0 && width * height <= 64_000_000 ==> png_addressable(width, height),
{
    if width > 0 && height > 0 && width * height <= 64_000_000 {
        assert(width * 1 <= width * height) by (nonlinear_arith)
            requires
                1 <= height,
        ;
    }
}

} // verus!
