//! Laws of rendering.
use crate::raster::{
    crop_reach, cropped, encodable, format_holds, format_note, low_bits, pixel_at, region_rows,
    rgba_len, shown_image, within, ImageView,
};
use crate::render::{
    at_least_one, height_chosen, in_flight_note, resolved, size_checked, started, width_note, Clip,
    RenderOptions, RunView, MAX_RENDER_HEIGHT, MAX_RENDER_PIXELS, MAX_RENDER_WIDTH,
};
use vstd::prelude::*;

verus! {

/// A render that is not refused has a width within the ceiling, and says so
/// just when that is not the width it was asked for.
pub proof fn law_clamped_width_is_noted(opts: RenderOptions, scale: Seq<char>)
    ensures
        started(opts, scale) matches Ok(run) ==> {
            &&& 1 <= run.width <= MAX_RENDER_WIDTH
            &&& run.width <= opts.width
            &&& run.notes.len() > 0 <==> run.width != opts.width
            &&& run.width != opts.width ==> run.notes == seq![width_note(opts.width)]
        },
{
}

/// Waiting for fetches ends only when none is pending or the time is spent,
/// and an image that may miss some says so.
pub proof fn law_missing_assets_are_noted(
    run: RunView,
    idle: bool,
    late: bool,
    budget: Seq<char>,
)
    ensures
        ({
            let (after, step) = resolved(run, idle, late, budget);
            &&& step is Settled <==> idle || late
            &&& step is Settled && !idle ==> after.notes == run.notes.push(in_flight_note(budget))
            &&& step is Sleep ==> after.waited
            &&& run.notes.is_prefix_of(after.notes)
        }),
{
    let after = resolved(run, idle, late, budget).0;
    assert(run.notes =~= after.notes.subrange(0, run.notes.len() as int));
}

/// No image is higher than the ceiling, and a truncated one says so: the limit
/// is chosen just when the viewport, or the document of a full page, is higher,
/// and just then a note is added.
pub proof fn law_truncated_height_is_noted(
    run: RunView,
    opts: RenderOptions,
    document: u64,
    text: Seq<char>,
)
    ensures
        ({
            let (after, chosen) = height_chosen(run, opts, document, text);
            &&& chosen is Limit <==> opts.height > MAX_RENDER_HEIGHT || (opts.full_page && document
                > MAX_RENDER_HEIGHT)
            &&& chosen is Limit <==> after.notes.len() == run.notes.len() + 1
            &&& chosen !is Limit ==> after == run
            &&& chosen is Document ==> opts.height < document <= MAX_RENDER_HEIGHT
            &&& chosen is Viewport ==> opts.height <= MAX_RENDER_HEIGHT
            &&& chosen is Viewport && opts.full_page ==> document <= opts.height
        }),
{
}

/// No image needs more than 256 MB: what is larger is refused before paint.
pub proof fn law_images_are_bounded(width: u32, height: u32)
    ensures
        size_checked(width, height) matches Ok((w, h)) ==> w * h <= MAX_RENDER_PIXELS && rgba_len(
            w,
            h,
        ) <= 256_000_000,
        size_checked(width, height) is Err <==> width * at_least_one(height) > MAX_RENDER_PIXELS,
{
    assert(width * at_least_one(height) * 4 == (width * at_least_one(height)) * 4);
}

proof fn lemma_rows(buffer: Seq<u8>, width: int, height: int, x0: int, y0: int, cw: int, n: int)
    requires
        buffer.len() == width * height * 4,
        0 <= x0,
        0 <= y0,
        0 < cw,
        x0 + cw <= width,
        0 <= n,
        y0 + n <= height,
    ensures
        region_rows(buffer, width, x0, y0, cw, n).len() == n * cw * 4,
        forall|x: int, y: int, c: int|
            0 <= x < cw && 0 <= y < n && 0 <= c < 4 ==> region_rows(
                buffer,
                width,
                x0,
                y0,
                cw,
                n,
            )[#[trigger] (pixel_at(cw, x, y) + c)] == buffer[pixel_at(width, x0 + x, y0 + y) + c],
    decreases n,
{
    if n > 0 {
        lemma_rows(buffer, width, height, x0, y0, cw, n - 1);
        let past = region_rows(buffer, width, x0, y0, cw, n - 1);
        let now = region_rows(buffer, width, x0, y0, cw, n);
        let start = pixel_at(width, x0, y0 + n - 1);
        assert((n - 1) * cw * 4 + cw * 4 == n * cw * 4) by (nonlinear_arith);
        assert(0 <= (y0 + n - 1) * width) by (nonlinear_arith)
            requires
                0 <= y0 + n - 1,
                0 <= width,
        ;
        assert((y0 + n - 1) * width + width <= width * height) by (nonlinear_arith)
            requires
                y0 + n <= height,
                0 <= width,
        ;
        assert(start + cw * 4 <= buffer.len());
        let row = buffer.subrange(start, start + cw * 4);
        assert(now == past + row);
        assert forall|x: int, y: int, c: int|
            0 <= x < cw && 0 <= y < n && 0 <= c < 4 implies now[#[trigger] (pixel_at(cw, x, y)
            + c)] == buffer[pixel_at(width, x0 + x, y0 + y) + c] by {
            if y < n - 1 {
                assert(y * cw + cw <= (n - 1) * cw) by (nonlinear_arith)
                    requires
                        y < n - 1,
                        0 < cw,
                ;
                assert(0 <= y * cw) by (nonlinear_arith)
                    requires
                        0 <= y,
                        0 < cw,
                ;
                assert(pixel_at(cw, x, y) + c < past.len());
                assert(past[pixel_at(cw, x, y) + c] == buffer[pixel_at(width, x0 + x, y0 + y)
                    + c]);
            } else {
                assert(y == n - 1);
                assert((y * cw + x) * 4 == (n - 1) * cw * 4 + x * 4);
                assert(now[pixel_at(cw, x, y) + c] == row[x * 4 + c]);
                assert(pixel_at(width, x0 + x, y0 + y) == start + x * 4);
            }
        }
    }
}

/// A buffer of the whole image is enough for any crop.
pub proof fn law_whole_image_covers_any_crop(width: u32, height: u32, clip: Clip)
    ensures
        crop_reach(width, height, clip) <= rgba_len(width, height),
{
    let (x0, x1) = within(clip.x, at_least_one(clip.width), width);
    let (y0, y1) = within(clip.y, at_least_one(clip.height), height);
    if x0 < x1 && y0 < y1 {
        let last = y1 - 1;
        assert(last * width + width <= width * height) by (nonlinear_arith)
            requires
                last + 1 <= height,
        ;
    }
    assert(0 <= width * height) by (nonlinear_arith);
}

/// Whether a clip and an image have a pixel in common.
pub open spec fn overlaps(image: ImageView, clip: Clip) -> bool {
    &&& clip.x < image.width && 0 < clip.x + at_least_one(clip.width)
    &&& clip.y < image.height && 0 < clip.y + at_least_one(clip.height)
}

/// A crop shows the pixels of its region: pixel by pixel, channel by channel,
/// what stood at the same place of the painted image. Of a clip that starts
/// left of the image or above it, the part on the image is shown.
pub proof fn law_crop_shows_its_region(image: ImageView, clip: Clip, x: int, y: int, c: int)
    requires
        image.pixels.len() == rgba_len(image.width, image.height),
        image.width > 0,
        image.height > 0,
        overlaps(image, clip),
        0 <= x < cropped(image, clip).0.width,
        0 <= y < cropped(image, clip).0.height,
        0 <= c < 4,
    ensures
        ({
            let crop = cropped(image, clip).0;
            let x0 = if clip.x < 0 {
                0
            } else {
                clip.x as int
            };
            let y0 = if clip.y < 0 {
                0
            } else {
                clip.y as int
            };
            crop.pixels[pixel_at(crop.width as int, x, y) + c] == image.pixels[pixel_at(
                image.width as int,
                x0 + x,
                y0 + y,
            ) + c]
        }),
{
    let crop = cropped(image, clip).0;
    let (x0, x1) = within(clip.x, at_least_one(clip.width), image.width);
    let (y0, y1) = within(clip.y, at_least_one(clip.height), image.height);
    lemma_rows(
        image.pixels,
        image.width as int,
        image.height as int,
        x0,
        y0,
        crop.width as int,
        crop.height as int,
    );
}

/// A crop is never empty and never larger than the image, its buffer has the
/// length of its size, and it is the region that was asked for just when no
/// note is given. A clip that overlaps the image is cut to the overlap; any
/// other leaves the image as it is.
pub proof fn law_crop_is_within(image: ImageView, clip: Clip)
    requires
        image.pixels.len() == rgba_len(image.width, image.height),
        image.width > 0,
        image.height > 0,
    ensures
        ({
            let (crop, note) = cropped(image, clip);
            let w = at_least_one(clip.width);
            let h = at_least_one(clip.height);
            &&& 1 <= crop.width <= image.width
            &&& 1 <= crop.height <= image.height
            &&& crop.pixels.len() == rgba_len(crop.width, crop.height)
            &&& note is None <==> 0 <= clip.x && clip.x + w <= image.width && 0 <= clip.y && clip.y
                + h <= image.height
            &&& note is None ==> crop.width == w && crop.height == h
            &&& !overlaps(image, clip) ==> crop == image
            &&& overlaps(image, clip) && clip.x < 0 ==> crop.width == if clip.x + w
                <= image.width {
                clip.x + w
            } else {
                image.width as int
            }
            &&& overlaps(image, clip) && clip.y < 0 ==> crop.height == if clip.y + h
                <= image.height {
                clip.y + h
            } else {
                image.height as int
            }
        }),
{
    let crop = cropped(image, clip).0;
    let (x0, x1) = within(clip.x, at_least_one(clip.width), image.width);
    let (y0, y1) = within(clip.y, at_least_one(clip.height), image.height);
    if x0 < x1 && y0 < y1 {
        lemma_rows(
            image.pixels,
            image.width as int,
            image.height as int,
            x0,
            y0,
            crop.width as int,
            crop.height as int,
        );
        assert(crop.height * crop.width * 4 == crop.width * crop.height * 4) by (nonlinear_arith);
    }
}

/// No clip makes a render fail: a painted image that is not empty can be
/// encoded as PNG wherever the clip lies, and as JPEG too up to the size that
/// format has room for.
pub proof fn law_any_clip_can_be_encoded(image: ImageView, opts: RenderOptions)
    requires
        image.pixels.len() == rgba_len(image.width, image.height),
        image.width > 0,
        image.height > 0,
        format_holds(opts.format, image.width, image.height),
    ensures
        encodable(shown_image(image, opts).0, opts.format),
{
    match opts.clip {
        Some(clip) => {
            law_crop_is_within(image, clip);
        },
        None => {},
    }
}

/// An image whose format has no room for its size says so, and only such a one
/// does: every PNG and every JPEG of at most 65535 pixels a side is silent.
pub proof fn law_cut_size_is_noted(image: ImageView, opts: RenderOptions)
    ensures
        ({
            let shown = shown_image(image, opts).0;
            let note = format_note(opts.format, shown.width, shown.height);
            &&& note is Some <==> opts.format is Jpeg && (shown.width > 65_535 || shown.height
                > 65_535)
            &&& note is None && opts.format is Jpeg ==> low_bits(shown.width) == shown.width
                && low_bits(shown.height) == shown.height
        }),
{
}

} // verus!
