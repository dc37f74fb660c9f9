//! From painted pixels to an encoded image: crop, encode, report.
use crate::render::{
    append_number, at_least_one, notes_view, Clip, ImageFormat, OutcomeView, RenderError,
    RenderErrorView, RenderOptions, RenderOutcome, RenderRun, RunView, MAX_RENDER_PIXELS,
};
use crate::text::{decimal_text, signed, signed_text};
use vstd::prelude::*;

verus! {

/// The bytes of an RGBA image.
pub open spec fn rgba_len(width: u32, height: u32) -> int {
    width * height * 4
}

/// Where the bytes of a pixel start in an RGBA image of that width.
pub open spec fn pixel_at(width: int, x: int, y: int) -> int {
    (y * width + x) * 4
}

/// The first `n` rows of the region of `cw` columns whose upper left pixel is
/// `(x0, y0)`, out of an image `width` pixels wide, one below the other.
pub open spec fn region_rows(
    buffer: Seq<u8>,
    width: int,
    x0: int,
    y0: int,
    cw: int,
    n: int,
) -> Seq<u8>
    decreases n,
{
    if n <= 0 {
        Seq::empty()
    } else {
        let start = pixel_at(width, x0, y0 + n - 1);
        region_rows(buffer, width, x0, y0, cw, n - 1) + buffer.subrange(start, start + cw * 4)
    }
}

/// A painted or cropped image.
#[verifier::ext_equal]
pub struct ImageView {
    pub pixels: Seq<u8>,
    pub width: u32,
    pub height: u32,
}

pub open spec fn outside_note(clip: Clip, width: u32, height: u32) -> Seq<char> {
    "clip origin ("@ + signed_text(clip.x) + ","@ + signed_text(clip.y)
        + ") lies outside the "@ + decimal_text(width as nat) + "x"@ + decimal_text(height as nat)
        + " render; returning the uncropped image"@
}

pub open spec fn clamped_note(clip: Clip, width: u32, height: u32) -> Seq<char> {
    "clip "@ + decimal_text(at_least_one(clip.width) as nat) + "x"@ + decimal_text(
        at_least_one(clip.height) as nat,
    ) + " at ("@ + signed_text(clip.x) + ","@ + signed_text(clip.y)
        + ") exceeded the "@ + decimal_text(width as nat) + "x"@ + decimal_text(height as nat)
        + " render and was clamped"@
}

/// Where the part of an extent that lies within the limit starts and ends; the
/// end is not behind the start where nothing lies within.
pub open spec fn within(start: i64, extent: u32, limit: u32) -> (int, int) {
    (
        if start < 0 {
            0
        } else {
            start as int
        },
        if start + extent <= limit {
            start + extent
        } else {
            limit as int
        },
    )
}

/// The overlap of a clip with an image, and the note that is due. A clip
/// outside the image leaves it as it is; one that reaches beyond an edge is
/// clamped.
pub open spec fn cropped(image: ImageView, clip: Clip) -> (ImageView, Option<Seq<char>>) {
    let w = at_least_one(clip.width);
    let h = at_least_one(clip.height);
    let (x0, x1) = within(clip.x, w, image.width);
    let (y0, y1) = within(clip.y, h, image.height);
    if x0 >= x1 || y0 >= y1 {
        (image, Some(outside_note(clip, image.width, image.height)))
    } else {
        (
            ImageView {
                pixels: region_rows(image.pixels, image.width as int, x0, y0, x1 - x0, y1 - y0),
                width: (x1 - x0) as u32,
                height: (y1 - y0) as u32,
            },
            if x1 - x0 != w || y1 - y0 != h {
                Some(clamped_note(clip, image.width, image.height))
            } else {
                None
            },
        )
    }
}

/// `notes` with a note behind them, if there is one.
pub open spec fn noted(notes: Seq<Seq<char>>, note: Option<Seq<char>>) -> Seq<Seq<char>> {
    match note {
        Some(n) => notes.push(n),
        None => notes,
    }
}

/// How many bytes of an image a crop reads into: up to the end of the last row
/// of its region.
pub open spec fn crop_reach(width: u32, height: u32, clip: Clip) -> int {
    let (x0, x1) = within(clip.x, at_least_one(clip.width), width);
    let (y0, y1) = within(clip.y, at_least_one(clip.height), height);
    if x0 >= x1 || y0 >= y1 {
        0
    } else {
        pixel_at(width as int, x1, y1 - 1)
    }
}

proof fn lemma_row_bounds(width: int, x: int, n: int, y: int, last: int)
    requires
        0 <= x,
        0 <= n,
        0 <= width,
        0 <= y <= last,
    ensures
        0 <= y * width,
        pixel_at(width, x, y) + n * 4 <= pixel_at(width, x + n, last),
{
    assert(0 <= y * width) by (nonlinear_arith)
        requires
            0 <= y,
            0 <= width,
    ;
    assert(y * width <= last * width) by (nonlinear_arith)
        requires
            y <= last,
            0 <= width,
    ;
}

/// Where the part of an extent within the limit starts, and how long it is.
fn overlap(start: i64, extent: u32, limit: u32) -> (r: (u32, u32))
    ensures
        ({
            let (a, b) = within(start, extent, limit);
            if a >= b {
                r.1 == 0
            } else {
                r.0 == a && r.1 == b - a && a + r.1 <= limit
            }
        }),
{
    if start >= limit as i64 {
        return (0, 0);
    }
    let end: i64 = start + extent as i64;
    let end: i64 = if end <= limit as i64 {
        end
    } else {
        limit as i64
    };
    let first: i64 = if start < 0 {
        0
    } else {
        start
    };
    if first >= end {
        return (0, 0);
    }
    (first as u32, (end - first) as u32)
}

/// Crops an RGBA buffer to a clip, clamped to the buffer. A clip out of bounds
/// is clamped and noted rather than refused: clients compute clips from stale
/// layouts, and the overlap is worth more to them than an error.
pub fn crop_rgba(
    buffer: &[u8],
    buf_w: u32,
    buf_h: u32,
    clip: Clip,
    notes: &mut Vec<String>,
) -> (r: (Vec<u8>, u32, u32))
    requires
        buffer@.len() >= crop_reach(buf_w, buf_h, clip),
    ensures
        ({
            let (image, note) = cropped(
                ImageView { pixels: buffer@, width: buf_w, height: buf_h },
                clip,
            );
            &&& r.0@ == image.pixels
            &&& r.1 == image.width
            &&& r.2 == image.height
            &&& notes_view(final(notes)@) == noted(notes_view(old(notes)@), note)
        }),
{
    let ghost before = notes@;
    let w: u32 = if clip.width == 0 {
        1
    } else {
        clip.width
    };
    let h: u32 = if clip.height == 0 {
        1
    } else {
        clip.height
    };
    let (x0, cw): (u32, u32) = overlap(clip.x, w, buf_w);
    let (y0, ch): (u32, u32) = overlap(clip.y, h, buf_h);
    let clip_x: String = signed(clip.x);
    let clip_y: String = signed(clip.y);
    if cw == 0 || ch == 0 {
        let mut s: String = "clip origin (".to_owned();
        s.append(clip_x.as_str());
        s.append(",");
        s.append(clip_y.as_str());
        s.append(") lies outside the ");
        append_number(&mut s, buf_w as u64);
        s.append("x");
        append_number(&mut s, buf_h as u64);
        s.append(" render; returning the uncropped image");
        notes.push(s);
        assert(notes_view(notes@) =~= notes_view(before).push(s@));
        let mut whole: Vec<u8> = Vec::new();
        whole.extend_from_slice(buffer);
        assert(whole@ =~= buffer@);
        return (whole, buf_w, buf_h);
    }
    if cw != w || ch != h {
        let mut s: String = "clip ".to_owned();
        append_number(&mut s, w as u64);
        s.append("x");
        append_number(&mut s, h as u64);
        s.append(" at (");
        s.append(clip_x.as_str());
        s.append(",");
        s.append(clip_y.as_str());
        s.append(") exceeded the ");
        append_number(&mut s, buf_w as u64);
        s.append("x");
        append_number(&mut s, buf_h as u64);
        s.append(" render and was clamped");
        notes.push(s);
        assert(notes_view(notes@) =~= notes_view(before).push(s@));
    }
    let mut out: Vec<u8> = Vec::new();
    let mut row: u32 = 0;
    let len: usize = buffer.len();
    while row < ch
        invariant
            row <= ch,
            len == buffer@.len(),
            x0 + cw <= buf_w,
            y0 + ch <= buf_h,
            len >= pixel_at(buf_w as int, x0 + cw, y0 + ch - 1),
            out@ == region_rows(
                buffer@,
                buf_w as int,
                x0 as int,
                y0 as int,
                cw as int,
                row as int,
            ),
        decreases ch - row,
    {
        proof {
            lemma_row_bounds(buf_w as int, x0 as int, cw as int, y0 + row, y0 + ch - 1);
        }
        let start: usize = ((y0 + row) as usize * buf_w as usize + x0 as usize) * 4;
        let end: usize = start + cw as usize * 4;
        let ghost so_far = out@;
        out.extend_from_slice(vstd::slice::slice_subrange(buffer, start, end));
        assert(out@ =~= so_far + buffer@.subrange(start as int, end as int));
        row = row + 1;
    }
    (out, cw, ch)
}

/// The eight bytes that every PNG starts with.
pub open spec fn png_signature() -> Seq<u8> {
    seq![137u8, 80, 78, 71, 13, 10, 26, 10]
}

/// The two bytes that every JPEG starts with.
pub open spec fn jpeg_signature() -> Seq<u8> {
    seq![255u8, 216]
}

pub open spec fn starts_with(bytes: Seq<u8>, head: Seq<u8>) -> bool {
    bytes.len() >= head.len() && bytes.take(head.len() as int) == head
}

/// Whether the encoder can count the bytes of an image: those of a row in 32
/// bits, those of the image in a `usize`.
pub open spec fn png_addressable(width: u32, height: u32) -> bool {
    (height > 0 ==> width * 4 < u32::MAX) && rgba_len(width, height) < usize::MAX
}

/// Whether a buffer is that of a PNG of this size.
pub open spec fn png_fits(buffer: Seq<u8>, width: u32, height: u32) -> bool {
    width > 0 && height > 0 && buffer.len() == rgba_len(width, height)
}

/// Whether a buffer is long enough for a JPEG of this size.
pub open spec fn jpeg_fits(buffer: Seq<u8>, width: u16, height: u16) -> bool {
    width > 0 && height > 0 && buffer.len() >= width * height * 4
}

pub open spec fn encoded_view(r: Result<Vec<u8>, String>) -> Result<Seq<u8>, Seq<char>> {
    match r {
        Ok(b) => Ok(b@),
        Err(e) => Err(e@),
    }
}

/// What the encoder of the `png` crate makes of an RGBA buffer with 8 bits per
/// channel: the file, or the text of its error.
pub uninterp spec fn png_encoding(
    buffer: Seq<u8>,
    width: u32,
    height: u32,
) -> Result<Seq<u8>, Seq<char>>;

/// What the decoder of the `png` crate, with its default limits, reads from a
/// file: width, height and the bytes of the image as they are stored. Nothing
/// where it refuses the file.
pub uninterp spec fn png_decoding(file: Seq<u8>) -> Option<(u32, u32, Seq<u8>)>;

/// The longest row, in bytes, that the decoder's default limits admit.
pub const MAX_DECODED_ROW: u32 = 0x400_0000;

/// Whether the decoder's default limits admit the rows of an image.
pub open spec fn decodable(width: u32) -> bool {
    width * 4 <= MAX_DECODED_ROW
}

/// Whether a file holds just this image, pixel by pixel, alpha included. Of rows
/// longer than the decoder admits nothing is said.
pub open spec fn holds_image(file: Seq<u8>, buffer: Seq<u8>, width: u32, height: u32) -> bool {
    decodable(width) ==> png_decoding(file) == Some((width, height, buffer))
}

/// What the encoder of the `jpeg-encoder` crate makes of an RGBA buffer: the
/// file, or the text of its error.
pub uninterp spec fn jpeg_encoding(
    buffer: Seq<u8>,
    quality: u8,
    width: u16,
    height: u16,
) -> Result<Seq<u8>, Seq<char>>;

/// `png::Encoder` with `ColorType::Rgba` and `BitDepth::Eight`, from `new` to
/// `Writer::finish`, writing into a vector. Claimed: the outcome depends on the
/// arguments alone; it succeeds just for images that are not empty and whose
/// buffer has the right length; a file starts with the PNG signature; and the
/// encoding is lossless, so that `png::Decoder` (`new`, `read_info`,
/// `Reader::next_frame`) reads the size and the buffer back. Left unsaid: the
/// compressed bytes themselves.
#[verifier::external_body]
fn png_encode(buffer: &[u8], width: u32, height: u32) -> (r: Result<Vec<u8>, String>)
    requires
        png_addressable(width, height),
    ensures
        encoded_view(r) == png_encoding(buffer@, width, height),
        (r is Ok) == png_fits(buffer@, width, height),
        r matches Ok(b) ==> starts_with(b@, png_signature()),
        r matches Ok(b) ==> (decodable(width) ==> png_decoding(b@) == Some(
            (width, height, buffer@),
        )),
{
    let mut out = Vec::new();
    let mut encoder = png::Encoder::new(&mut out, width, height);
    encoder.set_color(png::ColorType::Rgba);
    encoder.set_depth(png::BitDepth::Eight);
    let mut writer = encoder.write_header().map_err(|e| e.to_string())?;
    writer.write_image_data(buffer).map_err(|e| e.to_string())?;
    writer.finish().map_err(|e| e.to_string())?;
    Ok(out)
}

/// `jpeg_encoder::Encoder::new` and `encode` with `ColorType::Rgba`, writing
/// into a vector. Claimed: the outcome depends on the arguments alone; it
/// succeeds just for images that are not empty and whose buffer is long enough;
/// and a file starts with the JPEG start marker. Left unsaid: the compressed
/// bytes themselves.
#[verifier::external_body]
fn jpeg_encode(buffer: &[u8], quality: u8, width: u16, height: u16) -> (r: Result<Vec<u8>, String>)
    requires
        1 <= quality <= 100,
        width * height * 4 <= usize::MAX,
    ensures
        encoded_view(r) == jpeg_encoding(buffer@, quality, width, height),
        (r is Ok) == jpeg_fits(buffer@, width, height),
        r matches Ok(b) ==> starts_with(b@, jpeg_signature()),
{
    let mut out = Vec::new();
    let encoder = jpeg_encoder::Encoder::new(&mut out, quality);
    encoder.encode(buffer, width, height, jpeg_encoder::ColorType::Rgba).map_err(
        |e| e.to_string(),
    )?;
    Ok(out)
}

/// An encoder's error as a render's.
pub open spec fn encode_view(r: Result<Seq<u8>, Seq<char>>) -> Result<Seq<u8>, RenderErrorView> {
    match r {
        Ok(b) => Ok(b),
        Err(e) => Err(RenderErrorView::Encode(e)),
    }
}

pub open spec fn bytes_view(r: Result<Vec<u8>, RenderError>) -> Result<Seq<u8>, RenderErrorView> {
    match r {
        Ok(b) => Ok(b@),
        Err(e) => Err(e@),
    }
}

/// Encodes an RGBA buffer as PNG, without loss.
pub fn encode_png(buffer: &[u8], width: u32, height: u32) -> (r: Result<Vec<u8>, RenderError>)
    requires
        png_addressable(width, height),
    ensures
        bytes_view(r) == encode_view(png_encoding(buffer@, width, height)),
        (r is Ok) == png_fits(buffer@, width, height),
        r matches Ok(b) ==> starts_with(b@, png_signature()),
        r matches Ok(b) ==> holds_image(b@, buffer@, width, height),
{
    match png_encode(buffer, width, height) {
        Ok(b) => Ok(b),
        Err(e) => Err(RenderError::Encode(e)),
    }
}

/// A quality within 1..=100.
pub open spec fn quality_used(quality: u8) -> u8 {
    if quality < 1 {
        1
    } else if quality > 100 {
        100
    } else {
        quality
    }
}

/// The largest dimension that a JPEG has room for.
pub const MAX_JPEG_DIM: u32 = 65_535;

/// The low 16 bits of a dimension: all that a JPEG has room for.
pub open spec fn low_bits(n: u32) -> u16 {
    (n % 0x1_0000) as u16
}

/// Encodes an RGBA buffer as JPEG, at the low 16 bits of its size. There is no
/// alpha in a JPEG; the painted background is opaque, so nothing is lost with
/// it.
pub fn encode_jpeg(buffer: &[u8], width: u32, height: u32, quality: u8) -> (r: Result<
    Vec<u8>,
    RenderError,
>)
    requires
        low_bits(width) * low_bits(height) * 4 <= usize::MAX,
    ensures
        bytes_view(r) == encode_view(
            jpeg_encoding(buffer@, quality_used(quality), low_bits(width), low_bits(height)),
        ),
        (r is Ok) == jpeg_fits(buffer@, low_bits(width), low_bits(height)),
        r matches Ok(b) ==> starts_with(b@, jpeg_signature()),
{
    let q: u8 = if quality < 1 {
        1
    } else if quality > 100 {
        100
    } else {
        quality
    };
    let w: u16 = (width % 0x1_0000) as u16;
    let h: u16 = (height % 0x1_0000) as u16;
    match jpeg_encode(buffer, q, w, h) {
        Ok(b) => Ok(b),
        Err(e) => Err(RenderError::Encode(e)),
    }
}

/// Whether a format has room for the size of an image.
pub open spec fn format_holds(format: ImageFormat, width: u32, height: u32) -> bool {
    format is Jpeg ==> width <= MAX_JPEG_DIM && height <= MAX_JPEG_DIM
}

/// The note of an image that its format has no room for.
pub open spec fn format_note(format: ImageFormat, width: u32, height: u32) -> Option<Seq<char>> {
    if format_holds(format, width, height) {
        None
    } else {
        Some(
            "a JPEG has no room for "@ + decimal_text(width as nat) + "x"@ + decimal_text(
                height as nat,
            ) + "; image is encoded as "@ + decimal_text(low_bits(width) as nat) + "x"@
                + decimal_text(low_bits(height) as nat),
        )
    }
}

fn note_format(format: ImageFormat, width: u32, height: u32, notes: &mut Vec<String>)
    ensures
        notes_view(final(notes)@) == noted(
            notes_view(old(notes)@),
            format_note(format, width, height),
        ),
{
    let narrow: bool = match format {
        ImageFormat::Jpeg => true,
        ImageFormat::Png => false,
    };
    if narrow && (width > MAX_JPEG_DIM || height > MAX_JPEG_DIM) {
        let ghost before = notes@;
        let mut s: String = "a JPEG has no room for ".to_owned();
        append_number(&mut s, width as u64);
        s.append("x");
        append_number(&mut s, height as u64);
        s.append("; image is encoded as ");
        append_number(&mut s, (width % 0x1_0000) as u64);
        s.append("x");
        append_number(&mut s, (height % 0x1_0000) as u64);
        notes.push(s);
        assert(notes_view(notes@) =~= notes_view(before).push(s@));
    }
}

/// What a render comes to, given what the encoder made of the image.
pub open spec fn outcome_of(
    encoded: Result<Seq<u8>, RenderErrorView>,
    width: u32,
    height: u32,
    format: ImageFormat,
    notes: Seq<Seq<char>>,
) -> Result<OutcomeView, RenderErrorView> {
    match encoded {
        Ok(bytes) => Ok(OutcomeView { bytes, width, height, format, fidelity_notes: notes }),
        Err(e) => Err(e),
    }
}

pub open spec fn outcome_view(r: Result<RenderOutcome, RenderError>) -> Result<
    OutcomeView,
    RenderErrorView,
> {
    match r {
        Ok(o) => Ok(o@),
        Err(e) => Err(e@),
    }
}

/// Reports an encoded image with the notes of its run.
pub fn outcome(
    encoded: Result<Vec<u8>, RenderError>,
    width: u32,
    height: u32,
    format: ImageFormat,
    notes: Vec<String>,
) -> (r: Result<RenderOutcome, RenderError>)
    ensures
        outcome_view(r) == outcome_of(
            bytes_view(encoded),
            width,
            height,
            format,
            notes_view(notes@),
        ),
{
    match encoded {
        Ok(bytes) => Ok(RenderOutcome { bytes, width, height, format, fidelity_notes: notes }),
        Err(e) => Err(e),
    }
}

/// What the encoder of a format makes of an image.
pub open spec fn encoding(image: ImageView, format: ImageFormat, quality: u8) -> Result<
    Seq<u8>,
    RenderErrorView,
> {
    encode_view(
        match format {
            ImageFormat::Png => png_encoding(image.pixels, image.width, image.height),
            ImageFormat::Jpeg => jpeg_encoding(
                image.pixels,
                quality_used(quality),
                low_bits(image.width),
                low_bits(image.height),
            ),
        },
    )
}

/// The image that a request shows, cropped if asked for, and the note due.
pub open spec fn shown_image(image: ImageView, opts: RenderOptions) -> (
    ImageView,
    Option<Seq<char>>,
) {
    match opts.clip {
        Some(clip) => cropped(image, clip),
        None => (image, None),
    }
}

/// Whether the encoder of a format takes an image.
pub open spec fn encodable(image: ImageView, format: ImageFormat) -> bool {
    match format {
        ImageFormat::Png => png_fits(image.pixels, image.width, image.height),
        ImageFormat::Jpeg => jpeg_fits(
            image.pixels,
            low_bits(image.width),
            low_bits(image.height),
        ),
    }
}

/// The bytes that a file of a format starts with.
pub open spec fn signature(format: ImageFormat) -> Seq<u8> {
    match format {
        ImageFormat::Png => png_signature(),
        ImageFormat::Jpeg => jpeg_signature(),
    }
}

/// What a run comes to once its image is painted: cropped if asked for,
/// encoded, reported with every note.
pub open spec fn finished(run: RunView, image: ImageView, opts: RenderOptions) -> Result<
    OutcomeView,
    RenderErrorView,
> {
    let (shown, note) = shown_image(image, opts);
    outcome_of(
        encoding(shown, opts.format, opts.jpeg_quality),
        shown.width,
        shown.height,
        opts.format,
        noted(noted(run.notes, note), format_note(opts.format, shown.width, shown.height)),
    )
}

proof fn lemma_small(a: int, b: int, x: int, y: int)
    requires
        0 <= a <= x,
        0 <= b <= y,
    ensures
        a * b <= x * y,
{
    assert(a * b <= x * y) by (nonlinear_arith)
        requires
            0 <= a <= x,
            0 <= b <= y,
    ;
}

impl RenderRun {
    /// Finishes a render with the painted RGBA buffer. Cropping comes after
    /// paint: moving the scene instead would change where fixed elements land.
    pub fn finish(self, buffer: Vec<u8>, width: u32, height: u32, opts: &RenderOptions) -> (r:
        Result<RenderOutcome, RenderError>)
        requires
            width * height <= MAX_RENDER_PIXELS,
            opts.clip matches Some(clip) ==> buffer@.len() >= crop_reach(width, height, clip),
        ensures
            outcome_view(r) == finished(
                self@,
                ImageView { pixels: buffer@, width, height },
                *opts,
            ),
            (r is Ok) == encodable(
                shown_image(ImageView { pixels: buffer@, width, height }, *opts).0,
                opts.format,
            ),
            r matches Ok(o) ==> starts_with(o.bytes@, signature(opts.format)),
            opts.format is Png ==> (r matches Ok(o) ==> holds_image(
                o.bytes@,
                shown_image(ImageView { pixels: buffer@, width, height }, *opts).0.pixels,
                o.width,
                o.height,
            )),
            r matches Ok(o) ==> o.format == opts.format,
            opts.clip is None ==> (r matches Ok(o) ==> o.width == width && o.height == height),
            opts.clip is None && opts.format is Png ==> (r matches Ok(o) ==> (width * 4 <= 64 * 1024
                * 1024 ==> png_decoding(o.bytes@) == Some((width, height, buffer@)))),
    {
        let mut notes: Vec<String> = self.notes;
        let (pixels, out_w, out_h): (Vec<u8>, u32, u32) = match opts.clip {
            Some(clip) => crop_rgba(buffer.as_slice(), width, height, clip, &mut notes),
            None => (buffer, width, height),
        };
        proof {
            lemma_small(out_w as int, out_h as int, width as int, height as int);
            if out_h > 0 {
                lemma_small(out_w as int, 1, out_w as int, out_h as int);
            }
            lemma_small(
                low_bits(out_w) as int,
                low_bits(out_h) as int,
                out_w as int,
                out_h as int,
            );
        }
        note_format(opts.format, out_w, out_h, &mut notes);
        let encoded: Result<Vec<u8>, RenderError> = match opts.format {
            ImageFormat::Png => encode_png(pixels.as_slice(), out_w, out_h),
            ImageFormat::Jpeg => encode_jpeg(pixels.as_slice(), out_w, out_h, opts.jpeg_quality),
        };
        outcome(encoded, out_w, out_h, opts.format, notes)
    }
}

} // verus!
