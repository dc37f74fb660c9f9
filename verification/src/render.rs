//! Rendering decisions: what is refused, what is clamped, and what the caller
//! is told about it.
//!
//! Layout and paint happen outside. A [`RenderRun`] is told what happened and
//! says what to do next; every caveat that applied ends up in its notes, since
//! an image that is silently truncated or silently misses its stylesheets looks
//! correct and is not.
use crate::scale::{positive_finite, INFINITE, SCALE_ONE};
use crate::text::{decimal, decimal_text, text_eq};
use vstd::prelude::*;

verus! {

/// Ceiling on the rendered height, in CSS pixels, before scaling.
pub const MAX_RENDER_HEIGHT: u32 = 16_384;

/// Ceiling on the rendered width, in CSS pixels, before scaling.
pub const MAX_RENDER_WIDTH: u32 = 8_192;

/// Ceiling on the pixels of an image, after scaling: 256 MiB of RGBA. Width
/// and height can each be legal while their product is not.
pub const MAX_RENDER_PIXELS: u64 = 64_000_000;

/// Milliseconds between two looks at the pending fetches.
pub const POLL_MILLIS: u64 = 5;

/// Why a render was refused or failed.
#[derive(Debug, PartialEq, Eq)]
pub enum RenderError {
    BadViewport(String),
    TooLarge { width: u32, height: u32, max: u64 },
    Encode(String),
    PaintPanic(String),
}

#[verifier::ext_equal]
pub enum RenderErrorView {
    BadViewport(Seq<char>),
    TooLarge { width: u32, height: u32, max: u64 },
    Encode(Seq<char>),
    PaintPanic(Seq<char>),
}

impl View for RenderError {
    type V = RenderErrorView;

    open spec fn view(&self) -> RenderErrorView {
        match self {
            RenderError::BadViewport(s) => RenderErrorView::BadViewport(s@),
            RenderError::TooLarge { width, height, max } => RenderErrorView::TooLarge {
                width: *width,
                height: *height,
                max: *max,
            },
            RenderError::Encode(s) => RenderErrorView::Encode(s@),
            RenderError::PaintPanic(s) => RenderErrorView::PaintPanic(s@),
        }
    }
}

/// The text that an error is shown with.
pub open spec fn error_text(e: RenderErrorView) -> Seq<char> {
    match e {
        RenderErrorView::BadViewport(s) => "viewport is degenerate: "@ + s,
        RenderErrorView::TooLarge { width, height, max } => "requested render area "@
            + decimal_text(width as nat) + "x"@ + decimal_text(height as nat) + " exceeds the "@
            + decimal_text(max as nat)
            + " pixel cap; reduce the viewport or disable full-page capture"@,
        RenderErrorView::Encode(s) => "image encoding failed: "@ + s,
        RenderErrorView::PaintPanic(s) => "the paint pass panicked: "@ + s,
    }
}

/// Puts a number behind a text.
pub(crate) fn append_number(s: &mut String, n: u64)
    ensures
        final(s)@ == old(s)@ + decimal_text(n as nat),
{
    let number: String = decimal(n);
    s.append(number.as_str());
}

impl RenderError {
    /// The text that the error is shown with.
    pub fn message(&self) -> (r: String)
        ensures
            r@ == error_text(self@),
    {
        match self {
            RenderError::BadViewport(s) => {
                let mut m: String = "viewport is degenerate: ".to_owned();
                m.append(s.as_str());
                m
            },
            RenderError::TooLarge { width, height, max } => {
                let mut m: String = "requested render area ".to_owned();
                append_number(&mut m, *width as u64);
                m.append("x");
                append_number(&mut m, *height as u64);
                m.append(" exceeds the ");
                append_number(&mut m, *max);
                m.append(" pixel cap; reduce the viewport or disable full-page capture");
                m
            },
            RenderError::Encode(s) => {
                let mut m: String = "image encoding failed: ".to_owned();
                m.append(s.as_str());
                m
            },
            RenderError::PaintPanic(s) => {
                let mut m: String = "the paint pass panicked: ".to_owned();
                m.append(s.as_str());
                m
            },
        }
    }
}

/// Output image format.
#[derive(Debug, Clone, Copy, PartialEq, Eq, Structural)]
pub enum ImageFormat {
    Png,
    /// Quality is carried on [`RenderOptions::jpeg_quality`].
    Jpeg,
}

/// The format that a screenshot request names: PNG where it names none.
pub open spec fn format_named(s: Option<Seq<char>>) -> Option<ImageFormat> {
    match s {
        None => Some(ImageFormat::Png),
        Some(s) => if s == "png"@ {
            Some(ImageFormat::Png)
        } else if s == "jpeg"@ || s == "jpg"@ {
            Some(ImageFormat::Jpeg)
        } else {
            None
        },
    }
}

impl ImageFormat {
    /// Reads the `format` parameter of a screenshot request. A format that is
    /// not encoded here, `webp` among them, is none: answering it with PNG
    /// would misreport the payload.
    pub fn from_cdp(s: Option<&str>) -> (r: Option<Self>)
        ensures
            r == format_named(
                match s {
                    Some(s) => Some(s@),
                    None => None,
                },
            ),
    {
        match s {
            None => Some(ImageFormat::Png),
            Some(s) => if text_eq(s, "png") {
                Some(ImageFormat::Png)
            } else if text_eq(s, "jpeg") || text_eq(s, "jpg") {
                Some(ImageFormat::Jpeg)
            } else {
                None
            },
        }
    }
}

/// A region to crop to, in device pixels. It may start left of the image or
/// above it. An extent of zero counts as one.
#[derive(Debug, Clone, Copy, PartialEq, Eq, Structural)]
pub struct Clip {
    pub x: i64,
    pub y: i64,
    pub width: u32,
    pub height: u32,
}

#[derive(Debug, Clone, Copy, PartialEq, Eq, Structural)]
pub struct RenderOptions {
    /// Viewport width in CSS pixels.
    pub width: u32,
    /// Viewport height in CSS pixels.
    pub height: u32,
    /// Device pixel ratio, by the bits of its `f32`.
    pub scale_bits: u32,
    /// Grow the output to the document's height, up to [`MAX_RENDER_HEIGHT`].
    pub full_page: bool,
    pub format: ImageFormat,
    /// 1..=100. Ignored for PNG.
    pub jpeg_quality: u8,
    /// Optional crop, applied after paint.
    pub clip: Option<Clip>,
}

impl Default for RenderOptions {
    fn default() -> (r: Self)
        ensures
            r == (RenderOptions {
                width: 1280,
                height: 720,
                scale_bits: SCALE_ONE,
                full_page: false,
                format: ImageFormat::Png,
                jpeg_quality: 80,
                clip: None,
            }),
    {
        RenderOptions {
            width: 1280,
            height: 720,
            scale_bits: SCALE_ONE,
            full_page: false,
            format: ImageFormat::Png,
            jpeg_quality: 80,
            clip: None,
        }
    }
}

/// A rendered image and what the caller should not have to guess about it.
#[derive(Debug, PartialEq, Eq)]
pub struct RenderOutcome {
    pub bytes: Vec<u8>,
    pub width: u32,
    pub height: u32,
    pub format: ImageFormat,
    /// The caveats that applied to this render.
    pub fidelity_notes: Vec<String>,
}

#[verifier::ext_equal]
pub struct OutcomeView {
    pub bytes: Seq<u8>,
    pub width: u32,
    pub height: u32,
    pub format: ImageFormat,
    pub fidelity_notes: Seq<Seq<char>>,
}

pub open spec fn notes_view(v: Seq<String>) -> Seq<Seq<char>> {
    v.map_values(|s: String| s@)
}

impl View for RenderOutcome {
    type V = OutcomeView;

    open spec fn view(&self) -> OutcomeView {
        OutcomeView {
            bytes: self.bytes@,
            width: self.width,
            height: self.height,
            format: self.format,
            fidelity_notes: notes_view(self.fidelity_notes@),
        }
    }
}

/// A render under way.
#[derive(Debug)]
pub struct RenderRun {
    /// The layout width in CSS pixels.
    pub width: u32,
    /// Whether a fetch was ever waited for.
    pub waited: bool,
    pub notes: Vec<String>,
}

#[verifier::ext_equal]
pub struct RunView {
    pub width: u32,
    pub waited: bool,
    pub notes: Seq<Seq<char>>,
}

impl View for RenderRun {
    type V = RunView;

    open spec fn view(&self) -> RunView {
        RunView { width: self.width, waited: self.waited, notes: notes_view(self.notes@) }
    }
}

/// What to do after a layout pass.
#[derive(Debug, Clone, Copy, PartialEq, Eq, Structural)]
pub enum ResolveStep {
    /// Sleep for [`POLL_MILLIS`], then lay out again.
    Sleep,
    /// Wait no longer.
    Settled,
}

/// Which height an image gets.
#[derive(Debug, Clone, Copy, PartialEq, Eq, Structural)]
pub enum CssHeight {
    /// The viewport's.
    Viewport,
    /// The document's.
    Document,
    /// [`MAX_RENDER_HEIGHT`].
    Limit,
}

pub open spec fn width_note(asked: u32) -> Seq<char> {
    "viewport width clamped from "@ + decimal_text(asked as nat) + " to "@ + decimal_text(
        MAX_RENDER_WIDTH as nat,
    ) + " px"@
}

pub open spec fn in_flight_note(budget: Seq<char>) -> Seq<char> {
    "subresource fetches still in flight after "@ + budget
        + "; image may be missing late-loading assets (stylesheets, images, fonts)"@
}

pub open spec fn viewport_height_note(asked: u32) -> Seq<char> {
    "viewport height clamped from "@ + decimal_text(asked as nat) + " to "@ + decimal_text(
        MAX_RENDER_HEIGHT as nat,
    ) + " px"@
}

pub open spec fn height_note(wanted: Seq<char>) -> Seq<char> {
    "full-page height clamped from "@ + wanted
        + " to 16384 CSS px (MAX_RENDER_HEIGHT); image is truncated"@
}

/// The run that a request starts, or why it is refused. `scale` is the ratio
/// as messages show it.
pub open spec fn started(opts: RenderOptions, scale: Seq<char>) -> Result<
    RunView,
    RenderErrorView,
> {
    if opts.width == 0 || opts.height == 0 {
        Err(
            RenderErrorView::BadViewport(
                decimal_text(opts.width as nat) + "x"@ + decimal_text(opts.height as nat),
            ),
        )
    } else if !positive_finite(opts.scale_bits) {
        Err(RenderErrorView::BadViewport("scale="@ + scale))
    } else if opts.width > MAX_RENDER_WIDTH {
        Ok(
            RunView {
                width: MAX_RENDER_WIDTH,
                waited: false,
                notes: seq![width_note(opts.width)],
            },
        )
    } else {
        Ok(RunView { width: opts.width, waited: false, notes: Seq::empty() })
    }
}

/// The run after a layout pass and what to do next. Waiting ends when no fetch
/// is pending, or with a note when the budget of time is spent.
pub open spec fn resolved(run: RunView, idle: bool, late: bool, budget: Seq<char>) -> (
    RunView,
    ResolveStep,
) {
    if idle {
        (run, ResolveStep::Settled)
    } else if late {
        (
            RunView { notes: run.notes.push(in_flight_note(budget)), ..run },
            ResolveStep::Settled,
        )
    } else {
        (RunView { waited: true, ..run }, ResolveStep::Sleep)
    }
}

/// The height that an image gets and the run after the choice: the viewport's,
/// or for a full page the document's where that is larger, but never more than
/// the limit, with a note where it would be. `document` is the document's
/// height in CSS pixels, rounded up; `text` is that height as messages show it.
pub open spec fn height_chosen(
    run: RunView,
    opts: RenderOptions,
    document: u64,
    text: Seq<char>,
) -> (RunView, CssHeight) {
    if !opts.full_page && opts.height > MAX_RENDER_HEIGHT {
        (
            RunView { notes: run.notes.push(viewport_height_note(opts.height)), ..run },
            CssHeight::Limit,
        )
    } else if !opts.full_page {
        (run, CssHeight::Viewport)
    } else if document > opts.height && document > MAX_RENDER_HEIGHT {
        (RunView { notes: run.notes.push(height_note(text)), ..run }, CssHeight::Limit)
    } else if document > opts.height {
        (run, CssHeight::Document)
    } else if opts.height > MAX_RENDER_HEIGHT {
        (
            RunView {
                notes: run.notes.push(height_note(decimal_text(opts.height as nat))),
                ..run
            },
            CssHeight::Limit,
        )
    } else {
        (run, CssHeight::Viewport)
    }
}

/// At least one pixel.
pub open spec fn at_least_one(n: u32) -> u32 {
    if n == 0 {
        1
    } else {
        n
    }
}

/// The size of an image, or the refusal of one that is too large. A height of
/// zero counts as one.
pub open spec fn size_checked(width: u32, height: u32) -> Result<(u32, u32), RenderErrorView> {
    let h = at_least_one(height);
    if width * h > MAX_RENDER_PIXELS {
        Err(RenderErrorView::TooLarge { width, height: h, max: MAX_RENDER_PIXELS })
    } else {
        Ok((width, h))
    }
}

/// Checks the size in device pixels that layout width and chosen height come
/// to under the ratio.
pub fn render_size(width: u32, height: u32) -> (r: Result<(u32, u32), RenderError>)
    ensures
        match r {
            Ok(size) => size_checked(width, height) == Ok::<(u32, u32), RenderErrorView>(size),
            Err(e) => size_checked(width, height) == Err::<(u32, u32), RenderErrorView>(e@),
        },
{
    let h: u32 = if height == 0 {
        1
    } else {
        height
    };
    assert(width as int * h as int <= u32::MAX * u32::MAX) by (nonlinear_arith)
        requires
            0 <= width <= u32::MAX,
            0 <= h <= u32::MAX,
    ;
    let total: u64 = width as u64 * h as u64;
    if total > MAX_RENDER_PIXELS {
        return Err(RenderError::TooLarge { width, height: h, max: MAX_RENDER_PIXELS });
    }
    Ok((width, h))
}

impl RenderRun {
    /// Starts a render, unless the viewport is degenerate. Widths beyond the
    /// ceiling are clamped with a note.
    pub fn start(opts: &RenderOptions, scale_text: &str) -> (r: Result<RenderRun, RenderError>)
        ensures
            match r {
                Ok(run) => started(*opts, scale_text@) == Ok::<RunView, RenderErrorView>(run@),
                Err(e) => started(*opts, scale_text@) == Err::<RunView, RenderErrorView>(e@),
            },
    {
        if opts.width == 0 || opts.height == 0 {
            let mut s: String = decimal(opts.width as u64);
            s.append("x");
            append_number(&mut s, opts.height as u64);
            return Err(RenderError::BadViewport(s));
        }
        if opts.scale_bits == 0 || opts.scale_bits >= INFINITE {
            let mut s: String = "scale=".to_owned();
            s.append(scale_text);
            return Err(RenderError::BadViewport(s));
        }
        let mut notes: Vec<String> = Vec::new();
        if opts.width > MAX_RENDER_WIDTH {
            let mut s: String = "viewport width clamped from ".to_owned();
            append_number(&mut s, opts.width as u64);
            s.append(" to ");
            append_number(&mut s, MAX_RENDER_WIDTH as u64);
            s.append(" px");
            notes.push(s);
            assert(notes_view(notes@) =~= seq![width_note(opts.width)]);
            return Ok(RenderRun { width: MAX_RENDER_WIDTH, waited: false, notes });
        }
        assert(notes_view(notes@) =~= Seq::empty());
        Ok(RenderRun { width: opts.width, waited: false, notes })
    }

    /// Decides after a layout pass whether to wait for fetches: `idle` says
    /// that none is pending, `late` that the budget of time is spent, and
    /// `budget_text` is that budget as messages show it.
    pub fn after_resolve(&mut self, idle: bool, late: bool, budget_text: &str) -> (r: ResolveStep)
        ensures
            (final(self)@, r) == resolved(old(self)@, idle, late, budget_text@),
    {
        if idle {
            return ResolveStep::Settled;
        }
        if late {
            let mut s: String = "subresource fetches still in flight after ".to_owned();
            s.append(budget_text);
            s.append("; image may be missing late-loading assets (stylesheets, images, fonts)");
            let ghost before = self.notes@;
            self.notes.push(s);
            assert(notes_view(self.notes@) =~= notes_view(before).push(s@));
            return ResolveStep::Settled;
        }
        self.waited = true;
        ResolveStep::Sleep
    }

    /// How many layout passes are still due once waiting is over. What arrived
    /// on the last look needs one more before it can affect layout.
    pub fn settle_passes(&self) -> (r: u32)
        ensures
            r == (if self@.waited {
                2int
            } else {
                1int
            }),
    {
        if self.waited {
            2
        } else {
            1
        }
    }

    /// Chooses the height of the image in CSS pixels. Heights beyond the
    /// ceiling are clamped with a note.
    pub fn css_height(&mut self, opts: &RenderOptions, document: u64, document_text: &str) -> (r:
        CssHeight)
        ensures
            (final(self)@, r) == height_chosen(old(self)@, *opts, document, document_text@),
    {
        let ghost before = self.notes@;
        if !opts.full_page {
            if opts.height <= MAX_RENDER_HEIGHT {
                return CssHeight::Viewport;
            }
            let mut s: String = "viewport height clamped from ".to_owned();
            append_number(&mut s, opts.height as u64);
            s.append(" to ");
            append_number(&mut s, MAX_RENDER_HEIGHT as u64);
            s.append(" px");
            self.notes.push(s);
            assert(notes_view(self.notes@) =~= notes_view(before).push(s@));
            return CssHeight::Limit;
        }
        let taller: bool = document > opts.height as u64;
        if taller && document <= MAX_RENDER_HEIGHT as u64 {
            return CssHeight::Document;
        }
        if !taller && opts.height <= MAX_RENDER_HEIGHT {
            return CssHeight::Viewport;
        }
        let mut s: String = "full-page height clamped from ".to_owned();
        if taller {
            s.append(document_text);
        } else {
            append_number(&mut s, opts.height as u64);
        }
        s.append(" to 16384 CSS px (MAX_RENDER_HEIGHT); image is truncated");
        self.notes.push(s);
        assert(notes_view(self.notes@) =~= notes_view(before).push(s@));
        CssHeight::Limit
    }
}

} // verus!
