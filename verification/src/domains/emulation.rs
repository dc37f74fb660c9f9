//! The `Emulation` domain, as far as it makes the render viewport controllable.
//!
//! Methods other than the device-metrics pair are acknowledged and change
//! nothing: clients fire several of them while connecting and take an error as
//! fatal.
use crate::cdp::{default_viewport, CdpContext, CdpView, Viewport};
use crate::domains::{reply_view, ReplyView};
use crate::json::{empty_object, Json, JsonView};
use crate::scale::{positive_finite, INFINITE, SCALE_ONE};
use crate::text::{decimal, decimal_text, text_eq};
use vstd::prelude::*;

verus! {

/// Bounds of an emulated viewport. The renderer allocates width * height * 4
/// bytes, so absurd values are refused before they reach it.
pub const MIN_DIM: u32 = 1;

pub const MAX_DIM: u32 = 16_384;

/// The bits of the `f32` 8.0, the largest device pixel ratio.
pub const MAX_SCALE: u32 = 0x4100_0000;

/// A device pixel ratio that a request asks for: the bits of the nearest `f32`
/// and the number as messages show it.
#[derive(Debug)]
pub struct ScaleFactor {
    pub bits: u32,
    pub text: String,
}

#[verifier::ext_equal]
pub struct ScaleView {
    pub bits: u32,
    pub text: Seq<char>,
}

impl View for ScaleFactor {
    type V = ScaleView;

    open spec fn view(&self) -> ScaleView {
        ScaleView { bits: self.bits, text: self.text@ }
    }
}

pub open spec fn scale_view(s: Option<ScaleFactor>) -> Option<ScaleView> {
    match s {
        Some(s) => Some(s@),
        None => None,
    }
}

/// The dimension that a request asks for; zero asks for the current one.
pub open spec fn wanted_dim(asked: u64, current: u32) -> u64 {
    if asked == 0 {
        current as u64
    } else {
        asked
    }
}

/// The ratio that a request asks for; 1 where it asks for none or for one that
/// is not positive and finite.
pub open spec fn wanted_scale(scale: Option<ScaleView>) -> u32 {
    match scale {
        Some(s) => if positive_finite(s.bits) {
            s.bits
        } else {
            SCALE_ONE
        },
        None => SCALE_ONE,
    }
}

pub open spec fn dim_ok(d: u64) -> bool {
    MIN_DIM <= d <= MAX_DIM
}

/// A viewport that an override can set.
pub open spec fn viewport_ok(v: Viewport) -> bool {
    dim_ok(v.width as u64) && dim_ok(v.height as u64) && 0 < v.scale_bits <= MAX_SCALE
}

/// The viewport that an override sets, or the error it is answered with.
pub open spec fn overridden(
    current: Viewport,
    params: JsonView,
    scale: Option<ScaleView>,
) -> Result<Viewport, Seq<char>> {
    match (params.get("width"@), params.get("height"@)) {
        (None, _) => Err("setDeviceMetricsOverride: width required"@),
        (Some(w), h) => match w.as_u64() {
            None => Err("setDeviceMetricsOverride: width required"@),
            Some(w) => match h {
                None => Err("setDeviceMetricsOverride: height required"@),
                Some(h) => match h.as_u64() {
                    None => Err("setDeviceMetricsOverride: height required"@),
                    Some(h) => {
                        let width = wanted_dim(w, current.width);
                        let height = wanted_dim(h, current.height);
                        let scale_bits = wanted_scale(scale);
                        if !dim_ok(width) || !dim_ok(height) {
                            Err(
                                "setDeviceMetricsOverride: "@ + decimal_text(width as nat) + "x"@
                                    + decimal_text(height as nat)
                                    + " outside the supported 1..=16384 range"@,
                            )
                        } else if scale_bits > MAX_SCALE {
                            Err(
                                "setDeviceMetricsOverride: deviceScaleFactor "@ + scale->0.text
                                    + " exceeds 8"@,
                            )
                        } else {
                            Ok(Viewport { width: width as u32, height: height as u32, scale_bits })
                        }
                    },
                },
            },
        },
    }
}

/// The state after a request and its answer.
pub open spec fn answer(
    ctx: CdpView,
    method: Seq<char>,
    params: JsonView,
    scale: Option<ScaleView>,
) -> (CdpView, ReplyView) {
    if method == "setDeviceMetricsOverride"@ {
        match overridden(ctx.viewport, params, scale) {
            Ok(viewport) => (CdpView { viewport, ..ctx }, Ok(empty_object())),
            Err(e) => (ctx, Err(e)),
        }
    } else if method == "clearDeviceMetricsOverride"@ {
        (CdpView { viewport: default_viewport(), ..ctx }, Ok(empty_object()))
    } else {
        (ctx, Ok(empty_object()))
    }
}

fn pick_dim(asked: u64, current: u32) -> (r: u64)
    ensures
        r == wanted_dim(asked, current),
{
    if asked == 0 {
        current as u64
    } else {
        asked
    }
}

fn set_override(params: &Json, scale: &Option<ScaleFactor>, current: Viewport) -> (r: Result<
    Viewport,
    String,
>)
    ensures
        match r {
            Ok(v) => overridden(current, params@, scale_view(*scale)) == Ok::<Viewport, Seq<char>>(
                v,
            ),
            Err(e) => overridden(current, params@, scale_view(*scale)) == Err::<
                Viewport,
                Seq<char>,
            >(e@),
        },
{
    let asked_width: Option<u64> = match params.get("width") {
        Some(v) => v.as_u64(),
        None => None,
    };
    let asked_width: u64 = match asked_width {
        Some(w) => w,
        None => {
            return Err("setDeviceMetricsOverride: width required".to_owned());
        },
    };
    let asked_height: Option<u64> = match params.get("height") {
        Some(v) => v.as_u64(),
        None => None,
    };
    let asked_height: u64 = match asked_height {
        Some(h) => h,
        None => {
            return Err("setDeviceMetricsOverride: height required".to_owned());
        },
    };
    let width: u64 = pick_dim(asked_width, current.width);
    let height: u64 = pick_dim(asked_height, current.height);
    let least: u64 = MIN_DIM as u64;
    let most: u64 = MAX_DIM as u64;
    if width < least || width > most || height < least || height > most {
        let mut e: String = "setDeviceMetricsOverride: ".to_owned();
        let w: String = decimal(width);
        let h: String = decimal(height);
        e.append(w.as_str());
        e.append("x");
        e.append(h.as_str());
        e.append(" outside the supported 1..=16384 range");
        return Err(e);
    }
    let mut scale_bits: u32 = SCALE_ONE;
    match scale {
        Some(s) => {
            if 0 < s.bits && s.bits < INFINITE {
                scale_bits = s.bits;
                if s.bits > MAX_SCALE {
                    let mut e: String = "setDeviceMetricsOverride: deviceScaleFactor ".to_owned();
                    e.append(s.text.as_str());
                    e.append(" exceeds 8");
                    return Err(e);
                }
            }
        },
        None => {},
    }
    Ok(Viewport { width: width as u32, height: height as u32, scale_bits })
}

/// Answers a request of the domain. `scale` is the request's
/// `deviceScaleFactor`, if it gives a number.
pub fn handle(method: &str, params: &Json, scale: &Option<ScaleFactor>, ctx: &mut CdpContext) -> (r:
    Result<Json, String>)
    ensures
        (final(ctx)@, reply_view(r)) == answer(
            old(ctx)@,
            method@,
            params@,
            scale_view(*scale),
        ),
        old(ctx)@.wf() ==> final(ctx)@.wf(),
{
    if text_eq(method, "setDeviceMetricsOverride") {
        return match set_override(params, scale, ctx.viewport) {
            Ok(viewport) => {
                ctx.viewport = viewport;
                Ok(Json::empty())
            },
            Err(e) => Err(e),
        };
    }
    if text_eq(method, "clearDeviceMetricsOverride") {
        ctx.viewport = Viewport::default();
    }
    Ok(Json::empty())
}

} // verus!
