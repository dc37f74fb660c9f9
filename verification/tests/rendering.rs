//! Rendering decisions, cropping and encoding.
use obscura::raster::{crop_rgba, encode_jpeg, encode_png, outcome};
use obscura::render::{
    render_size, Clip, CssHeight, ImageFormat, RenderError, RenderOptions, RenderRun, ResolveStep,
    MAX_RENDER_HEIGHT, MAX_RENDER_PIXELS, MAX_RENDER_WIDTH, POLL_MILLIS,
};

fn opts() -> RenderOptions {
    RenderOptions {
        width: 200,
        height: 100,
        ..Default::default()
    }
}

/// A painted 200x100 image: a red box of 100x50 on white.
fn painted() -> Vec<u8> {
    let mut v = Vec::new();
    for y in 0..100u32 {
        for x in 0..200u32 {
            if x < 100 && y < 50 {
                v.extend_from_slice(&[255, 0, 0, 255]);
            } else {
                v.extend_from_slice(&[255, 255, 255, 255]);
            }
        }
    }
    v
}

/// An image whose bytes tell their place.
fn numbered(width: u32, height: u32) -> Vec<u8> {
    (0..width * height * 4).map(|i| i as u8).collect()
}

fn run(o: &RenderOptions) -> RenderRun {
    RenderRun::start(o, "1").expect("viewport")
}

fn decode(bytes: &[u8]) -> (u32, u32, Vec<u8>) {
    let decoder = png::Decoder::new(bytes);
    let mut reader = decoder.read_info().expect("png header");
    let mut buf = vec![0; reader.output_buffer_size()];
    let info = reader.next_frame(&mut buf).expect("png frame");
    buf.truncate(info.buffer_size());
    (info.width, info.height, buf)
}

#[test]
fn renders_png_at_requested_size() {
    let out = run(&opts())
        .finish(painted(), 200, 100, &opts())
        .expect("render");
    assert_eq!((out.width, out.height), (200, 100));
    assert_eq!(out.format, ImageFormat::Png);
    // PNG magic — proves we returned an actual encoded image, not a buffer.
    assert_eq!(
        &out.bytes[..8],
        &[0x89, b'P', b'N', b'G', 0x0d, 0x0a, 0x1a, 0x0a]
    );
    assert!(out.fidelity_notes.is_empty());
}

#[test]
fn renders_jpeg_when_asked() {
    let o = RenderOptions {
        format: ImageFormat::Jpeg,
        ..opts()
    };
    let out = run(&o).finish(painted(), 200, 100, &o).expect("render");
    assert_eq!(out.format, ImageFormat::Jpeg);
    assert_eq!(&out.bytes[..2], &[0xff, 0xd8]); // SOI
}

#[test]
fn png_holds_the_painted_pixels() {
    let bytes = encode_png(&painted(), 200, 100).expect("encode");
    let (w, h, px) = decode(&bytes);
    assert_eq!((w, h), (200, 100));
    assert_eq!(px, painted());
    let reddish = px
        .chunks_exact(4)
        .filter(|c| c[0] > 200 && c[1] < 80 && c[2] < 80)
        .count();
    assert_eq!(reddish, 5000);
}

#[test]
fn rejects_degenerate_viewport() {
    let o = RenderOptions { width: 0, ..opts() };
    assert!(matches!(
        RenderRun::start(&o, "1"),
        Err(RenderError::BadViewport(_))
    ));
    let o = RenderOptions { height: 0, ..opts() };
    assert_eq!(
        RenderRun::start(&o, "1").unwrap_err(),
        RenderError::BadViewport("200x0".to_string())
    );
}

#[test]
fn rejects_senseless_scales() {
    for s in [0.0f32, -0.0, -2.0, f32::NAN, f32::INFINITY] {
        let o = RenderOptions {
            scale_bits: s.to_bits(),
            ..opts()
        };
        let text = format!("{s}");
        assert_eq!(
            RenderRun::start(&o, &text).unwrap_err(),
            RenderError::BadViewport(format!("scale={s}"))
        );
    }
    for s in [f32::MIN_POSITIVE, 0.5, 3.0, f32::MAX] {
        let o = RenderOptions {
            scale_bits: s.to_bits(),
            ..opts()
        };
        assert!(RenderRun::start(&o, "x").is_ok());
    }
}

#[test]
fn rejects_oversized_render_instead_of_ooming() {
    let o = RenderOptions {
        width: 8000,
        height: 15000,
        scale_bits: 4.0f32.to_bits(),
        ..Default::default()
    };
    let r = RenderRun::start(&o, "4").expect("viewport");
    assert_eq!(r.width, 8000);
    assert!(matches!(
        render_size(8000 * 4, 15000 * 4),
        Err(RenderError::TooLarge { .. })
    ));
}

#[test]
fn full_page_height_is_clamped_and_reported() {
    let o = RenderOptions {
        full_page: true,
        ..opts()
    };
    let mut r = run(&o);
    let tall = MAX_RENDER_HEIGHT as u64 + 5000;
    assert_eq!(r.css_height(&o, tall, "21384"), CssHeight::Limit);
    assert_eq!(render_size(200, MAX_RENDER_HEIGHT), Ok((200, 16384)));
    assert!(
        r.notes.iter().any(|n| n.contains("clamped")),
        "a truncated screenshot must say so: {:?}",
        r.notes
    );
    assert_eq!(
        r.notes,
        vec!["full-page height clamped from 21384 to 16384 CSS px (MAX_RENDER_HEIGHT); image is truncated"]
    );
}

#[test]
fn clip_crops_the_output() {
    let o = RenderOptions {
        clip: Some(Clip {
            x: 0,
            y: 0,
            width: 50,
            height: 25,
        }),
        ..opts()
    };
    let out = run(&o).finish(painted(), 200, 100, &o).expect("render");
    assert_eq!((out.width, out.height), (50, 25));
    let (w, h, px) = decode(&out.bytes);
    assert_eq!((w, h), (50, 25));
    assert!(px.chunks_exact(4).all(|c| c == [255, 0, 0, 255]));
    assert!(out.fidelity_notes.is_empty());
}

#[test]
fn out_of_bounds_clip_degrades_instead_of_failing() {
    let o = RenderOptions {
        clip: Some(Clip {
            x: 9999,
            y: 9999,
            width: 10,
            height: 10,
        }),
        ..opts()
    };
    let out = run(&o).finish(painted(), 200, 100, &o).expect("render");
    assert!(out.fidelity_notes.iter().any(|n| n.contains("outside")));
    assert_eq!((out.width, out.height), (200, 100));
    assert_eq!(
        out.fidelity_notes,
        vec!["clip origin (9999,9999) lies outside the 200x100 render; returning the uncropped image"]
    );
}

#[test]
fn cdp_format_parsing_rejects_unencodable_formats() {
    assert_eq!(ImageFormat::from_cdp(None), Some(ImageFormat::Png));
    assert_eq!(ImageFormat::from_cdp(Some("jpeg")), Some(ImageFormat::Jpeg));
    // webp is a real CDP format we cannot encode; silently returning PNG
    // would misreport the payload's type to the client.
    assert_eq!(ImageFormat::from_cdp(Some("webp")), None);
    assert_eq!(ImageFormat::from_cdp(Some("png")), Some(ImageFormat::Png));
    assert_eq!(ImageFormat::from_cdp(Some("jpg")), Some(ImageFormat::Jpeg));
    assert_eq!(ImageFormat::from_cdp(Some("PNG")), None);
}

#[test]
fn default_options_are_a_desktop_viewport() {
    let o = RenderOptions::default();
    assert_eq!((o.width, o.height), (1280, 720));
    assert_eq!(o.scale_bits, 1.0f32.to_bits());
    assert_eq!(o.format, ImageFormat::Png);
    assert_eq!(o.jpeg_quality, 80);
    assert!(!o.full_page && o.clip.is_none());
    assert_eq!(POLL_MILLIS, 5);
}

#[test]
fn wide_viewport_is_clamped_and_reported() {
    let o = RenderOptions {
        width: 10_000,
        ..opts()
    };
    let r = run(&o);
    assert_eq!(r.width, MAX_RENDER_WIDTH);
    assert_eq!(
        r.notes,
        vec!["viewport width clamped from 10000 to 8192 px"]
    );
    let o = RenderOptions {
        width: 8192,
        ..opts()
    };
    assert!(run(&o).notes.is_empty());
}

#[test]
fn waiting_is_bounded_by_time_not_by_passes() {
    let mut r = run(&opts());
    for _ in 0..10_000 {
        assert_eq!(r.after_resolve(false, false, "300ms"), ResolveStep::Sleep);
    }
    assert!(r.notes.is_empty());
    assert_eq!(r.after_resolve(false, true, "300ms"), ResolveStep::Settled);
    assert_eq!(
        r.notes,
        vec!["subresource fetches still in flight after 300ms; image may be missing late-loading assets (stylesheets, images, fonts)"]
    );
    assert_eq!(r.settle_passes(), 2);
}

#[test]
fn nothing_pending_settles_at_once_and_without_a_note() {
    let mut r = run(&opts());
    assert_eq!(r.after_resolve(true, true, "0ns"), ResolveStep::Settled);
    assert!(r.notes.is_empty());
    assert_eq!(r.settle_passes(), 1);
}

#[test]
fn full_page_is_as_high_as_the_document_but_no_lower_than_the_viewport() {
    let o = RenderOptions {
        full_page: true,
        ..opts()
    };
    let mut r = run(&o);
    assert_eq!(r.css_height(&o, 101, "101"), CssHeight::Document);
    assert_eq!(r.css_height(&o, 100, "100"), CssHeight::Viewport);
    assert_eq!(r.css_height(&o, 0, "0"), CssHeight::Viewport);
    assert_eq!(r.css_height(&o, 16384, "16384"), CssHeight::Document);
    assert!(r.notes.is_empty());
    let high = RenderOptions {
        height: 20_000,
        ..o
    };
    assert_eq!(r.css_height(&high, 5, "5"), CssHeight::Limit);
    assert_eq!(
        r.notes,
        vec!["full-page height clamped from 20000 to 16384 CSS px (MAX_RENDER_HEIGHT); image is truncated"]
    );
    // Without full-page capture the document does not matter.
    assert_eq!(r.css_height(&opts(), 99_999, "99999"), CssHeight::Viewport);
}

#[test]
fn height_ceiling_holds_without_full_page_capture() {
    let o = RenderOptions {
        width: 100,
        height: 20_000,
        ..Default::default()
    };
    let mut r = run(&o);
    assert_eq!(r.css_height(&o, 18, "18"), CssHeight::Limit);
    assert_eq!(
        r.notes,
        vec!["viewport height clamped from 20000 to 16384 px"]
    );
    let (w, h) = render_size(100, MAX_RENDER_HEIGHT).unwrap();
    let out = r
        .finish(vec![255; 100 * 16384 * 4], w, h, &o)
        .expect("render");
    assert_eq!(out.height, 16384);
    assert_eq!(out.fidelity_notes.len(), 1);
    let o = RenderOptions {
        height: 16_384,
        ..o
    };
    let mut r = run(&o);
    assert_eq!(r.css_height(&o, 18, "18"), CssHeight::Viewport);
    assert!(r.notes.is_empty());
}

#[test]
fn image_size_is_bounded_by_the_product() {
    assert_eq!(render_size(8000, 8000), Ok((8000, 8000)));
    assert_eq!(MAX_RENDER_PIXELS, 64_000_000);
    assert_eq!(
        render_size(8000, 8001),
        Err(RenderError::TooLarge {
            width: 8000,
            height: 8001,
            max: 64_000_000
        })
    );
    assert_eq!(
        render_size(u32::MAX, u32::MAX),
        Err(RenderError::TooLarge {
            width: u32::MAX,
            height: u32::MAX,
            max: 64_000_000
        })
    );
    assert_eq!(render_size(10, 0), Ok((10, 1)));
}

#[test]
fn crop_takes_the_pixels_of_its_region() {
    let mut notes = Vec::new();
    let image = numbered(5, 4);
    let clip = Clip {
        x: 1,
        y: 2,
        width: 3,
        height: 2,
    };
    let (px, w, h) = crop_rgba(&image, 5, 4, clip, &mut notes);
    assert_eq!((w, h), (3, 2));
    for y in 0..2usize {
        for x in 0..3usize {
            for c in 0..4usize {
                assert_eq!(px[(y * 3 + x) * 4 + c], image[((y + 2) * 5 + x + 1) * 4 + c]);
            }
        }
    }
    assert!(notes.is_empty());
}

#[test]
fn crop_reads_no_further_than_its_last_row() {
    let mut notes = Vec::new();
    let image = numbered(5, 4);
    let clip = Clip {
        x: 1,
        y: 0,
        width: 2,
        height: 2,
    };
    let whole = crop_rgba(&image, 5, 4, clip, &mut notes);
    let part = crop_rgba(&image[..(5 + 3) * 4], 5, 4, clip, &mut notes);
    assert_eq!(whole, part);
    assert_eq!(whole.0[..8], image[4..12]);
}

#[test]
fn clip_that_starts_before_the_image_is_cut_to_the_overlap() {
    let mut notes = Vec::new();
    let image: Vec<u8> = (0..16).collect();
    let clip = Clip {
        x: -1,
        y: 0,
        width: 2,
        height: 1,
    };
    assert_eq!(
        crop_rgba(&image, 4, 1, clip, &mut notes),
        (vec![0, 1, 2, 3], 1, 1)
    );
    assert_eq!(
        notes,
        vec!["clip 2x1 at (-1,0) exceeded the 4x1 render and was clamped"]
    );
    notes.clear();
    let wide = Clip {
        x: -1,
        y: -3,
        width: 100,
        height: 5,
    };
    let (px, w, h) = crop_rgba(&numbered(5, 4), 5, 4, wide, &mut notes);
    assert_eq!((w, h), (5, 2));
    assert_eq!(px, numbered(5, 2));
    assert_eq!(notes.len(), 1);
}

#[test]
fn clip_that_ends_before_the_image_leaves_it_whole() {
    for (x, y) in [(-2, 0), (0, -2), (i64::MIN, 0), (0, i64::MAX), (4, 0)] {
        let mut notes = Vec::new();
        let clip = Clip {
            x,
            y,
            width: 2,
            height: 2,
        };
        let (px, w, h) = crop_rgba(&numbered(4, 4), 4, 4, clip, &mut notes);
        assert_eq!((w, h), (4, 4));
        assert_eq!(px, numbered(4, 4));
        assert_eq!(
            notes,
            vec![format!(
                "clip origin ({x},{y}) lies outside the 4x4 render; returning the uncropped image"
            )]
        );
    }
}

#[test]
fn crop_beyond_the_edge_is_clamped_and_reported() {
    let mut notes = vec!["before".to_string()];
    let clip = Clip {
        x: 3,
        y: 1,
        width: u32::MAX,
        height: 0,
    };
    let (px, w, h) = crop_rgba(&numbered(5, 4), 5, 4, clip, &mut notes);
    assert_eq!((w, h), (2, 1));
    assert_eq!(px, numbered(5, 4)[32..40].to_vec());
    assert_eq!(
        notes,
        vec![
            "before",
            "clip 4294967295x1 at (3,1) exceeded the 5x4 render and was clamped"
        ]
    );
}

#[test]
fn encoders_refuse_empty_images_and_short_buffers() {
    assert!(matches!(
        encode_png(&[], 0, 1),
        Err(RenderError::Encode(_))
    ));
    assert!(matches!(
        encode_png(&[], 1, 0),
        Err(RenderError::Encode(_))
    ));
    assert!(matches!(
        encode_png(&[0; 5], 1, 1),
        Err(RenderError::Encode(_))
    ));
    assert!(matches!(
        encode_jpeg(&[0; 3], 1, 1, 80),
        Err(RenderError::Encode(_))
    ));
    assert!(matches!(
        encode_jpeg(&[], 0, 1, 80),
        Err(RenderError::Encode(_))
    ));
    assert!(encode_jpeg(&[0; 5], 1, 1, 80).is_ok());
}

#[test]
fn jpeg_quality_is_clamped() {
    let image = numbered(16, 16);
    let at = |q: u8| encode_jpeg(&image, 16, 16, q).expect("encode");
    assert_eq!(at(0), at(1));
    assert_eq!(at(255), at(100));
    assert_ne!(at(1), at(100));
    assert_ne!(at(80), image);
}

#[test]
fn jpeg_is_encoded_at_the_low_bits_of_its_size() {
    let image = vec![7u8; 73_728 * 4];
    assert_eq!(
        encode_jpeg(&image, 73_728, 1, 80),
        encode_jpeg(&image, 8_192, 1, 80)
    );
    assert!(encode_jpeg(&image, 65_535, 1, 80).is_ok());
    assert!(encode_jpeg(&image, 65_536, 1, 80).is_err());
}

#[test]
fn jpeg_without_room_for_the_image_says_so() {
    let o = RenderOptions {
        format: ImageFormat::Jpeg,
        ..opts()
    };
    let shot = |w: u32, o: &RenderOptions| {
        run(o)
            .finish(vec![7u8; w as usize * 4], w, 1, o)
            .expect("render")
    };
    let out = shot(73_728, &o);
    assert_eq!((out.width, out.height), (73_728, 1));
    assert_eq!(
        out.fidelity_notes,
        vec!["a JPEG has no room for 73728x1; image is encoded as 8192x1"]
    );
    assert!(shot(65_535, &o).fidelity_notes.is_empty());
    assert!(shot(73_728, &opts()).fidelity_notes.is_empty());
}

#[test]
fn outcome_carries_notes_or_the_error() {
    let ok = outcome(
        Ok(vec![1, 2, 3]),
        4,
        5,
        ImageFormat::Jpeg,
        vec!["n".to_string()],
    )
    .unwrap();
    assert_eq!(ok.bytes, vec![1, 2, 3]);
    assert_eq!((ok.width, ok.height), (4, 5));
    assert_eq!(ok.fidelity_notes, vec!["n"]);
    assert_eq!(
        outcome(
            Err(RenderError::Encode("e".to_string())),
            4,
            5,
            ImageFormat::Png,
            Vec::new()
        ),
        Err(RenderError::Encode("e".to_string()))
    );
}

#[test]
fn notes_of_every_stage_are_reported() {
    let o = RenderOptions {
        width: 10_000,
        full_page: true,
        clip: Some(Clip {
            x: 0,
            y: 0,
            width: 3,
            height: 1,
        }),
        ..opts()
    };
    let mut r = run(&o);
    r.after_resolve(false, true, "1s");
    r.css_height(&o, 99_999, "99999");
    let out = r.finish(numbered(2, 2), 2, 2, &o).expect("render");
    assert_eq!(out.fidelity_notes.len(), 4);
    assert!(out.fidelity_notes[0].contains("viewport width"));
    assert!(out.fidelity_notes[1].contains("in flight after 1s"));
    assert!(out.fidelity_notes[2].contains("truncated"));
    assert_eq!(
        out.fidelity_notes[3],
        "clip 3x1 at (0,0) exceeded the 2x2 render and was clamped"
    );
    assert_eq!((out.width, out.height), (2, 1));
}

#[test]
fn errors_read_as_sentences() {
    assert_eq!(
        RenderError::BadViewport("0x1".to_string()).message(),
        "viewport is degenerate: 0x1"
    );
    assert_eq!(
        RenderError::TooLarge {
            width: 8000,
            height: 8001,
            max: MAX_RENDER_PIXELS
        }
        .message(),
        "requested render area 8000x8001 exceeds the 64000000 pixel cap; reduce the viewport or disable full-page capture"
    );
    assert_eq!(
        RenderError::Encode("x".to_string()).message(),
        "image encoding failed: x"
    );
    assert_eq!(
        RenderError::PaintPanic("boom".to_string()).message(),
        "the paint pass panicked: boom"
    );
}
