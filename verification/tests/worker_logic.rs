//! Tests for the scheduler's per-request logic.

use std::sync::Arc;

use glyphgen::ascii_art::CharacterSet;
use glyphgen::capabilities::ColorSupport;
use glyphgen::raster::Raster;
use glyphgen::scheduler::{
    execute_request, make_response, pool_size, RenderRequest, RequestKind, WorkerResponse,
};
use glyphgen::stylizer::{GradientMode, UnicodeStyle};
use glyphgen::unicode_art::UnicodeMode;

#[test]
fn test_execute_text_request() {
    let req = RenderRequest::Text {
        text: String::from("Hello"),
        style: UnicodeStyle::Bold,
        gradient: GradientMode::NoGradient,
        start_color: (255, 0, 0),
        end_color: (0, 0, 255),
    };
    let (kind, outcome) = execute_request(&req).unwrap();
    assert_eq!(kind, RequestKind::Text);
    let output = outcome.unwrap();
    assert!(!output.is_empty());
    assert!(output.contains('𝐇'));
}

#[test]
fn test_execute_ascii_request_one_pixel() {
    // A 1x1 image at target width one renders to exactly one character
    // followed by a newline.
    let image = Arc::new(Raster::new(1, 1, vec![200, 200, 200]).unwrap());
    let req = RenderRequest::Ascii {
        image,
        width: 1,
        charset: CharacterSet::Standard,
        invert: false,
        edge_enhance: false,
    };
    let (kind, outcome) = execute_request(&req).unwrap();
    assert_eq!(kind, RequestKind::Ascii);
    let output = outcome.unwrap();
    assert_eq!(output.chars().count(), 2);
    assert!(output.ends_with('\n'));
}

#[test]
fn test_execute_unicode_request() {
    let image = Arc::new(Raster::new(2, 2, vec![255; 12]).unwrap());
    let req = RenderRequest::Unicode {
        image,
        width: 2,
        mode: UnicodeMode::Blocks,
        color_mode: ColorSupport::NoColor,
    };
    let (kind, outcome) = execute_request(&req).unwrap();
    assert_eq!(kind, RequestKind::Unicode);
    assert!(outcome.unwrap().contains('█'));
}

#[test]
fn test_execute_shutdown() {
    assert!(execute_request(&RenderRequest::Shutdown).is_none());
}

#[test]
fn test_make_response_complete() {
    let r = make_response(RequestKind::Ascii, Ok(String::from("art")), 7);
    assert_eq!(r, WorkerResponse::AsciiComplete { output: String::from("art"), render_time: 7 });
    let r = make_response(RequestKind::Unicode, Ok(String::from("art")), 8);
    assert_eq!(r, WorkerResponse::UnicodeComplete { output: String::from("art"), render_time: 8 });
    let r = make_response(RequestKind::Text, Ok(String::from("art")), 9);
    assert_eq!(r, WorkerResponse::TextComplete { output: String::from("art"), render_time: 9 });
}

#[test]
fn test_make_response_error() {
    let image = Arc::new(Raster::new(1, 1, vec![0, 0, 0]).unwrap());
    let req = RenderRequest::Ascii {
        image,
        width: usize::MAX,
        charset: CharacterSet::Standard,
        invert: false,
        edge_enhance: false,
    };
    let (kind, outcome) = execute_request(&req).unwrap();
    let r = make_response(kind, outcome, 1);
    match r {
        WorkerResponse::Error(m) => assert_eq!(m, "output dimensions too large"),
        other => panic!("expected an error response, got {:?}", other),
    }
}

#[test]
fn test_pool_size_clamped() {
    assert_eq!(pool_size(0), 1);
    assert_eq!(pool_size(1), 1);
    assert_eq!(pool_size(3), 3);
    assert_eq!(pool_size(4), 4);
    assert_eq!(pool_size(64), 4);
}
