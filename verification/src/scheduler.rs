//! The render scheduler's request and response types and its per-request
//! logic.
//!
//! The worker pool itself (threads and channels) lives in the surrounding
//! application; this module decides everything about one request: which
//! engine runs, what output or error it produces, and how the response is
//! built.  A request once submitted always runs to completion and its
//! response is always delivered.

use std::sync::Arc;
use vstd::prelude::*;

use crate::ascii_art::{
    charset_wf, render_ascii, spec_ascii_fits, spec_charset_chars, spec_render_ascii, AsciiConfig,
    CharacterSet, RenderError,
};
use crate::capabilities::ColorSupport;
use crate::raster::Raster;
use crate::stylizer::{spec_stylize, stylize_text, GradientMode, UnicodeStyle};
use crate::color::Rgb;
use crate::unicode_art::{
    render_unicode, spec_render_unicode, spec_unicode_fits, UnicodeConfig, UnicodeMode,
};

verus! {

/// Messages sent from the caller to the worker pool.
pub enum RenderRequest {
    /// Request ASCII rendering
    Ascii {
        image: Arc<Raster>,
        width: usize,
        charset: CharacterSet,
        invert: bool,
        edge_enhance: bool,
    },
    /// Request Unicode rendering
    Unicode { image: Arc<Raster>, width: usize, mode: UnicodeMode, color_mode: ColorSupport },
    /// Request text stylization
    Text {
        text: String,
        style: UnicodeStyle,
        gradient: GradientMode,
        start_color: (u8, u8, u8),
        end_color: (u8, u8, u8),
    },
    /// Shutdown signal
    Shutdown,
}

/// Responses sent from workers back to the caller.
#[derive(Debug, Clone, PartialEq, Eq)]
pub enum WorkerResponse {
    /// ASCII rendering complete
    AsciiComplete { output: String, render_time: u64 },
    /// Unicode rendering complete
    UnicodeComplete { output: String, render_time: u64 },
    /// Text stylization complete
    TextComplete { output: String, render_time: u64 },
    /// Error occurred
    Error(String),
}

/// The kind of work a request asked for, carried from dispatch to the
/// response.
#[derive(Debug, Clone, Copy, PartialEq, Eq, Structural)]
pub enum RequestKind {
    Ascii,
    Unicode,
    Text,
}

/// A request is executable when its image is well formed and its character
/// ramp is non-empty.
pub open spec fn request_wf(req: &RenderRequest) -> bool {
    match req {
        RenderRequest::Ascii { image, charset, .. } => (**image).wf() && charset_wf(charset),
        RenderRequest::Unicode { image, .. } => (**image).wf(),
        RenderRequest::Text { .. } => true,
        RenderRequest::Shutdown => true,
    }
}

/// Execute one request synchronously: dispatch to the matching engine and
/// return its kind and outcome, or nothing for the shutdown sentinel.
pub fn execute_request(req: &RenderRequest) -> (r: Option<
    (RequestKind, Result<String, RenderError>),
>)
    requires
        request_wf(req),
    ensures
        (r is None) <==> (req is Shutdown),
        *req matches RenderRequest::Ascii { image, width, charset, invert, edge_enhance } ==> {
            &&& r matches Some(p)
            &&& p.0 == RequestKind::Ascii
            &&& (p.1 is Ok <==> spec_ascii_fits(&*image, width as int))
            &&& (p.1 matches Ok(s) ==> s@ == spec_render_ascii(
                &*image,
                &(AsciiConfig { target_width: width, charset, invert, edge_enhance }),
            ))
        },
        *req matches RenderRequest::Unicode { image, width, mode, color_mode } ==> {
            &&& r matches Some(p)
            &&& p.0 == RequestKind::Unicode
            &&& (p.1 is Ok <==> spec_unicode_fits(
                &*image,
                &(UnicodeConfig { target_width: width, mode, color_mode }),
            ))
            &&& (p.1 matches Ok(s) ==> s@ == spec_render_unicode(
                &*image,
                &(UnicodeConfig { target_width: width, mode, color_mode }),
            ))
        },
        *req matches RenderRequest::Text { text, style, gradient, start_color, end_color } ==> {
            &&& r matches Some(p)
            &&& p.0 == RequestKind::Text
            &&& p.1 matches Ok(s)
            &&& s@ == spec_stylize(
                text@,
                style,
                gradient,
                (Rgb { r: start_color.0, g: start_color.1, b: start_color.2 }),
                (Rgb { r: end_color.0, g: end_color.1, b: end_color.2 }),
            )
        },
{
    match req {
        RenderRequest::Shutdown => None,
        RenderRequest::Ascii { image, width, charset, invert, edge_enhance } => {
            let config = AsciiConfig {
                target_width: *width,
                charset: clone_charset(charset),
                invert: *invert,
                edge_enhance: *edge_enhance,
            };
            let outcome = render_ascii(&*image, &config);
            proof {
                let orig = AsciiConfig {
                    target_width: *width,
                    charset: *charset,
                    invert: *invert,
                    edge_enhance: *edge_enhance,
                };
                assert(spec_render_ascii(&*image, &config) == spec_render_ascii(&*image, &orig));
            }
            Some((RequestKind::Ascii, outcome))
        },
        RenderRequest::Unicode { image, width, mode, color_mode } => {
            let config = UnicodeConfig {
                target_width: *width,
                mode: *mode,
                color_mode: *color_mode,
            };
            Some((RequestKind::Unicode, render_unicode(&*image, &config)))
        },
        RenderRequest::Text { text, style, gradient, start_color, end_color } => {
            Some(
                (
                    RequestKind::Text,
                    stylize_text(text.as_str(), *style, *gradient, *start_color, *end_color),
                ),
            )
        },
    }
}

/// A fresh copy of a character set with the same glyph ramp.
fn clone_charset(cs: &CharacterSet) -> (r: CharacterSet)
    ensures
        spec_charset_chars(&r) == spec_charset_chars(cs),
{
    match cs {
        CharacterSet::Standard => CharacterSet::Standard,
        CharacterSet::Extended => CharacterSet::Extended,
        CharacterSet::Blocks => CharacterSet::Blocks,
        CharacterSet::Custom(chars) => CharacterSet::Custom(chars.clone()),
    }
}

/// Build the response for a finished request: a completion of the request's
/// kind carrying the output and the measured elapsed time, or an error
/// response carrying the failure's message.
pub fn make_response(
    kind: RequestKind,
    outcome: Result<String, RenderError>,
    elapsed_ms: u64,
) -> (r: WorkerResponse)
    ensures
        kind == RequestKind::Ascii ==> (outcome matches Ok(s) ==> r
            == (WorkerResponse::AsciiComplete { output: s, render_time: elapsed_ms })),
        kind == RequestKind::Unicode ==> (outcome matches Ok(s) ==> r
            == (WorkerResponse::UnicodeComplete { output: s, render_time: elapsed_ms })),
        kind == RequestKind::Text ==> (outcome matches Ok(s) ==> r
            == (WorkerResponse::TextComplete { output: s, render_time: elapsed_ms })),
        outcome matches Err(e) ==> r matches WorkerResponse::Error(m) && m@
            == "output dimensions too large"@,
{
    match outcome {
        Ok(output) => match kind {
            RequestKind::Ascii => WorkerResponse::AsciiComplete {
                output,
                render_time: elapsed_ms,
            },
            RequestKind::Unicode => WorkerResponse::UnicodeComplete {
                output,
                render_time: elapsed_ms,
            },
            RequestKind::Text => WorkerResponse::TextComplete {
                output,
                render_time: elapsed_ms,
            },
        },
        Err(e) => WorkerResponse::Error(String::from_str(e.message())),
    }
}

/// The worker pool size for a machine's available parallelism: clamped to
/// between one and four workers.
pub open spec fn spec_pool_size(available: int) -> int {
    if available < 1 {
        1int
    } else if available > 4 {
        4int
    } else {
        available
    }
}

/// Number of worker threads to start: the available parallelism clamped to
/// at least one and at most four.
pub fn pool_size(available_parallelism: usize) -> (n: usize)
    ensures
        n as int == spec_pool_size(available_parallelism as int),
        1 <= n <= 4,
{
    if available_parallelism < 1 {
        1
    } else if available_parallelism > 4 {
        4
    } else {
        available_parallelism
    }
}

} // verus!
