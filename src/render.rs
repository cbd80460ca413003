//! Rendered pages as the editor receives them.

use base64::Engine;
use vstd::prelude::*;

verus! {

/// A rendered page: a PNG image in base64 with its size in pixels. A page
/// whose image could not be encoded has an empty image and size 0 × 0.
#[derive(Clone, Debug)]
pub struct RenderResponse {
    pub image: String,
    pub width: u32,
    pub height: u32,
}

/// The padded standard base64 text of `bytes`.
pub uninterp spec fn base64_of(bytes: Seq<u8>) -> Seq<char>;

/// Length of the padded base64 text of `n` bytes.
pub open spec fn base64_len(n: nat) -> nat {
    4 * ((n + 2) / 3)
}

/// Relies on base64's `Engine::encode` with the STANDARD engine: padded
/// standard alphabet, four characters for each started group of three
/// bytes; it panics only when that length overflows `usize`.
#[verifier::external_body]
fn base64_encode(bytes: &[u8]) -> (r: String)
    requires
        base64_len(bytes@.len()) <= usize::MAX,
    ensures
        r@ == base64_of(bytes@),
        r@.len() == base64_len(bytes@.len()),
{
    base64::engine::general_purpose::STANDARD.encode(bytes)
}

/// The response for a page rendered at `width` × `height` pixels whose PNG
/// encoding gave `png` (`None` when encoding failed).
pub fn render_response(png: Option<Vec<u8>>, width: u32, height: u32) -> (r: RenderResponse)
    requires
        png matches Some(b) ==> base64_len(b@.len()) <= usize::MAX,
    ensures
        png is None ==> r.image@.len() == 0 && r.width == 0 && r.height == 0,
        png matches Some(b) ==> r.image@ == base64_of(b@) && r.width == width && r.height
            == height,
{
    match png {
        Some(bytes) => RenderResponse {
            image: base64_encode(bytes.as_slice()),
            width,
            height,
        },
        None => RenderResponse { image: String::new(), width: 0, height: 0 },
    }
}

} // verus!
