//! Fonts held in memory: how their bytes travel inside a location's path.
//!
//! The path of such a location is the marker `base64:` followed by the
//! URL-safe, padded base64 text of the font's bytes.
use crate::pattern::{FcFont, FcFontPath, LocationModel};
use crate::text::{has_prefix, starts_with};
use base64::Engine;
use vstd::prelude::*;
use vstd::string::*;

verus! {

/// The text that the URL-safe base64 engine produces for `bytes`.
pub uninterp spec fn url_safe_encoding(bytes: Seq<u8>) -> Seq<char>;

/// The bytes that the URL-safe base64 engine reads from `text`, or `None`
/// where it rejects the text.
pub uninterp spec fn url_safe_decoding(text: Seq<char>) -> Option<Seq<u8>>;

/// The length of the marker `base64:`.
pub const MARKER_LEN: usize = 7;

/// Whether a font of `len` bytes is small enough for its path to be
/// built: the encoded text and the marker must fit in an allocation.
pub open spec fn fits_in_path(len: nat) -> bool {
    len / 3 * 4 + 4 + MARKER_LEN <= isize::MAX
}

/// The path that stands for a font held in memory.
pub open spec fn memory_path(bytes: Seq<u8>) -> Seq<char> {
    "base64:"@ + url_safe_encoding(bytes)
}

/// The location that stands for a font held in memory.
pub open spec fn memory_location(bytes: Seq<u8>, font_index: usize) -> LocationModel {
    LocationModel { path: memory_path(bytes), font_index }
}

/// The bytes that a path carries inline: what the text behind the marker
/// decodes to, or `None` for a path without the marker or with text that
/// does not decode.
pub open spec fn memory_font_bytes(path: Seq<char>) -> Option<Seq<u8>> {
    if has_prefix(path, "base64:"@) {
        url_safe_decoding(path.skip(MARKER_LEN as int))
    } else {
        None
    }
}

/// Calls `Engine::encode` of the base64 crate on its `URL_SAFE` engine.
/// Trusted: the result is the engine's text for these bytes, and the same
/// engine decodes that text back to these bytes.  Inputs whose encoded
/// length cannot be allocated are excluded, since the engine panics there.
#[verifier::external_body]
fn encode_url_safe(bytes: &[u8]) -> (text: String)
    requires
        bytes@.len() / 3 * 4 + 4 <= isize::MAX,
    ensures
        text@ == url_safe_encoding(bytes@),
        url_safe_decoding(text@) == Some(bytes@),
{
    base64::engine::general_purpose::URL_SAFE.encode(bytes)
}

/// Calls `Engine::decode` of the base64 crate on its `URL_SAFE` engine.
/// Trusted: the result is what the engine reads from the text, `None`
/// where it reports an error.
#[verifier::external_body]
fn decode_url_safe(text: &str) -> (bytes: Option<Vec<u8>>)
    ensures
        match bytes {
            Some(b) => url_safe_decoding(text@) == Some(b@),
            None => url_safe_decoding(text@) is None,
        },
{
    base64::engine::general_purpose::URL_SAFE.decode(text).ok()
}

impl FcFont {
    /// Whether the font is small enough for [`FcFont::location`].
    pub fn fits_in_path(&self) -> (r: bool)
        ensures
            r == fits_in_path(self.bytes@.len()),
    {
        self.bytes.len() / 3 <= (isize::MAX as usize - 4 - MARKER_LEN) / 4
    }

    /// The location that stands for this font: the marker followed by the
    /// encoded bytes, with the font's own index.  Decoding the path gives
    /// the bytes back.
    pub fn location(&self) -> (r: FcFontPath)
        requires
            fits_in_path(self.bytes@.len()),
        ensures
            r@ == memory_location(self.bytes@, self.font_index),
            memory_font_bytes(r@.path) == Some(self.bytes@),
    {
        let encoded = encode_url_safe(self.bytes.as_slice());
        let mut path = String::from_str("base64:");
        path.append(encoded.as_str());
        proof {
            reveal_strlit("base64:");
            assert(path@.take(7) =~= "base64:"@);
            assert(path@.skip(7) =~= encoded@);
        }
        FcFontPath { path, font_index: self.font_index }
    }
}

impl FcFontPath {
    /// Whether the path carries a font inline rather than naming a file.
    pub fn is_memory_font(&self) -> (r: bool)
        ensures
            r == has_prefix(self.path@, "base64:"@),
    {
        starts_with(self.path.as_str(), "base64:")
    }

    /// The text behind the marker, or `None` where the path names a file.
    pub fn memory_text(&self) -> (r: Option<&str>)
        ensures
            match r {
                Some(text) => has_prefix(self.path@, "base64:"@) && text@ == self.path@.skip(
                    MARKER_LEN as int,
                ),
                None => !has_prefix(self.path@, "base64:"@),
            },
    {
        if !self.is_memory_font() {
            return None;
        }
        proof {
            reveal_strlit("base64:");
        }
        let path = self.path.as_str();
        let len = path.unicode_len();
        let text = path.substring_char(MARKER_LEN, len);
        assert(text@ =~= self.path@.skip(MARKER_LEN as int));
        Some(text)
    }

    /// The bytes of a font carried inline, or `None` where the path names
    /// a file or the text behind the marker does not decode.
    pub fn memory_bytes(&self) -> (r: Option<Vec<u8>>)
        ensures
            match r {
                Some(b) => memory_font_bytes(self.path@) == Some(b@),
                None => memory_font_bytes(self.path@) is None,
            },
    {
        match self.memory_text() {
            Some(text) => decode_url_safe(text),
            None => None,
        }
    }
}

} // verus!
