//! Screenshots and GIF exports: decoding the overlay's PNG data URLs, what a
//! capture is made of, where the files go, and the frame bookkeeping of an
//! export.
use vstd::prelude::*;
use crate::profile::{join_path, path_join};
use crate::text::{chars_of, owned, push_str, starts_with, string_of};
use base64::Engine;

verus! {

/// The prefix of a PNG data URL.
pub open spec fn png_prefix() -> Seq<char> {
    "data:image/png;base64,"@
}

/// The eight bytes that open every PNG file.
pub open spec fn png_signature() -> Seq<u8> {
    seq![0x89u8, 0x50u8, 0x4Eu8, 0x47u8, 0x0Du8, 0x0Au8, 0x1Au8, 0x0Au8]
}

/// What standard base64 decoding (RFC 4648 alphabet, padding required)
/// makes of `text`: the bytes, or the decoder's error message.
pub uninterp spec fn base64_decoded(text: Seq<char>) -> Result<Seq<u8>, Seq<char>>;

/// Calls `base64::engine::general_purpose::STANDARD.decode` and renders a
/// `DecodeError` with `to_string`. Claims that the outcome depends on `text`
/// alone.
#[verifier::external_body]
fn base64_decode(text: &str) -> (r: Result<Vec<u8>, String>)
    ensures
        match r {
            Ok(b) => base64_decoded(text@) == Ok::<Seq<u8>, Seq<char>>(b@),
            Err(e) => base64_decoded(text@) == Err::<Seq<u8>, Seq<char>>(e@),
        },
{
    base64::engine::general_purpose::STANDARD.decode(text.as_bytes()).map_err(|e| e.to_string())
}

/// The bytes of a PNG data URL, or the error: `Invalid PNG` without the
/// prefix, else the decoder's message.
pub open spec fn png_data_spec(url: Seq<char>) -> Result<Seq<u8>, Seq<char>> {
    if !crate::model::starts_with_spec(url, png_prefix()) {
        Err("Invalid PNG"@)
    } else {
        base64_decoded(url.skip(png_prefix().len() as int))
    }
}

fn skip_chars(cs: &[char], from: usize) -> (r: String)
    requires
        from <= cs@.len(),
    ensures
        r@ == cs@.skip(from as int),
{
    let mut rest: Vec<char> = Vec::new();
    let mut i = from;
    while i < cs.len()
        invariant
            from <= i <= cs@.len(),
            rest@ == cs@.subrange(from as int, i as int),
        decreases cs.len() - i,
    {
        rest.push(cs[i]);
        i += 1;
        assert(rest@ =~= cs@.subrange(from as int, i as int));
    }
    string_of(&rest)
}

/// Decodes a PNG data URL from the overlay.
pub fn png_data(url: &str) -> (r: Result<Vec<u8>, String>)
    ensures
        match (r, png_data_spec(url@)) {
            (Ok(b), Ok(s)) => b@ == s,
            (Err(e), Err(m)) => e@ == m,
            _ => false,
        },
{
    let cs = chars_of(url);
    let prefix = chars_of("data:image/png;base64,");
    if !starts_with(&cs, &prefix) {
        return Err(owned("Invalid PNG"));
    }
    let rest = skip_chars(&cs, prefix.len());
    base64_decode(rest.as_str())
}

/// A PNG image as a data URL for the overlay: the PNG prefix, then the
/// image in standard base64.
pub fn png_data_url(png: &[u8]) -> (r: String)
    requires
        png@.len() <= usize::MAX / 2,
    ensures
        r@ == "data:image/png;base64,"@ + crate::fonts::base64_standard(png@),
{
    let mut r = owned("data:image/png;base64,");
    let encoded = crate::fonts::base64_encode(png);
    push_str(&mut r, encoded.as_str());
    r
}

/// Largest screenshot data URL accepted, in bytes.
pub const CAPTURE_URL_LIMIT: usize = 100_000_000;

/// Largest GIF frame data URL accepted, in bytes.
pub const FRAME_URL_LIMIT: usize = 8_000_000;

/// The layer image of a screenshot: a data URL of at most
/// `CAPTURE_URL_LIMIT` bytes holding a PNG file.
pub open spec fn layer_png_spec(url: Seq<char>) -> Result<Seq<u8>, Seq<char>> {
    if crate::text::utf8_len(url) > CAPTURE_URL_LIMIT {
        Err("캡처 이미지가 너무 큽니다."@)
    } else {
        match png_data_spec(url) {
            Err(e) => Err(e),
            Ok(b) => if b.len() >= 8 && b.take(8) == png_signature() {
                Ok(b)
            } else {
                Err("Invalid PNG"@)
            },
        }
    }
}

/// Decodes and checks the overlay's layer image for a screenshot.
pub fn layer_png(url: &str) -> (r: Result<Vec<u8>, String>)
    ensures
        match (r, layer_png_spec(url@)) {
            (Ok(b), Ok(s)) => b@ == s,
            (Err(e), Err(m)) => e@ == m,
            _ => false,
        },
{
    let cs = chars_of(url);
    if crate::text::utf8_longer_than(&cs, CAPTURE_URL_LIMIT) {
        return Err(owned("캡처 이미지가 너무 큽니다."));
    }
    let bytes = match png_data(url) {
        Ok(b) => b,
        Err(e) => return Err(e),
    };
    if bytes.len() < 8 || bytes[0] != 0x89 || bytes[1] != 0x50 || bytes[2] != 0x4E || bytes[3] != 0x47
        || bytes[4] != 0x0D || bytes[5] != 0x0A || bytes[6] != 0x1A || bytes[7] != 0x0A {
        proof {
            if bytes@.len() >= 8 && bytes@.take(8) == png_signature() {
                assert(bytes@[0] == bytes@.take(8)[0]);
                assert(bytes@[1] == bytes@.take(8)[1]);
                assert(bytes@[2] == bytes@.take(8)[2]);
                assert(bytes@[3] == bytes@.take(8)[3]);
                assert(bytes@[4] == bytes@.take(8)[4]);
                assert(bytes@[5] == bytes@.take(8)[5]);
                assert(bytes@[6] == bytes@.take(8)[6]);
                assert(bytes@[7] == bytes@.take(8)[7]);
            }
        }
        return Err(owned("Invalid PNG"));
    }
    assert(bytes@.take(8) =~= png_signature());
    Ok(bytes)
}

/// How a screenshot is made.
#[derive(Debug, Clone, Copy, PartialEq, Eq)]
pub enum CapturePlan {
    /// The overlay's layer image alone.
    Layer,
    /// The layer drawn over a plain board of this RGBA color.
    Board([u8; 4]),
    /// A capture of the monitor itself, with the annotations on it.
    Screen,
}

/// The color of a plain board: white for the white board, near-black
/// otherwise.
pub open spec fn board_rgba(board: Seq<char>) -> [u8; 4] {
    if board == "white"@ {
        [255u8, 255u8, 255u8, 255u8]
    } else {
        [23u8, 23u8, 23u8, 255u8]
    }
}

pub fn board_color(board: &str) -> (r: [u8; 4])
    ensures
        r == board_rgba(board@),
{
    if crate::text::same_text(board, "white") {
        [255, 255, 255, 255]
    } else {
        [23, 23, 23, 255]
    }
}

/// A capture of the layer alone, or of a board, uses the overlay's image;
/// only the screen board, without the layer-only setting, captures the
/// monitor.
pub open spec fn plan_for(layer_only: bool, board: Seq<char>) -> CapturePlan {
    if layer_only {
        CapturePlan::Layer
    } else if board != "screen"@ {
        CapturePlan::Board(board_rgba(board))
    } else {
        CapturePlan::Screen
    }
}

pub fn capture_plan(layer_only: bool, board: &str) -> (r: CapturePlan)
    ensures
        r == plan_for(layer_only, board@),
{
    if layer_only {
        CapturePlan::Layer
    } else if !crate::text::same_text(board, "screen") {
        CapturePlan::Board(board_color(board))
    } else {
        CapturePlan::Screen
    }
}

/// Whether a path is absolute, as `Path::is_absolute` decides on this
/// platform.
pub uninterp spec fn path_is_absolute(p: Seq<char>) -> bool;

/// Calls `Path::is_absolute`. Claims that the answer depends on the text
/// alone.
#[verifier::external_body]
fn is_absolute(p: &str) -> (r: bool)
    ensures
        r == path_is_absolute(p@),
{
    std::path::Path::new(p).is_absolute()
}

/// The file an export writes: `stamp` and `extension` in `folder`, which
/// must be absolute.
pub open spec fn export_file(folder: Seq<char>, stamp: Seq<char>, extension: Seq<char>) -> Result<Seq<char>, Seq<char>> {
    if !path_is_absolute(folder) {
        Err("설정에서 저장 폴더를 선택하세요."@)
    } else {
        Ok(path_join(folder, stamp + extension))
    }
}

/// The path of an export file named by `stamp` (the local time) with
/// `extension`, in the capture folder.
pub fn export_path(folder: &str, stamp: &str, extension: &str) -> (r: Result<String, String>)
    ensures
        match (r, export_file(folder@, stamp@, extension@)) {
            (Ok(p), Ok(s)) => p@ == s,
            (Err(e), Err(m)) => e@ == m,
            _ => false,
        },
{
    if !is_absolute(folder) {
        return Err(owned("설정에서 저장 폴더를 선택하세요."));
    }
    let mut name = owned(stamp);
    push_str(&mut name, extension);
    Ok(join_path(folder, name.as_str()))
}

/// Calls `chrono::Local::now().format("%Y-%m-%d_%H-%M-%S-%6f")`: the local
/// time to the microsecond, used to name export files. The time is outside
/// the library, so nothing is stated of it.
#[verifier::external_body]
fn local_stamp() -> (r: String) {
    format!("{}", chrono::Local::now().format("%Y-%m-%d_%H-%M-%S-%6f"))
}

/// The path of a new export file with `extension` in `folder`, named by
/// the local time. The time is read here, so of the name only its form is
/// stated.
pub fn export_path_now(folder: &str, extension: &str) -> (r: Result<String, String>)
    ensures
        r is Err <==> !path_is_absolute(folder@),
        r matches Err(e) ==> e@ == "설정에서 저장 폴더를 선택하세요."@,
        r matches Ok(p) ==> exists|stamp: Seq<char>| p@ == path_join(folder@, stamp + extension@),
{
    let stamp = local_stamp();
    let r = export_path(folder, stamp.as_str(), extension);
    proof {
        if r is Ok {
            assert(r->Ok_0@ == path_join(folder@, stamp@ + extension@));
        }
    }
    r
}

/// Most pixels of a GIF frame.
pub const GIF_PIXEL_LIMIT: u32 = 1_000_000;

/// Most frames of a GIF export.
pub const GIF_FRAME_LIMIT: u32 = 3000;

/// A GIF export may have this size.
pub open spec fn gif_size_ok(width: u16, height: u16) -> bool {
    width != 0 && height != 0 && width * height <= GIF_PIXEL_LIMIT
}

pub fn check_gif_size(width: u16, height: u16) -> (r: Result<(), String>)
    ensures
        r is Ok <==> gif_size_ok(width, height),
        r matches Err(e) ==> e@ == "GIF 크기가 너무 큽니다."@,
{
    let w = width as u32;
    let h = height as u32;
    assert(w * h <= 0xFFFF * 0xFFFF) by (nonlinear_arith)
        requires
            w <= 0xFFFF,
            h <= 0xFFFF,
    ;
    if width == 0 || height == 0 || w * h > GIF_PIXEL_LIMIT {
        return Err(owned("GIF 크기가 너무 큽니다."));
    }
    Ok(())
}

/// A frame from the overlay is accepted before decoding: a data URL of at
/// most `FRAME_URL_LIMIT` bytes, shown for a nonzero delay.
pub fn check_gif_frame(url: &str, delay: u16) -> (r: Result<(), String>)
    ensures
        r is Ok <==> (crate::text::utf8_len(url@) <= FRAME_URL_LIMIT && delay != 0),
        r matches Err(e) ==> e@ == "Invalid GIF frame"@,
{
    let cs = chars_of(url);
    if crate::text::utf8_longer_than(&cs, FRAME_URL_LIMIT) || delay == 0 {
        return Err(owned("Invalid GIF frame"));
    }
    Ok(())
}

/// The bookkeeping of a running GIF export: its size and the frames written.
pub struct GifJob {
    pub width: u16,
    pub height: u16,
    pub frames: u32,
}

impl GifJob {
    /// A new export of this size, with no frame yet.
    pub fn new(width: u16, height: u16) -> (r: GifJob)
        ensures
            r.width == width && r.height == height && r.frames == 0,
    {
        GifJob { width, height, frames: 0 }
    }

    /// A decoded frame may be written: it has the export's size and the
    /// export is below `GIF_FRAME_LIMIT` frames.
    pub fn check_frame(&self, width: u32, height: u32) -> (r: Result<(), String>)
        ensures
            r is Ok <==> (width == self.width && height == self.height && self.frames < GIF_FRAME_LIMIT),
            r matches Err(e) ==> e@ == "GIF 프레임 제한을 초과했습니다."@,
    {
        if width != self.width as u32 || height != self.height as u32 || self.frames >= GIF_FRAME_LIMIT {
            return Err(owned("GIF 프레임 제한을 초과했습니다."));
        }
        Ok(())
    }

    /// Counts a frame that was written.
    pub fn frame_written(&mut self)
        requires
            old(self).frames < GIF_FRAME_LIMIT,
        ensures
            final(self).frames == old(self).frames + 1,
            final(self).width == old(self).width,
            final(self).height == old(self).height,
    {
        self.frames = self.frames + 1;
    }

    /// A finished export must hold a frame.
    pub fn check_finish(&self) -> (r: Result<(), String>)
        ensures
            r is Ok <==> self.frames > 0,
            r matches Err(e) ==> e@ == "GIF 프레임이 없습니다."@,
    {
        if self.frames == 0 {
            return Err(owned("GIF 프레임이 없습니다."));
        }
        Ok(())
    }
}

} // verus!
