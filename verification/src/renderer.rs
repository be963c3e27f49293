//! The 2D renderer of the light runtime and its colour parsing.

use crate::canvas::Canvas;
use vstd::prelude::*;
use vstd::string::StringSliceAdditionalSpecFns;

verus! {

/// The bytes of `b` after its leading `#` characters.
pub open spec fn without_hashes(b: Seq<u8>) -> Seq<u8>
    decreases b.len(),
{
    if b.len() > 0 && b[0] == 35u8 {
        without_hashes(b.drop_first())
    } else {
        b
    }
}

/// Whether position `i` of the UTF-8 bytes `b` starts a character (or is the end).
pub open spec fn char_boundary(b: Seq<u8>, i: int) -> bool {
    i == b.len() || (0 <= i < b.len() && !(0x80u8 <= b[i] <= 0xbfu8))
}

/// The value of a hexadecimal digit byte (either case).
pub open spec fn hex_digit(c: u8) -> Option<u8> {
    if 48u8 <= c <= 57u8 {
        Some((c - 48) as u8)
    } else if 97u8 <= c <= 102u8 {
        Some((c - 87) as u8)
    } else if 65u8 <= c <= 70u8 {
        Some((c - 55) as u8)
    } else {
        None
    }
}

/// Parsing two bytes as a base-16 `u8`: either two digits, or a `+` sign
/// and one digit.
pub open spec fn hex_pair(a: u8, b: u8) -> Option<u8> {
    if a == 43u8 {
        hex_digit(b)
    } else {
        match (hex_digit(a), hex_digit(b)) {
            (Some(x), Some(y)) => Some((16 * x + y) as u8),
            _ => None,
        }
    }
}

/// One colour channel from the two bytes at `i`: their value, or 255 when
/// they do not parse.
pub open spec fn channel(h: Seq<u8>, i: int) -> u8 {
    match hex_pair(h[i], h[i + 1]) {
        Some(v) => v,
        None => 255u8,
    }
}

/// The colour that `#RRGGBB` or `#RRGGBBAA` text denotes; any other length
/// gives opaque white.
pub open spec fn color_of(bytes: Seq<u8>) -> Seq<u8> {
    let h = without_hashes(bytes);
    if h.len() == 6 {
        seq![channel(h, 0), channel(h, 2), channel(h, 4), 255u8]
    } else if h.len() == 8 {
        seq![channel(h, 0), channel(h, 2), channel(h, 4), channel(h, 6)]
    } else {
        seq![255u8, 255u8, 255u8, 255u8]
    }
}

/// Cutting the colour text into channels lands on character boundaries
/// (else slicing the text would panic).
pub open spec fn color_slices_valid(bytes: Seq<u8>) -> bool {
    let h = without_hashes(bytes);
    &&& h.len() == 6 ==> char_boundary(h, 2) && char_boundary(h, 4)
    &&& h.len() == 8 ==> char_boundary(h, 2) && char_boundary(h, 4) && char_boundary(h, 6)
}

/// Why the light runtime failed.
#[derive(Debug)]
pub enum LightError {
    Render(String),
    Scene(String),
    AssetNotLoaded(String),
}

impl LightError {
    /// The text that describes the error.
    pub open spec fn spec_message(&self) -> Seq<char> {
        match self {
            LightError::Render(m) => "render error: "@ + m@,
            LightError::Scene(m) => "scene error: "@ + m@,
            LightError::AssetNotLoaded(m) => "asset not loaded: "@ + m@,
        }
    }

    /// The text that describes the error.
    pub fn message(&self) -> (s: String)
        ensures
            s@ == self.spec_message(),
    {
        match self {
            LightError::Render(m) => String::from_str("render error: ").concat(m.as_str()),
            LightError::Scene(m) => String::from_str("scene error: ").concat(m.as_str()),
            LightError::AssetNotLoaded(m) => String::from_str("asset not loaded: ").concat(m.as_str()),
        }
    }
}

/// A 2D renderer drawing on its canvas.
pub struct Renderer {
    canvas: Canvas,
    width: u32,
    height: u32,
}

/// The value of a hexadecimal digit byte.
fn hex_digit_value(c: u8) -> (r: Option<u8>)
    ensures
        r == hex_digit(c),
{
    if 48u8 <= c && c <= 57u8 {
        Some(c - 48)
    } else if 97u8 <= c && c <= 102u8 {
        Some(c - 87)
    } else if 65u8 <= c && c <= 70u8 {
        Some(c - 55)
    } else {
        None
    }
}

/// The channel value of the two bytes at `i`.
fn parse_channel(h: &[u8], i: usize) -> (r: u8)
    requires
        i + 1 < h@.len(),
    ensures
        r == channel(h@, i as int),
{
    let a = h[i];
    let b = h[i + 1];
    if a == 43u8 {
        match hex_digit_value(b) {
            Some(v) => v,
            None => 255,
        }
    } else {
        match (hex_digit_value(a), hex_digit_value(b)) {
            (Some(x), Some(y)) => 16 * x + y,
            _ => 255,
        }
    }
}

impl Renderer {
    /// The renderer's canvas has the renderer's size.
    #[verifier::type_invariant]
    closed spec fn canvas_fits(&self) -> bool {
        &&& self.canvas.spec_width() == self.width
        &&& self.canvas.spec_height() == self.height
    }

    /// The canvas the renderer draws on.
    pub closed spec fn spec_canvas(&self) -> Canvas {
        self.canvas
    }

    /// The renderer's width.
    pub closed spec fn spec_width(&self) -> u32 {
        self.width
    }

    /// The renderer's height.
    pub closed spec fn spec_height(&self) -> u32 {
        self.height
    }

    /// A renderer with a canvas of the given size.
    pub fn new(width: u32, height: u32) -> (r: Self)
        ensures
            r.spec_width() == width,
            r.spec_height() == height,
            r.spec_canvas().spec_width() == width,
            r.spec_canvas().spec_height() == height,
            r.spec_canvas().spec_clip() is None,
    {
        Renderer { canvas: Canvas::new(width, height), width, height }
    }

    /// Starts a frame by clearing the canvas to `background`.
    pub fn begin_frame(&self, background: [u8; 4]) {
        self.canvas.clear(background);
    }

    /// Ends a frame.
    pub fn end_frame(&self) {
    }

    /// The canvas the renderer draws on.
    pub fn canvas(&self) -> (c: &Canvas)
        ensures
            *c == self.spec_canvas(),
            c.spec_width() == self.spec_width(),
            c.spec_height() == self.spec_height(),
    {
        proof {
            use_type_invariant(self);
        }
        &self.canvas
    }

    /// Requests a clip rectangle; the canvas's own clip is left as it is.
    pub fn set_clip(&self, x: i32, y: i32, width: u32, height: u32) {
        let _ = (x, y, width, height);
    }

    /// Requests that clipping end; the canvas's own clip is left as it is.
    pub fn clear_clip(&self) {
    }

    /// Parses `#RRGGBB` or `#RRGGBBAA` (any number of leading `#`) into
    /// RGBA; a channel that does not parse is 255, and text of another
    /// length is opaque white.
    pub fn parse_color(color: &str) -> (c: [u8; 4])
        requires
            color_slices_valid(color.spec_bytes()),
        ensures
            c@ == color_of(color.spec_bytes()),
    {
        let bytes = color.as_bytes();
        let mut start: usize = 0;
        assert(bytes@.skip(0) =~= bytes@);
        while start < bytes.len() && bytes[start] == 35u8
            invariant
                start <= bytes@.len(),
                without_hashes(bytes@) == without_hashes(bytes@.skip(start as int)),
            decreases bytes@.len() - start,
        {
            assert(bytes@.skip(start as int).drop_first() =~= bytes@.skip(start + 1));
            start = start + 1;
        }
        let ghost h = bytes@.skip(start as int);
        assert(without_hashes(h) == h);
        let n = bytes.len() - start;
        let hex = slice_from(bytes, start);
        assert(hex@ == h);
        if n == 6 {
            let c = [parse_channel(hex, 0), parse_channel(hex, 2), parse_channel(hex, 4), 255u8];
            assert(c@ =~= color_of(color.spec_bytes()));
            c
        } else if n == 8 {
            let c = [
                parse_channel(hex, 0),
                parse_channel(hex, 2),
                parse_channel(hex, 4),
                parse_channel(hex, 6),
            ];
            assert(c@ =~= color_of(color.spec_bytes()));
            c
        } else {
            let c = [255u8, 255u8, 255u8, 255u8];
            assert(c@ =~= color_of(color.spec_bytes()));
            c
        }
    }
}

/// The bytes of `b` from position `start` on.
fn slice_from(b: &[u8], start: usize) -> (r: &[u8])
    requires
        start <= b@.len(),
    ensures
        r@ == b@.skip(start as int),
{
    let (_, tail) = b.split_at(start);
    tail
}

} // verus!
