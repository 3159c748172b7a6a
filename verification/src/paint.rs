//! Colours, gradients, and hex colour parsing.
use vstd::prelude::*;
use crate::num::{min_int, sat_add, sat_sub};
use vstd::string::StringSliceAdditionalSpecFns;

verus! {

/// A straight (not premultiplied) RGBA colour.
#[derive(Clone, Copy, Debug, PartialEq, Eq, Hash, Structural)]
pub struct Color {
    pub red: u8,
    pub green: u8,
    pub blue: u8,
    pub alpha: u8,
}

impl Default for Color {
    fn default() -> (r: Self)
        ensures
            r == (Color { red: 0, green: 0, blue: 0, alpha: 0 }),
    {
        Color::transparent()
    }
}

impl Color {
    /// Fully transparent black.
    pub fn transparent() -> (r: Self)
        ensures
            r == (Color { red: 0, green: 0, blue: 0, alpha: 0 }),
    {
        Color::rgba(0, 0, 0, 0)
    }

    pub fn black() -> (r: Self)
        ensures
            r == (Color { red: 0, green: 0, blue: 0, alpha: 255 }),
    {
        Color::rgb(0, 0, 0)
    }

    pub fn white() -> (r: Self)
        ensures
            r == (Color { red: 255, green: 255, blue: 255, alpha: 255 }),
    {
        Color::rgb(255, 255, 255)
    }

    /// An opaque colour.
    pub fn rgb(red: u8, green: u8, blue: u8) -> (r: Self)
        ensures
            r == (Color { red, green, blue, alpha: 255 }),
    {
        Self::rgba(red, green, blue, 255)
    }

    pub fn rgba(red: u8, green: u8, blue: u8, alpha: u8) -> (r: Self)
        ensures
            r == (Color { red, green, blue, alpha }),
    {
        Color { red, green, blue, alpha }
    }

    pub open spec fn spec_to_rgba(self) -> Seq<u8> {
        seq![self.red, self.green, self.blue, self.alpha]
    }

    /// The channels in the order red, green, blue, alpha.
    pub fn to_rgba(self) -> (r: [u8; 4])
        ensures
            r@ == self.spec_to_rgba(),
    {
        let r = [self.red, self.green, self.blue, self.alpha];
        assert(r@ =~= self.spec_to_rgba());
        r
    }

    /// The colour with channels red, green, blue, alpha.
    pub fn from_rgba_array(rgba: [u8; 4]) -> (r: Self)
        ensures
            r == (Color { red: rgba@[0], green: rgba@[1], blue: rgba@[2], alpha: rgba@[3] }),
    {
        Self::rgba(rgba[0], rgba[1], rgba[2], rgba[3])
    }

    /// The opaque colour with channels red, green, blue.
    pub fn from_rgb_array(rgb: [u8; 3]) -> (r: Self)
        ensures
            r == (Color { red: rgb@[0], green: rgb@[1], blue: rgb@[2], alpha: 255 }),
    {
        Self::rgb(rgb[0], rgb[1], rgb[2])
    }

    /// Parses `#RRGGBB` or `#RRGGBBAA` (the `#` may be left out); see
    /// `spec_parse_hex_color` for exactly which strings are accepted.
    pub fn from_hex(value: &str) -> (r: Result<Color, ColorParseError>)
        ensures
            r == match spec_parse_hex_color(value.spec_bytes()) {
                Some(c) => Ok::<Color, ColorParseError>(c),
                None => Err(ColorParseError),
            },
    {
        match parse_hex_color(value.as_bytes()) {
            Some(c) => Ok(c),
            None => Err(ColorParseError),
        }
    }
}

impl core::str::FromStr for Color {
    type Err = ColorParseError;

    fn from_str(value: &str) -> (r: Result<Color, ColorParseError>)
        ensures
            r == match spec_parse_hex_color(value.spec_bytes()) {
                Some(c) => Ok::<Color, ColorParseError>(c),
                None => Err(ColorParseError),
            },
    {
        Color::from_hex(value)
    }
}

/// The error of a colour string that is not `#RRGGBB` or `#RRGGBBAA`.
#[derive(Clone, Copy, Debug, PartialEq, Eq, Structural)]
pub struct ColorParseError;

impl ColorParseError {
    /// The message that describes this error.
    pub fn message(&self) -> (r: &'static str)
        ensures
            r == "expected #RRGGBB or #RRGGBBAA color",
    {
        "expected #RRGGBB or #RRGGBBAA color"
    }
}

/// The value of an ASCII hexadecimal digit (either case).
pub open spec fn spec_hex_digit(byte: u8) -> Option<u8> {
    if 0x30 <= byte <= 0x39 {
        Some((byte - 0x30) as u8)
    } else if 0x61 <= byte <= 0x66 {
        Some((byte - 0x61 + 10) as u8)
    } else if 0x41 <= byte <= 0x46 {
        Some((byte - 0x41 + 10) as u8)
    } else {
        None
    }
}

/// A two-character field read as a base-16 number: both characters must be
/// hex digits.
pub open spec fn spec_hex_pair(first: u8, second: u8) -> Option<u8> {
    match (spec_hex_digit(first), spec_hex_digit(second)) {
        (Some(a), Some(b)) => Some((a * 16 + b) as u8),
        _ => None,
    }
}

/// The UTF-8 bytes of a colour string without its optional leading `#`.
pub open spec fn spec_hex_body(bytes: Seq<u8>) -> Seq<u8> {
    if bytes.len() > 0 && bytes[0] == 0x23 {
        bytes.drop_first()
    } else {
        bytes
    }
}

/// The colour that a string with these UTF-8 bytes names: after an optional
/// `#`, six or eight ASCII characters, read in pairs as red, green, blue and
/// (if present, else 255) alpha.
pub open spec fn spec_parse_hex_color(bytes: Seq<u8>) -> Option<Color> {
    let hex = spec_hex_body(bytes);
    if !(forall|i: int| 0 <= i < hex.len() ==> hex[i] < 0x80) || !(hex.len() == 6 || hex.len() == 8) {
        None
    } else {
        match (
            spec_hex_pair(hex[0], hex[1]),
            spec_hex_pair(hex[2], hex[3]),
            spec_hex_pair(hex[4], hex[5]),
        ) {
            (Some(red), Some(green), Some(blue)) => if hex.len() == 8 {
                match spec_hex_pair(hex[6], hex[7]) {
                    Some(alpha) => Some(Color { red, green, blue, alpha }),
                    None => None,
                }
            } else {
                Some(Color { red, green, blue, alpha: 255 })
            },
            _ => None,
        }
    }
}

/// The ASCII hex digit of `d` (below 16), in upper or lower case.
pub open spec fn spec_hex_char(d: int, upper: bool) -> u8 {
    if d < 10 {
        (0x30 + d) as u8
    } else if upper {
        (0x41 + d - 10) as u8
    } else {
        (0x61 + d - 10) as u8
    }
}

/// The two hex digits of a byte, high first.
pub open spec fn spec_hex_byte(v: u8, upper: bool) -> Seq<u8> {
    seq![spec_hex_char(v as int / 16, upper), spec_hex_char(v as int % 16, upper)]
}

/// The hex text of a colour: an optional `#`, then red, green, blue and,
/// if asked for, alpha, two digits each.
pub open spec fn spec_color_hex_text(c: Color, hash: bool, with_alpha: bool, upper: bool) -> Seq<u8> {
    (if hash { seq![0x23u8] } else { Seq::<u8>::empty() }) + spec_hex_byte(c.red, upper) + spec_hex_byte(
        c.green,
        upper,
    ) + spec_hex_byte(c.blue, upper) + (if with_alpha { spec_hex_byte(c.alpha, upper) } else { Seq::<u8>::empty() })
}

proof fn lemma_hex_byte_reads_back(v: u8, upper: bool)
    ensures
        spec_hex_pair(spec_hex_byte(v, upper)[0], spec_hex_byte(v, upper)[1]) == Some(v),
        spec_hex_byte(v, upper)[0] < 0x80 && spec_hex_byte(v, upper)[1] < 0x80,
        spec_hex_byte(v, upper)[0] != 0x23,
{
    let hi = v as int / 16;
    let lo = v as int % 16;
    assert(0 <= hi < 16 && 0 <= lo < 16 && hi * 16 + lo == v);
    assert(spec_hex_digit(spec_hex_char(hi, upper)) == Some(hi as u8));
    assert(spec_hex_digit(spec_hex_char(lo, upper)) == Some(lo as u8));
}

/// Writing a colour as hex text, with or without `#`, in either case, and
/// parsing it gives the colour back; without the alpha digits the alpha is
/// 255.
pub proof fn lemma_hex_round_trip(c: Color, hash: bool, with_alpha: bool, upper: bool)
    ensures
        spec_parse_hex_color(spec_color_hex_text(c, hash, with_alpha, upper)) == Some(
            if with_alpha { c } else { Color { alpha: 255, ..c } },
        ),
{
    lemma_hex_byte_reads_back(c.red, upper);
    lemma_hex_byte_reads_back(c.green, upper);
    lemma_hex_byte_reads_back(c.blue, upper);
    lemma_hex_byte_reads_back(c.alpha, upper);
    let body = spec_hex_byte(c.red, upper) + spec_hex_byte(c.green, upper) + spec_hex_byte(c.blue, upper) + (
    if with_alpha {
        spec_hex_byte(c.alpha, upper)
    } else {
        Seq::<u8>::empty()
    });
    let text = spec_color_hex_text(c, hash, with_alpha, upper);
    if hash {
        assert(text =~= seq![0x23u8] + body);
        assert(text.drop_first() =~= body);
    } else {
        assert(text =~= body);
    }
    assert(spec_hex_body(text) =~= body);
}

fn hex_digit(byte: u8) -> (r: Option<u8>)
    ensures
        r == spec_hex_digit(byte),
{
    if 0x30 <= byte && byte <= 0x39 {
        Some(byte - 0x30)
    } else if 0x61 <= byte && byte <= 0x66 {
        Some(byte - 0x61 + 10)
    } else if 0x41 <= byte && byte <= 0x46 {
        Some(byte - 0x41 + 10)
    } else {
        None
    }
}

fn hex_pair(first: u8, second: u8) -> (r: Option<u8>)
    ensures
        r == spec_hex_pair(first, second),
{
    match (hex_digit(first), hex_digit(second)) {
        (Some(a), Some(b)) => Some(a * 16 + b),
        _ => None,
    }
}

fn parse_hex_color(bytes: &[u8]) -> (r: Option<Color>)
    ensures
        r == spec_parse_hex_color(bytes@),
{
    let start: usize = if bytes.len() > 0 && bytes[0] == 0x23 { 1 } else { 0 };
    let len = bytes.len() - start;
    let ghost hex = spec_hex_body(bytes@);
    assert(hex =~= bytes@.subrange(start as int, bytes@.len() as int));
    let mut i: usize = 0;
    while i < len
        invariant
            0 <= i <= len,
            len == hex.len(),
            start + len == bytes@.len(),
            bytes@.len() == bytes.len(),
            hex =~= bytes@.subrange(start as int, bytes@.len() as int),
            forall|j: int| 0 <= j < i ==> hex[j] < 0x80,
        decreases len - i,
    {
        if bytes[start + i] >= 0x80 {
            return None;
        }
        i = i + 1;
    }
    if len != 6 && len != 8 {
        return None;
    }
    let red = hex_pair(bytes[start], bytes[start + 1]);
    let green = hex_pair(bytes[start + 2], bytes[start + 3]);
    let blue = hex_pair(bytes[start + 4], bytes[start + 5]);
    match (red, green, blue) {
        (Some(red), Some(green), Some(blue)) => {
            if len == 8 {
                match hex_pair(bytes[start + 6], bytes[start + 7]) {
                    Some(alpha) => Some(Color { red, green, blue, alpha }),
                    None => None,
                }
            } else {
                Some(Color { red, green, blue, alpha: 255 })
            }
        },
        _ => None,
    }
}

/// The direction along which a gradient runs.
#[derive(Clone, Copy, Debug, PartialEq, Eq, Structural)]
pub enum GradientDirection {
    Horizontal,
    Vertical,
    Diagonal,
    DiagonalReverse,
}

impl Default for GradientDirection {
    fn default() -> (r: Self)
        ensures
            r == GradientDirection::Horizontal,
    {
        GradientDirection::Horizontal
    }
}

/// One channel `position / max_position` of the way from `from` to `to`,
/// rounded toward `from`.
pub open spec fn spec_interpolate_component(from: u8, to: u8, position: int, max_position: int) -> u8 {
    if to >= from {
        (from + (to - from) * position / max_position) as u8
    } else {
        (from - (from - to) * position / max_position) as u8
    }
}

pub open spec fn spec_interpolate_color(from: Color, to: Color, position: int, max_position: int) -> Color {
    Color {
        red: spec_interpolate_component(from.red, to.red, position, max_position),
        green: spec_interpolate_component(from.green, to.green, position, max_position),
        blue: spec_interpolate_component(from.blue, to.blue, position, max_position),
        alpha: spec_interpolate_component(from.alpha, to.alpha, position, max_position),
    }
}

fn interpolate_component(from: u8, to: u8, position: u64, max_position: u64) -> (r: u8)
    requires
        0 < max_position,
        position <= max_position,
    ensures
        r == spec_interpolate_component(from, to, position as int, max_position as int),
        min_int(from as int, to as int) <= r <= if from >= to { from } else { to },
{
    let from = from as u64;
    let to = to as u64;
    if to >= from {
        proof {
            assert((to - from) * position <= (to - from) * max_position) by (nonlinear_arith)
                requires
                    position <= max_position,
                    to >= from,
            ;
            assert(((to - from) * position) as int / max_position as int <= to - from) by (nonlinear_arith)
                requires
                    position <= max_position,
                    to >= from,
                    max_position > 0,
            ;
            assert((to - from) * max_position <= 255 * 0x1_0000_0000_0000_0000) by (nonlinear_arith)
                requires
                    to - from <= 255,
                    max_position <= 0xffff_ffff_ffff_ffff,
            ;
        }
        let step = ((to - from) as u128 * position as u128 / max_position as u128) as u64;
        (from + step) as u8
    } else {
        proof {
            assert(((from - to) * position) as int / max_position as int <= from - to) by (nonlinear_arith)
                requires
                    position <= max_position,
                    from > to,
                    max_position > 0,
            ;
            assert((from - to) * max_position <= 255 * 0x1_0000_0000_0000_0000) by (nonlinear_arith)
                requires
                    from - to <= 255,
                    max_position <= 0xffff_ffff_ffff_ffff,
            ;
            assert((from - to) * position <= (from - to) * max_position) by (nonlinear_arith)
                requires
                    position <= max_position,
                    from > to,
            ;
        }
        let step = ((from - to) as u128 * position as u128 / max_position as u128) as u64;
        (from - step) as u8
    }
}

fn interpolate_color(from: Color, to: Color, position: u64, max_position: u64) -> (r: Color)
    requires
        0 < max_position,
        position <= max_position,
    ensures
        r == spec_interpolate_color(from, to, position as int, max_position as int),
{
    Color::rgba(
        interpolate_component(from.red, to.red, position, max_position),
        interpolate_component(from.green, to.green, position, max_position),
        interpolate_component(from.blue, to.blue, position, max_position),
        interpolate_component(from.alpha, to.alpha, position, max_position),
    )
}

/// How something is filled: one colour, or evenly spaced gradient stops.
#[derive(Clone, Debug, PartialEq, Eq)]
pub enum Paint {
    Solid(Color),
    Gradient(Vec<Color>),
}

impl Default for Paint {
    fn default() -> (r: Self)
        ensures
            r == Paint::Solid(Color { red: 0, green: 0, blue: 0, alpha: 0 }),
    {
        Paint::Solid(Color::transparent())
    }
}

/// Where along the gradient axis the pixel `(x, y)` of a `width` by
/// `height` box lies, and the last position on that axis.
pub open spec fn spec_gradient_position(x: u32, y: u32, width: u32, height: u32, direction: GradientDirection) -> (int, int) {
    match direction {
        GradientDirection::Horizontal => (x as int, sat_sub(width as int, 1)),
        GradientDirection::Vertical => (y as int, sat_sub(height as int, 1)),
        GradientDirection::Diagonal => (
            sat_add(x as int, y as int),
            sat_add(sat_sub(width as int, 1), sat_sub(height as int, 1)),
        ),
        GradientDirection::DiagonalReverse => (
            sat_add(sat_sub(sat_sub(width as int, 1), x as int), y as int),
            sat_add(sat_sub(width as int, 1), sat_sub(height as int, 1)),
        ),
    }
}

/// The colour of a gradient with stops `colors` at `position` of
/// `max_position`: the stops are spread evenly and colours between two
/// stops are interpolated channel by channel.
pub open spec fn spec_gradient_color(colors: Seq<Color>, position: int, max_position: int) -> Color {
    if colors.len() == 1 || max_position == 0 {
        colors[0]
    } else {
        let stop_count = colors.len() - 1;
        let scaled = min_int(position, max_position) * stop_count;
        let index = scaled / max_position;
        if index >= stop_count {
            colors[stop_count]
        } else {
            spec_interpolate_color(colors[index], colors[index + 1], scaled % max_position, max_position)
        }
    }
}

impl Paint {
    /// Whether the paint has a colour to give: every gradient needs a stop.
    pub open spec fn spec_has_color(&self) -> bool {
        match self {
            Paint::Solid(_) => true,
            Paint::Gradient(colors) => colors@.len() > 0,
        }
    }

    pub open spec fn spec_first(&self) -> Color {
        match self {
            Paint::Solid(color) => *color,
            Paint::Gradient(colors) => colors@[0],
        }
    }

    /// The colour of the pixel `(x, y)` of a `width` by `height` box.
    pub open spec fn spec_at(&self, x: u32, y: u32, width: u32, height: u32, direction: GradientDirection) -> Color {
        match self {
            Paint::Solid(color) => *color,
            Paint::Gradient(colors) => {
                let (position, max_position) = spec_gradient_position(x, y, width, height, direction);
                spec_gradient_color(colors@, position, max_position)
            },
        }
    }

    pub fn solid(color: Color) -> (r: Self)
        ensures
            r == Paint::Solid(color),
    {
        Paint::Solid(color)
    }

    /// A gradient through `colors`; with no colours, transparent.
    pub fn gradient(colors: Vec<Color>) -> (r: Self)
        ensures
            colors@.len() == 0 ==> r == Paint::Solid(Color { red: 0, green: 0, blue: 0, alpha: 0 }),
            colors@.len() > 0 ==> r == Paint::Gradient(colors),
    {
        if colors.len() == 0 {
            Paint::Solid(Color::transparent())
        } else {
            Paint::Gradient(colors)
        }
    }

    /// The solid colour, or the first gradient stop.
    pub fn first(&self) -> (r: Color)
        requires
            self.spec_has_color(),
        ensures
            r == self.spec_first(),
    {
        match self {
            Paint::Solid(color) => *color,
            Paint::Gradient(colors) => colors[0],
        }
    }

    pub fn at(&self, x: u32, y: u32, width: u32, height: u32, direction: GradientDirection) -> (r: Color)
        requires
            self.spec_has_color(),
        ensures
            r == self.spec_at(x, y, width, height, direction),
    {
        let colors = match self {
            Paint::Solid(color) => return *color,
            Paint::Gradient(colors) => colors,
        };
        if colors.len() == 1 {
            return colors[0];
        }
        let (position, max_position): (u32, u32) = match direction {
            GradientDirection::Horizontal => (x, width.saturating_sub(1)),
            GradientDirection::Vertical => (y, height.saturating_sub(1)),
            GradientDirection::Diagonal => (
                x.saturating_add(y),
                width.saturating_sub(1).saturating_add(height.saturating_sub(1)),
            ),
            GradientDirection::DiagonalReverse => (
                width.saturating_sub(1).saturating_sub(x).saturating_add(y),
                width.saturating_sub(1).saturating_add(height.saturating_sub(1)),
            ),
        };
        if max_position == 0 {
            return colors[0];
        }
        let stop_count = colors.len() - 1;
        let clamped = if position <= max_position { position } else { max_position };
        proof {
            assert(clamped as int * stop_count as int <= 0xffff_ffff * 0xffff_ffff_ffff_ffff) by (nonlinear_arith)
                requires
                    clamped <= 0xffff_ffff,
                    stop_count <= 0xffff_ffff_ffff_ffff,
            ;
            assert(clamped as int * stop_count as int / max_position as int <= stop_count) by (nonlinear_arith)
                requires
                    clamped <= max_position,
                    max_position > 0,
                    stop_count >= 0,
            ;
        }
        let scaled = clamped as u128 * stop_count as u128;
        let index = (scaled / max_position as u128) as usize;
        if index >= stop_count {
            return colors[stop_count];
        }
        let remainder = (scaled % max_position as u128) as u64;
        interpolate_color(colors[index], colors[index + 1], remainder, max_position as u64)
    }
}

/// A gradient starts at its first stop.
pub proof fn lemma_gradient_starts_at_first_stop(colors: Seq<Color>, max_position: int)
    requires
        colors.len() > 0,
        max_position >= 0,
    ensures
        spec_gradient_color(colors, 0, max_position) == colors[0],
{
    if colors.len() > 1 && max_position > 0 {
        let stop_count = colors.len() - 1;
        assert(min_int(0, max_position) == 0);
        assert(0 * stop_count == 0) by (nonlinear_arith);
        assert(0int / max_position == 0);
        assert(0int % max_position == 0);
        let c = colors[0];
        assert(spec_interpolate_component(c.red, colors[1].red, 0, max_position) == c.red);
        assert(spec_interpolate_component(c.green, colors[1].green, 0, max_position) == c.green);
        assert(spec_interpolate_component(c.blue, colors[1].blue, 0, max_position) == c.blue);
        assert(spec_interpolate_component(c.alpha, colors[1].alpha, 0, max_position) == c.alpha);
    }
}

/// A gradient ends at its last stop: every position at or past the end has
/// the last colour.
pub proof fn lemma_gradient_ends_at_last_stop(colors: Seq<Color>, position: int, max_position: int)
    requires
        colors.len() > 1,
        max_position > 0,
        position >= max_position,
    ensures
        spec_gradient_color(colors, position, max_position) == colors[colors.len() - 1],
{
    let stop_count = colors.len() - 1;
    assert(max_position * stop_count / max_position == stop_count) by (nonlinear_arith)
        requires
            max_position > 0,
    ;
}

} // verus!
