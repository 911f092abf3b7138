//! Theme settings: the two user parameters (accent colour and appearance),
//! the font scale, and parsing of `#RRGGBB` colours.
use vstd::prelude::*;
use crate::text::owned;
use vstd::string::StringSliceAdditionalSpecFns;

verus! {

/// Window appearance.
#[derive(Debug, Clone, Copy, PartialEq, Eq, Structural)]
pub enum Appearance {
    Light,
    Dark,
    /// Rendered as dark for now.
    Auto,
    /// Rendered as dark for now.
    Glass,
}

/// Font size scale.
#[derive(Debug, Clone, Copy, PartialEq, Eq, Structural)]
pub enum FontScale {
    Small,
    Medium,
    Large,
}

/// The default accent: graphite grey.
pub const DEFAULT_ACCENT: &'static str = "#8E8E93";
pub const DEFAULT_APPEARANCE: Appearance = Appearance::Dark;
pub const DEFAULT_FONT_SCALE: FontScale = FontScale::Medium;

/// The font scale factor in thousandths: 0.875, 1.0 and 1.125.
pub open spec fn scale_per_mille_spec(fs: FontScale) -> u32 {
    match fs {
        FontScale::Small => 875,
        FontScale::Medium => 1000,
        FontScale::Large => 1125,
    }
}

pub fn scale_per_mille(fs: FontScale) -> (r: u32)
    ensures
        r == scale_per_mille_spec(fs),
{
    match fs {
        FontScale::Small => 875,
        FontScale::Medium => 1000,
        FontScale::Large => 1125,
    }
}

/// Every appearance but `Light` renders dark.
pub open spec fn appearance_is_dark(a: Appearance) -> bool {
    a != Appearance::Light
}

/// The current theme parameters, from which the palette is derived.
pub struct ThemeSettings {
    pub accent: String,
    /// Whether the palette is the dark one.
    pub dark: bool,
    pub font_scale: FontScale,
}

pub struct ThemeSettingsView {
    pub accent: Seq<char>,
    pub dark: bool,
    pub font_scale: FontScale,
}

impl View for ThemeSettings {
    type V = ThemeSettingsView;

    open spec fn view(&self) -> ThemeSettingsView {
        ThemeSettingsView { accent: self.accent@, dark: self.dark, font_scale: self.font_scale }
    }
}

impl ThemeSettings {
    /// The theme at start: the default accent, dark, medium font.
    pub fn new() -> (r: ThemeSettings)
        ensures
            r@ == (ThemeSettingsView { accent: DEFAULT_ACCENT@, dark: true, font_scale: FontScale::Medium }),
    {
        ThemeSettings { accent: owned(DEFAULT_ACCENT), dark: true, font_scale: FontScale::Medium }
    }

    /// Applies a theme: records the accent, whether it is dark, and the font scale.
    pub fn apply(&mut self, accent: &str, appearance: Appearance, fs: FontScale)
        ensures
            final(self)@ == apply_spec(old(self)@, accent@, appearance, fs),
    {
        self.dark = match appearance {
            Appearance::Light => false,
            _ => true,
        };
        self.accent = owned(accent);
        self.font_scale = fs;
    }

    /// Whether the current palette is the dark one.
    pub fn is_dark(&self) -> (r: bool)
        ensures
            r == self.dark,
    {
        self.dark
    }
}

/// The theme after applying `accent`, `a` and `fs`: nothing of the previous theme remains.
pub open spec fn apply_spec(t: ThemeSettingsView, accent: Seq<char>, a: Appearance, fs: FontScale) -> ThemeSettingsView {
    ThemeSettingsView { accent, dark: appearance_is_dark(a), font_scale: fs }
}

/// After applying a theme, the palette is dark exactly when the appearance is
/// not `Light`, whatever the theme was before; applying twice is applying once.
pub proof fn law_apply_then_is_dark(t: ThemeSettingsView, accent: Seq<char>, a: Appearance, fs: FontScale)
    ensures
        apply_spec(t, accent, a, fs).dark <==> a != Appearance::Light,
        apply_spec(apply_spec(t, accent, a, fs), accent, a, fs) == apply_spec(t, accent, a, fs),
{
}

// ---------------------------------------------------------------------------
// `#RRGGBB`
// ---------------------------------------------------------------------------

/// `b` without its leading `#` bytes.
pub open spec fn strip_hashes(b: Seq<u8>) -> Seq<u8>
    decreases b.len(),
{
    if b.len() > 0 && b[0] == 0x23 {
        strip_hashes(b.drop_first())
    } else {
        b
    }
}

/// The value of a hexadecimal digit.
pub open spec fn hex_digit(c: u8) -> Option<u8> {
    if 0x30 <= c <= 0x39 {
        Some((c - 0x30) as u8)
    } else if 0x61 <= c <= 0x66 {
        Some((c - 0x61 + 10) as u8)
    } else if 0x41 <= c <= 0x46 {
        Some((c - 0x41 + 10) as u8)
    } else {
        None
    }
}

/// The value of two hexadecimal digits `a` (high) and `b` (low).
pub open spec fn pair_value(a: u8, b: u8) -> u8 {
    (16 * (hex_digit(a)->0) + hex_digit(b)->0) as u8
}

/// `a` and `b` are both hexadecimal digits.
pub open spec fn is_hex_pair(a: u8, b: u8) -> bool {
    hex_digit(a) is Some && hex_digit(b) is Some
}

/// The colour of `#RRGGBB` (any number of leading `#`): `Some` exactly when
/// what follows the `#` is six ASCII hexadecimal digits, read in pairs.
pub open spec fn parse_hex_spec(bytes: Seq<u8>) -> Option<(u8, u8, u8)> {
    let h = strip_hashes(bytes);
    if h.len() == 6 && is_hex_pair(h[0], h[1]) && is_hex_pair(h[2], h[3]) && is_hex_pair(h[4], h[5]) {
        Some((pair_value(h[0], h[1]), pair_value(h[2], h[3]), pair_value(h[4], h[5])))
    } else {
        None
    }
}

/// A channel as the palette reads two bytes, the way `i64::from_str_radix`
/// reads them in base 16: two hexadecimal digits give their value, `+` and a
/// digit give the digit, `-` and a digit give minus the digit; any other pair
/// is no number and reads as 0.
pub open spec fn pair_or_zero(a: u8, b: u8) -> i16 {
    if is_hex_pair(a, b) {
        pair_value(a, b) as i16
    } else if a == 0x2B && hex_digit(b) is Some {
        (hex_digit(b)->0) as i16
    } else if a == 0x2D && hex_digit(b) is Some {
        -(hex_digit(b)->0) as i16
    } else {
        0
    }
}

/// The three channels that the palette reads from the first six bytes after
/// the leading `#`; `None` when fewer than six bytes follow.
pub open spec fn hex_channels_spec(bytes: Seq<u8>) -> Option<(i16, i16, i16)> {
    let h = strip_hashes(bytes);
    if h.len() < 6 {
        None
    } else {
        Some((pair_or_zero(h[0], h[1]), pair_or_zero(h[2], h[3]), pair_or_zero(h[4], h[5])))
    }
}

fn hex_digit_exec(c: u8) -> (r: Option<u8>)
    ensures
        r == hex_digit(c),
{
    if 0x30 <= c && c <= 0x39 {
        Some(c - 0x30)
    } else if 0x61 <= c && c <= 0x66 {
        Some(c - 0x61 + 10)
    } else if 0x41 <= c && c <= 0x46 {
        Some(c - 0x41 + 10)
    } else {
        None
    }
}

fn parse_hex_pair_exec(a: u8, b: u8) -> (r: Option<u8>)
    ensures
        r == (if is_hex_pair(a, b) {
            Some(pair_value(a, b))
        } else {
            None::<u8>
        }),
{
    match (hex_digit_exec(a), hex_digit_exec(b)) {
        (Some(x), Some(y)) => Some(16 * x + y),
        _ => None,
    }
}

/// Index in `b` where the bytes after the leading `#` start.
fn strip_hashes_index(b: &[u8]) -> (k: usize)
    ensures
        k <= b@.len(),
        b@.skip(k as int) == strip_hashes(b@),
{
    let mut k: usize = 0;
    proof {
        assert(b@.skip(0) =~= b@);
    }
    while k < b.len() && b[k] == 0x23
        invariant
            k <= b@.len(),
            strip_hashes(b@) == strip_hashes(b@.skip(k as int)),
        decreases b.len() - k,
    {
        proof {
            assert(b@.skip(k as int).drop_first() =~= b@.skip(k + 1));
        }
        k += 1;
    }
    proof {
        let t = b@.skip(k as int);
        if t.len() > 0 {
            assert(t[0] == b@[k as int]);
        }
    }
    k
}

/// Parses `#RRGGBB` into its three channels; `None` unless what follows the
/// leading `#` is six hexadecimal digits.
pub fn parse_hex_rgb(hex: &str) -> (r: Option<(u8, u8, u8)>)
    ensures
        r == parse_hex_spec(hex.spec_bytes()),
{
    let b = hex.as_bytes();
    let k = strip_hashes_index(b);
    if b.len() - k != 6 {
        return None;
    }
    proof {
        let h = b@.skip(k as int);
        assert(h[0] == b@[k as int] && h[1] == b@[k + 1] && h[2] == b@[k + 2]);
        assert(h[3] == b@[k + 3] && h[4] == b@[k + 4] && h[5] == b@[k + 5]);
    }
    let r = match parse_hex_pair_exec(b[k], b[k + 1]) {
        Some(v) => v,
        None => {
            return None;
        },
    };
    let g = match parse_hex_pair_exec(b[k + 2], b[k + 3]) {
        Some(v) => v,
        None => {
            return None;
        },
    };
    let bl = match parse_hex_pair_exec(b[k + 4], b[k + 5]) {
        Some(v) => v,
        None => {
            return None;
        },
    };
    Some((r, g, bl))
}

/// One channel as the palette reads it from two bytes.
fn channel_exec(a: u8, b: u8) -> (r: i16)
    ensures
        r == pair_or_zero(a, b),
{
    match parse_hex_pair_exec(a, b) {
        Some(v) => v as i16,
        None => match hex_digit_exec(b) {
            Some(d) => {
                if a == 0x2B {
                    d as i16
                } else if a == 0x2D {
                    -(d as i16)
                } else {
                    0
                }
            },
            None => 0,
        },
    }
}

/// The three channels that the palette reads from `#RRGGBB`: each pair of
/// bytes is read as `i64::from_str_radix` reads it in base 16 (two digits, or a
/// sign and one digit), and a pair that is no number gives 0; `None` when
/// fewer than six bytes follow the leading `#`.
pub fn hex_channels(hex: &str) -> (r: Option<(i16, i16, i16)>)
    ensures
        r == hex_channels_spec(hex.spec_bytes()),
{
    let b = hex.as_bytes();
    let k = strip_hashes_index(b);
    if b.len() - k < 6 {
        return None;
    }
    proof {
        let h = b@.skip(k as int);
        assert(h[0] == b@[k as int] && h[1] == b@[k + 1] && h[2] == b@[k + 2]);
        assert(h[3] == b@[k + 3] && h[4] == b@[k + 4] && h[5] == b@[k + 5]);
    }
    let r = channel_exec(b[k], b[k + 1]);
    let g = channel_exec(b[k + 2], b[k + 3]);
    let bl = channel_exec(b[k + 4], b[k + 5]);
    Some((r, g, bl))
}

} // verus!

verus! {

/// `c` is one of the ASCII characters `0`–`9`, `a`–`f`, `A`–`F`.
pub open spec fn is_ascii_hex_byte(c: u8) -> bool {
    (0x30 <= c <= 0x39) || (0x61 <= c <= 0x66) || (0x41 <= c <= 0x46)
}

/// Every ASCII hexadecimal digit reads as its value (`0`–`9` as 0–9, `a`–`f`
/// and `A`–`F` as 10–15) and no other byte is a digit.
pub proof fn law_hex_digits(c: u8)
    ensures
        0x30 <= c <= 0x39 ==> hex_digit(c) == Some((c - 0x30) as u8),
        0x61 <= c <= 0x66 ==> hex_digit(c) == Some((c - 0x61 + 10) as u8),
        0x41 <= c <= 0x46 ==> hex_digit(c) == Some((c - 0x41 + 10) as u8),
        !is_ascii_hex_byte(c) ==> hex_digit(c) is None,
{
}

/// `#` followed by six ASCII hexadecimal digits parses to the three pair
/// values, high digit first; the palette reads the same three channels.
pub proof fn law_parse_six_digits(h: Seq<u8>)
    requires
        h.len() == 6,
        forall|i: int| 0 <= i < 6 ==> is_ascii_hex_byte(#[trigger] h[i]),
    ensures
        ({
            let v = |c: u8| if c <= 0x39 { c - 0x30 } else if c <= 0x46 { c - 0x41 + 10 } else { c - 0x61 + 10 };
            let rgb = ((16 * v(h[0]) + v(h[1])) as u8, (16 * v(h[2]) + v(h[3])) as u8, (16 * v(h[4]) + v(h[5])) as u8);
            &&& parse_hex_spec(seq![0x23u8] + h) == Some(rgb)
            &&& hex_channels_spec(seq![0x23u8] + h) == Some((rgb.0 as i16, rgb.1 as i16, rgb.2 as i16))
        }),
{
    let b = seq![0x23u8] + h;
    assert(b.drop_first() =~= h);
    assert(is_ascii_hex_byte(h[0]));
    assert(strip_hashes(b) == strip_hashes(h));
    assert(strip_hashes(h) == h);
    assert(is_ascii_hex_byte(h[1]) && is_ascii_hex_byte(h[2]) && is_ascii_hex_byte(h[3]));
    assert(is_ascii_hex_byte(h[4]) && is_ascii_hex_byte(h[5]));
}

} // verus!
