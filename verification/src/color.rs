//! Colouring of encoding labels in batch output.

use vstd::prelude::*;

use vstd::wrapping::usize_specs::{wrapping_add, wrapping_mul};

use crate::text::{
    append_str, ascii_lower, contains_seq, contains_str, push_decimal, decimal, str_eq,
    to_ascii_lowercase, to_owned_string,
};

verus! {

/// When to colorize encoding labels in batch output.
#[derive(Clone, Copy, Debug, PartialEq, Eq)]
pub enum ColorWhen {
    /// Colorize when stdout is a terminal and `NO_COLOR` is unset.
    Auto,
    /// Never colorize (the default).
    Never,
    /// Always colorize (ANSI escapes; useful for piping to `less -R`).
    Always,
}

impl Default for ColorWhen {
    fn default() -> (r: Self)
        ensures
            r == ColorWhen::Never,
    {
        ColorWhen::Never
    }
}

/// What the terminal and the environment say about colour output.
#[derive(Clone, Debug)]
pub struct ColorEnv {
    /// Standard output is a terminal.
    pub stdout_is_terminal: bool,
    /// `NO_COLOR` is set (to any value).
    pub no_color: bool,
    /// The value of `COLORTERM`, when set and valid Unicode.
    pub colorterm: Option<String>,
    /// The value of `TERM`, when set and valid Unicode.
    pub term: Option<String>,
}

/// Colour is on: always, never, or when standard output is a terminal and `NO_COLOR` is unset.
pub open spec fn spec_enabled(when: ColorWhen, env: ColorEnv) -> bool {
    match when {
        ColorWhen::Never => false,
        ColorWhen::Always => true,
        ColorWhen::Auto => env.stdout_is_terminal && !env.no_color,
    }
}

impl ColorWhen {
    /// Whether labels are colorized under this setting in the given environment.
    pub fn enabled(self, env: &ColorEnv) -> (r: bool)
        ensures
            r == spec_enabled(self, *env),
    {
        match self {
            ColorWhen::Never => false,
            ColorWhen::Always => true,
            ColorWhen::Auto => env.stdout_is_terminal && !env.no_color,
        }
    }
}

/// 24-bit colour is used unless `NO_COLOR` is set, when `COLORTERM` names `truecolor` or
/// `24bit` (in any ASCII case), or `TERM` names `256color`, `xterm` or `kitty`.
pub open spec fn spec_use_truecolor(env: ColorEnv) -> bool {
    !env.no_color && ((env.colorterm matches Some(v) && (contains_seq(ascii_lower(v@), "truecolor"@)
        || contains_seq(ascii_lower(v@), "24bit"@))) || (env.term matches Some(t) && (contains_seq(
        t@,
        "256color"@,
    ) || contains_seq(t@, "xterm"@) || contains_seq(t@, "kitty"@))))
}

/// Whether 24-bit colour escapes are used.
pub fn use_truecolor(env: &ColorEnv) -> (r: bool)
    ensures
        r == spec_use_truecolor(*env),
{
    if env.no_color {
        return false;
    }
    if let Some(v) = &env.colorterm {
        let v = to_ascii_lowercase(v.as_str());
        if contains_str(v.as_str(), "truecolor") || contains_str(v.as_str(), "24bit") {
            return true;
        }
    }
    match &env.term {
        Some(t) => contains_str(t.as_str(), "256color") || contains_str(t.as_str(), "xterm")
            || contains_str(t.as_str(), "kitty"),
        None => false,
    }
}

/// The stable hash of a byte string: `h = h * 31 + b` over its bytes, wrapping.
pub open spec fn stable_hash(b: Seq<u8>) -> usize
    decreases b.len(),
{
    if b.len() == 0 {
        0
    } else {
        wrapping_add(wrapping_mul(stable_hash(b.drop_last()), 31), b.last() as usize)
    }
}

/// The stable hash of the UTF-8 bytes of `key`.
pub fn stable_index(key: &str) -> (r: usize)
    ensures
        r == stable_hash(vstd::utf8::encode_utf8(key@)),
{
    let bytes = key.as_bytes();
    let n = bytes.len();
    let mut acc: usize = 0;
    let mut i: usize = 0;
    while i < n
        invariant
            n == bytes@.len(),
            bytes@ == vstd::utf8::encode_utf8(key@),
            i <= n,
            acc == stable_hash(bytes@.take(i as int)),
        decreases n - i,
    {
        assert(bytes@.take(i + 1).drop_last() =~= bytes@.take(i as int));
        acc = acc.wrapping_mul(31).wrapping_add(bytes[i] as usize);
        i = i + 1;
    }
    assert(bytes@.take(n as int) =~= bytes@);
    acc
}

/// The chroma `c = (1 - |2l - 1|) s` of the palette's colours (saturation `s` = 72%,
/// lightness `l` = 58%), that is 0.6048, in units of 1/600000.
pub open spec fn chroma_units() -> int {
    362880
}

/// The lightness offset `m = l - c / 2` of the palette's colours, that is 0.2776, in units of
/// 1/600000.
pub open spec fn offset_units() -> int {
    166560
}

/// The second largest component `x = c (1 - |(h / 60) mod 2 - 1|)` of hue `h`, in units of
/// 1/600000.
pub open spec fn second_units(h: int) -> int {
    let r = h % 120;
    6048 * (60 - if r >= 60 {
        r - 60
    } else {
        60 - r
    })
}

/// A component `p` (in units of 1/600000) as an 8-bit channel: `round(255 (p + m))`,
/// rounding halves up.
pub open spec fn channel_byte(p: int) -> int {
    (2 * 255 * (p + offset_units()) + 600000) / 1200000
}

/// The components `(r', g', b')` of hue `h` (0 to 359) by its sector of 60 degrees.
pub open spec fn hue_components(h: int) -> (int, int, int) {
    let c = chroma_units();
    let x = second_units(h);
    if h <= 59 {
        (c, x, 0)
    } else if h <= 119 {
        (x, c, 0)
    } else if h <= 179 {
        (0, c, x)
    } else if h <= 239 {
        (0, x, c)
    } else if h <= 299 {
        (x, 0, c)
    } else {
        (c, 0, x)
    }
}

/// The colour of hue `h` (0 to 359) at 72% saturation and 58% lightness, by the HSL formula.
pub open spec fn hue_rgb(h: int) -> (u8, u8, u8) {
    let (r, g, b) = hue_components(h);
    (channel_byte(r) as u8, channel_byte(g) as u8, channel_byte(b) as u8)
}

/// `round(255 (p + m))` for a component `p` no larger than the chroma.
fn channel_of(p: u32) -> (r: u8)
    requires
        p <= chroma_units(),
    ensures
        r == channel_byte(p as int),
{
    let v: u64 = (2 * 255 * (p as u64 + 166560) + 600000) / 1200000;
    assert(v <= 255) by (nonlinear_arith)
        requires
            p <= 362880,
            v == (2 * 255 * (p + 166560) + 600000) / 1200000,
    ;
    v as u8
}

/// The colour of a hue (0 to 359) at 72% saturation and 58% lightness.
pub fn hsl_to_rgb(h: u32) -> (r: (u8, u8, u8))
    requires
        h < 360,
    ensures
        r == hue_rgb(h as int),
{
    let rem: u32 = h % 120;
    let k: u32 = 60 - if rem >= 60 {
        rem - 60
    } else {
        60 - rem
    };
    let mid = channel_of(6048 * k);
    let hi = channel_of(362880);
    let lo = channel_of(0);
    if h <= 59 {
        (hi, mid, lo)
    } else if h <= 119 {
        (mid, hi, lo)
    } else if h <= 179 {
        (lo, hi, mid)
    } else if h <= 239 {
        (lo, mid, hi)
    } else if h <= 299 {
        (mid, lo, hi)
    } else {
        (hi, lo, mid)
    }
}

/// The colour of an encoding: a hue taken from the stable hash of its lower-case name.
pub open spec fn spec_encoding_rgb(encoding: Seq<char>) -> (u8, u8, u8) {
    hue_rgb((stable_hash(vstd::utf8::encode_utf8(ascii_lower(encoding))) % 360) as int)
}

/// Stable hue gradient: one encoding, one colour.
pub fn encoding_rgb(encoding: &str) -> (r: (u8, u8, u8))
    ensures
        r == spec_encoding_rgb(encoding@),
{
    let norm = to_ascii_lowercase(encoding);
    let idx = stable_index(norm.as_str());
    let hue: u32 = (idx % 360) as u32;
    hsl_to_rgb(hue)
}

/// One encoding, one colour: names that differ only in ASCII case get the same colour.
pub proof fn lemma_color_ignores_case(a: Seq<char>, b: Seq<char>)
    requires
        ascii_lower(a) == ascii_lower(b),
    ensures
        spec_encoding_rgb(a) == spec_encoding_rgb(b),
{
}

/// Codes of the 16-colour ANSI palette used when 24-bit colour is off.
pub const ANSI_PALETTE: [u8; 12] = [91, 92, 93, 94, 95, 96, 31, 32, 33, 34, 35, 36];

/// The colour of a label: grey for `skip`, else the encoding's colour.
pub open spec fn label_rgb(encoding_key: Seq<char>) -> (u8, u8, u8) {
    if encoding_key == "skip"@ {
        (120u8, 120u8, 120u8)
    } else {
        spec_encoding_rgb(encoding_key)
    }
}

/// The text of a painted label.
pub open spec fn painted(label: Seq<char>, encoding_key: Seq<char>, when: ColorWhen, env: ColorEnv) -> Seq<char> {
    if !spec_enabled(when, env) {
        label
    } else if spec_use_truecolor(env) {
        let (r, g, b) = label_rgb(encoding_key);
        "\x1b[38;2;"@ + decimal(r as nat) + ";"@ + decimal(g as nat) + ";"@ + decimal(b as nat)
            + "m"@ + label + "\x1b[0m"@
    } else {
        let code = ANSI_PALETTE@[(stable_hash(vstd::utf8::encode_utf8(encoding_key)) % 12) as int];
        "\x1b["@ + decimal(code as nat) + "m"@ + label + "\x1b[0m"@
    }
}

/// Wraps `label` (such as `[UTF-8]` or `[SKIP]`) in an ANSI colour escape; the path stays
/// unstyled.
pub fn paint_label(label: &str, encoding_key: &str, when: ColorWhen, env: &ColorEnv) -> (r: String)
    ensures
        r@ == painted(label@, encoding_key@, when, *env),
{
    if !when.enabled(env) {
        return to_owned_string(label);
    }
    if use_truecolor(env) {
        let (r, g, b) = if str_eq(encoding_key, "skip") {
            (120u8, 120u8, 120u8)
        } else {
            encoding_rgb(encoding_key)
        };
        let mut s = to_owned_string("\x1b[38;2;");
        push_decimal(&mut s, r as usize);
        append_str(&mut s, ";");
        push_decimal(&mut s, g as usize);
        append_str(&mut s, ";");
        push_decimal(&mut s, b as usize);
        append_str(&mut s, "m");
        append_str(&mut s, label);
        append_str(&mut s, "\x1b[0m");
        s
    } else {
        let code = ANSI_PALETTE[stable_index(encoding_key) % 12];
        let mut s = to_owned_string("\x1b[");
        push_decimal(&mut s, code as usize);
        append_str(&mut s, "m");
        append_str(&mut s, label);
        append_str(&mut s, "\x1b[0m");
        s
    }
}

} // verus!
