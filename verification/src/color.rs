use vstd::prelude::*;

use crate::text::{
    decimal, digit_char, digit_chars, hex_byte, hex_digit_value, is_numeral_of, is_upper_hex_digit,
    lemma_decimal_is_numeral, lemma_digit_char_value, push_decimal, push_hex_byte,
};

verus! {

/// An sRGB color with 8-bit channels (0–255).
#[derive(Debug, Clone, Copy, PartialEq, Eq, Structural, Hash)]
pub struct Rgb {
    pub r: u8,
    pub g: u8,
    pub b: u8,
}

/// Which channel a color's hue is measured from: none for greys, else the
/// channel holding the largest value (red first, then green, on ties).
#[derive(Debug, Clone, Copy, PartialEq, Eq, Structural)]
pub enum HueSector {
    Achromatic,
    Red,
    Green,
    Blue,
}

/// The color encoded in a Windows `COLORREF` (`0x00BBGGRR`: red in the
/// lowest byte, the top byte ignored).
pub open spec fn colorref_color(x: u32) -> Rgb {
    Rgb { r: (x & 0xff) as u8, g: ((x >> 8u32) & 0xff) as u8, b: ((x >> 16u32) & 0xff) as u8 }
}

/// The `COLORREF` value of a color.
pub open spec fn colorref_of(c: Rgb) -> int {
    c.r + c.g * 256 + c.b * 65536
}

/// `#RRGGBB` with upper-case hex digits.
pub open spec fn hex_text(c: Rgb) -> Seq<char> {
    seq!['#'] + hex_byte(c.r) + hex_byte(c.g) + hex_byte(c.b)
}

/// The separator between two components of a CSS color function.
pub open spec fn comma() -> Seq<char> {
    seq![',', ' ']
}

/// `rgb(R, G, B)` with decimal channels.
pub open spec fn rgb_text(c: Rgb) -> Seq<char> {
    seq!['r', 'g', 'b', '('] + decimal(c.r as nat) + comma() + decimal(c.g as nat) + comma()
        + decimal(c.b as nat) + seq![')']
}

/// `name(A, B%, C%)` for a three-letter CSS color function name.
pub open spec fn percent_text(name: Seq<char>, a: u32, b: u32, c: u32) -> Seq<char> {
    name + seq!['('] + decimal(a as nat) + comma() + decimal(b as nat) + seq!['%'] + comma()
        + decimal(c as nat) + seq!['%', ')']
}

/// `hsl(H, S%, L%)`.
pub open spec fn hsl_text(h: u32, s: u32, l: u32) -> Seq<char> {
    percent_text(seq!['h', 's', 'l'], h, s, l)
}

/// `hsv(H, S%, V%)`.
pub open spec fn hsv_text(h: u32, s: u32, v: u32) -> Seq<char> {
    percent_text(seq!['h', 's', 'v'], h, s, v)
}

/// The largest of three channel values.
pub open spec fn max3(a: u8, b: u8, c: u8) -> u8 {
    if a >= b && a >= c {
        a
    } else if b >= c {
        b
    } else {
        c
    }
}

/// The smallest of three channel values.
pub open spec fn min3(a: u8, b: u8, c: u8) -> u8 {
    if a <= b && a <= c {
        a
    } else if b <= c {
        b
    } else {
        c
    }
}

/// The hue sector of a color, as the HSL and HSV hue formulas choose it.
pub open spec fn sector_of(c: Rgb) -> HueSector {
    let max: u8 = max3(c.r, c.g, c.b);
    if max == min3(c.r, c.g, c.b) {
        HueSector::Achromatic
    } else if c.r == max {
        HueSector::Red
    } else if c.g == max {
        HueSector::Green
    } else {
        HueSector::Blue
    }
}

/// The `egui::Color32` that `Color32::from_rgb` makes of three channels.
pub uninterp spec fn egui_opaque_color(r: u8, g: u8, b: u8) -> egui::Color32;

/// Lets `egui::Color32` stand in signatures; its bytes stay hidden.
#[verifier::external_type_specification]
#[verifier::external_body]
pub struct ExColor32(egui::Color32);

/// Calls `egui::Color32::from_rgb`. Its source builds the color
/// `[r, g, b, 255]` (opaque); the contract names that result as a function of
/// the three channels and says nothing of its bytes, which are private.
#[verifier::external_body]
fn color32_from_rgb(r: u8, g: u8, b: u8) -> (c: egui::Color32)
    ensures
        c == egui_opaque_color(r, g, b),
{
    egui::Color32::from_rgb(r, g, b)
}

impl Rgb {
    pub fn new(r: u8, g: u8, b: u8) -> (c: Rgb)
        ensures
            c == (Rgb { r, g, b }),
    {
        Rgb { r, g, b }
    }

    /// Decodes a Windows `COLORREF` (`0x00BBGGRR`).
    pub fn from_u32_bgr(x: u32) -> (c: Rgb)
        ensures
            c == colorref_color(x),
    {
        Rgb { r: (x & 0xff) as u8, g: ((x >> 8) & 0xff) as u8, b: ((x >> 16) & 0xff) as u8 }
    }

    /// `#RRGGBB`, upper case.
    pub fn to_hex(self) -> (s: String)
        ensures
            s@ == hex_text(self),
    {
        let mut s: String = String::new();
        proof {
            reveal_strlit("#");
        }
        s.append("#");
        push_hex_byte(&mut s, self.r);
        push_hex_byte(&mut s, self.g);
        push_hex_byte(&mut s, self.b);
        s
    }

    /// `rgb(R, G, B)`.
    pub fn to_rgb_string(self) -> (s: String)
        ensures
            s@ == rgb_text(self),
    {
        let mut s: String = String::new();
        proof {
            reveal_strlit("rgb(");
            reveal_strlit(", ");
            reveal_strlit(")");
        }
        s.append("rgb(");
        push_decimal(&mut s, self.r as u32);
        s.append(", ");
        push_decimal(&mut s, self.g as u32);
        s.append(", ");
        push_decimal(&mut s, self.b as u32);
        s.append(")");
        assert(s@ =~= rgb_text(self));
        s
    }

    /// The largest of the three channels.
    pub fn max_channel(self) -> (m: u8)
        ensures
            m == max3(self.r, self.g, self.b),
            m >= self.r && m >= self.g && m >= self.b,
            m == self.r || m == self.g || m == self.b,
    {
        if self.r >= self.g && self.r >= self.b {
            self.r
        } else if self.g >= self.b {
            self.g
        } else {
            self.b
        }
    }

    /// The smallest of the three channels.
    pub fn min_channel(self) -> (m: u8)
        ensures
            m == min3(self.r, self.g, self.b),
            m <= self.r && m <= self.g && m <= self.b,
            m == self.r || m == self.g || m == self.b,
    {
        if self.r <= self.g && self.r <= self.b {
            self.r
        } else if self.g <= self.b {
            self.g
        } else {
            self.b
        }
    }

    /// The channel that the hue is measured from; `Achromatic` exactly for
    /// greys, whose hue and saturation are zero.
    pub fn hue_sector(self) -> (h: HueSector)
        ensures
            h == sector_of(self),
            (h == HueSector::Achromatic) <==> (self.r == self.g && self.g == self.b),
            h == HueSector::Red ==> self.r >= self.g && self.r >= self.b,
            h == HueSector::Green ==> self.g > self.r && self.g >= self.b,
            h == HueSector::Blue ==> self.b > self.r && self.b > self.g,
    {
        let max: u8 = self.max_channel();
        let min: u8 = self.min_channel();
        if max == min {
            HueSector::Achromatic
        } else if self.r == max {
            HueSector::Red
        } else if self.g == max {
            HueSector::Green
        } else {
            HueSector::Blue
        }
    }

    /// The same color as an opaque `egui::Color32`.
    pub fn to_egui_color(self) -> (c: egui::Color32)
        ensures
            c == egui_opaque_color(self.r, self.g, self.b),
    {
        color32_from_rgb(self.r, self.g, self.b)
    }
}

/// Appends `name(A, B%, C%)`.
fn percent_string(name: &str, a: u32, b: u32, c: u32) -> (s: String)
    ensures
        s@ == percent_text(name@, a, b, c),
{
    let mut s: String = String::from_str(name);
    proof {
        reveal_strlit("(");
        reveal_strlit(", ");
        reveal_strlit("%, ");
        reveal_strlit("%)");
    }
    s.append("(");
    push_decimal(&mut s, a);
    s.append(", ");
    push_decimal(&mut s, b);
    s.append("%, ");
    push_decimal(&mut s, c);
    s.append("%)");
    assert(s@ =~= percent_text(name@, a, b, c));
    s
}

/// `hsl(H, S%, L%)` from the hue in degrees and the saturation and
/// lightness in percent.
pub fn hsl_string(h: u32, s: u32, l: u32) -> (t: String)
    ensures
        t@ == hsl_text(h, s, l),
{
    proof {
        reveal_strlit("hsl");
    }
    percent_string("hsl", h, s, l)
}

/// `hsv(H, S%, V%)` from the hue in degrees and the saturation and value
/// in percent.
pub fn hsv_string(h: u32, s: u32, v: u32) -> (t: String)
    ensures
        t@ == hsv_text(h, s, v),
{
    proof {
        reveal_strlit("hsv");
    }
    percent_string("hsv", h, s, v)
}

/// Decoding a `COLORREF` gives back the channels it was made of, and
/// re-encoding a decoded value loses nothing but the top byte.
pub proof fn lemma_colorref_roundtrip(c: Rgb, x: u32)
    ensures
        colorref_color(colorref_of(c) as u32) == c,
        colorref_of(colorref_color(x)) == x % 0x100_0000,
{
    let r: u8 = c.r;
    let g: u8 = c.g;
    let b: u8 = c.b;
    let v: u32 = colorref_of(c) as u32;
    assert((v & 0xff) as u8 == r && ((v >> 8u32) & 0xff) as u8 == g
        && ((v >> 16u32) & 0xff) as u8 == b) by (bit_vector)
        requires
            v == r as u32 + g as u32 * 256 + b as u32 * 65536,
    ;
    assert((x & 0xff) as u8 as u32 + ((x >> 8u32) & 0xff) as u8 as u32 * 256
        + ((x >> 16u32) & 0xff) as u8 as u32 * 65536 == x % 0x100_0000) by (bit_vector);
}

/// Two colors with the same hex string are the same color, and every hex
/// string is `#` and six upper-case hex digits.
pub proof fn lemma_hex_text_unique(c1: Rgb, c2: Rgb)
    ensures
        hex_text(c1).len() == 7,
        hex_text(c1)[0] == '#',
        forall|i: int| 1 <= i < 7 ==> digit_chars().contains(#[trigger] hex_text(c1)[i]),
        hex_text(c1) == hex_text(c2) ==> c1 == c2,
{
    let t: Seq<char> = hex_text(c1);
    assert forall|i: int| 1 <= i < 7 implies digit_chars().contains(#[trigger] t[i]) by {
        let k: int = if i == 1 {
            (c1.r / 16) as int
        } else if i == 2 {
            (c1.r % 16) as int
        } else if i == 3 {
            (c1.g / 16) as int
        } else if i == 4 {
            (c1.g % 16) as int
        } else if i == 5 {
            (c1.b / 16) as int
        } else {
            (c1.b % 16) as int
        };
        assert(t[i] == digit_chars()[k]);
    }
    if hex_text(c1) == hex_text(c2) {
        lemma_hex_byte_unique(c1.r, c2.r, hex_text(c1), hex_text(c2), 1);
        lemma_hex_byte_unique(c1.g, c2.g, hex_text(c1), hex_text(c2), 3);
        lemma_hex_byte_unique(c1.b, c2.b, hex_text(c1), hex_text(c2), 5);
    }
}

proof fn lemma_hex_byte_unique(a: u8, b: u8, s: Seq<char>, t: Seq<char>, at: int)
    requires
        0 <= at,
        at + 2 <= s.len(),
        s[at] == digit_char((a / 16) as int),
        s[at + 1] == digit_char((a % 16) as int),
        t[at] == digit_char((b / 16) as int),
        t[at + 1] == digit_char((b % 16) as int),
        s == t,
    ensures
        a == b,
{
    lemma_digit_char_unique((a / 16) as int, (b / 16) as int);
    lemma_digit_char_unique((a % 16) as int, (b % 16) as int);
}

proof fn lemma_digit_char_unique(i: int, j: int)
    requires
        0 <= i < 16,
        0 <= j < 16,
        digit_char(i) == digit_char(j),
    ensures
        i == j,
{
}

/// `to_hex` writes `#` and then red, green and blue in that order, each as
/// two upper-case hex digits, most significant first: reading the digit
/// pairs back gives the three channels.
pub proof fn lemma_hex_text_reads_back(c: Rgb)
    ensures
        hex_text(c).len() == 7,
        hex_text(c)[0] == '#',
        forall|i: int| 1 <= i < 7 ==> is_upper_hex_digit(#[trigger] hex_text(c)[i]),
        hex_digit_value(hex_text(c)[1]) * 16 + hex_digit_value(hex_text(c)[2]) == c.r,
        hex_digit_value(hex_text(c)[3]) * 16 + hex_digit_value(hex_text(c)[4]) == c.g,
        hex_digit_value(hex_text(c)[5]) * 16 + hex_digit_value(hex_text(c)[6]) == c.b,
{
    let t: Seq<char> = hex_text(c);
    lemma_digit_char_value((c.r / 16) as int);
    lemma_digit_char_value((c.r % 16) as int);
    lemma_digit_char_value((c.g / 16) as int);
    lemma_digit_char_value((c.g % 16) as int);
    lemma_digit_char_value((c.b / 16) as int);
    lemma_digit_char_value((c.b % 16) as int);
    assert(t[1] == digit_char((c.r / 16) as int));
    assert(t[2] == digit_char((c.r % 16) as int));
    assert(t[3] == digit_char((c.g / 16) as int));
    assert(t[4] == digit_char((c.g % 16) as int));
    assert(t[5] == digit_char((c.b / 16) as int));
    assert(t[6] == digit_char((c.b % 16) as int));
}

/// `to_rgb_string` writes `rgb(`, the decimal numerals of red, green and
/// blue in that order separated by `, `, and `)`.
pub proof fn lemma_rgb_text_fields(c: Rgb)
    ensures
        exists|x: Seq<char>, y: Seq<char>, z: Seq<char>|
            #![trigger is_numeral_of(x, c.r as nat), is_numeral_of(y, c.g as nat), is_numeral_of(z, c.b as nat)]
            {
                &&& is_numeral_of(x, c.r as nat)
                &&& is_numeral_of(y, c.g as nat)
                &&& is_numeral_of(z, c.b as nat)
                &&& rgb_text(c) == seq!['r', 'g', 'b', '('] + x + seq![',', ' '] + y + seq![',', ' ']
                    + z + seq![')']
            },
{
    lemma_decimal_is_numeral(c.r as nat);
    lemma_decimal_is_numeral(c.g as nat);
    lemma_decimal_is_numeral(c.b as nat);
    let x: Seq<char> = decimal(c.r as nat);
    let y: Seq<char> = decimal(c.g as nat);
    let z: Seq<char> = decimal(c.b as nat);
    assert(rgb_text(c) =~= seq!['r', 'g', 'b', '('] + x + seq![',', ' '] + y + seq![',', ' '] + z
        + seq![')']);
}

/// `hsl_string(h, s, l)` writes `hsl(`, the numeral of the hue, `, `, the
/// numeral of the saturation, `%, `, the numeral of the lightness and `%)`.
pub proof fn lemma_hsl_text_fields(h: u32, s: u32, l: u32)
    ensures
        exists|x: Seq<char>, y: Seq<char>, z: Seq<char>|
            #![trigger is_numeral_of(x, h as nat), is_numeral_of(y, s as nat), is_numeral_of(z, l as nat)]
            {
                &&& is_numeral_of(x, h as nat)
                &&& is_numeral_of(y, s as nat)
                &&& is_numeral_of(z, l as nat)
                &&& hsl_text(h, s, l) == seq!['h', 's', 'l', '('] + x + seq![',', ' '] + y + seq![
                    '%',
                    ',',
                    ' ',
                ] + z + seq!['%', ')']
            },
{
    lemma_decimal_is_numeral(h as nat);
    lemma_decimal_is_numeral(s as nat);
    lemma_decimal_is_numeral(l as nat);
    let x: Seq<char> = decimal(h as nat);
    let y: Seq<char> = decimal(s as nat);
    let z: Seq<char> = decimal(l as nat);
    assert(hsl_text(h, s, l) =~= seq!['h', 's', 'l', '('] + x + seq![',', ' '] + y + seq![
        '%',
        ',',
        ' ',
    ] + z + seq!['%', ')']);
}

/// `hsv_string(h, s, v)` writes `hsv(`, the numeral of the hue, `, `, the
/// numeral of the saturation, `%, `, the numeral of the value and `%)`.
pub proof fn lemma_hsv_text_fields(h: u32, s: u32, v: u32)
    ensures
        exists|x: Seq<char>, y: Seq<char>, z: Seq<char>|
            #![trigger is_numeral_of(x, h as nat), is_numeral_of(y, s as nat), is_numeral_of(z, v as nat)]
            {
                &&& is_numeral_of(x, h as nat)
                &&& is_numeral_of(y, s as nat)
                &&& is_numeral_of(z, v as nat)
                &&& hsv_text(h, s, v) == seq!['h', 's', 'v', '('] + x + seq![',', ' '] + y + seq![
                    '%',
                    ',',
                    ' ',
                ] + z + seq!['%', ')']
            },
{
    lemma_decimal_is_numeral(h as nat);
    lemma_decimal_is_numeral(s as nat);
    lemma_decimal_is_numeral(v as nat);
    let x: Seq<char> = decimal(h as nat);
    let y: Seq<char> = decimal(s as nat);
    let z: Seq<char> = decimal(v as nat);
    assert(hsv_text(h, s, v) =~= seq!['h', 's', 'v', '('] + x + seq![',', ' '] + y + seq![
        '%',
        ',',
        ' ',
    ] + z + seq!['%', ')']);
}

} // verus!
