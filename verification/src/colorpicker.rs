use vstd::prelude::*;
use crate::cell::Color;
use crate::strutil::chars_to_string;
use crate::textarea::{FileSaveError, TextArea};

verus! {

/// How far one click on a plus or minus button moves a color component.
pub const COLOR_STEPS: u8 = 33;

/// The step amount those buttons use.
pub const COLOR_STEP_AMT: u8 = u8::MAX / COLOR_STEPS + 1;

/// Which field of the picker the keyboard is editing.
#[derive(Clone, Copy, Debug, PartialEq, Eq, Structural)]
pub enum TextFocus {
    Hex,
    Red,
    Green,
    Blue,
}

impl Default for TextFocus {
    fn default() -> (t: TextFocus)
        ensures
            t == TextFocus::Hex,
    {
        TextFocus::Hex
    }
}

pub open spec fn is_dec_digit(c: char) -> bool {
    '0' <= c && c <= '9'
}

pub open spec fn dec_digit_val(c: char) -> int {
    c as u32 - '0' as u32
}

pub open spec fn all_dec_digits(s: Seq<char>) -> bool {
    forall|i: int| 0 <= i < s.len() ==> is_dec_digit(#[trigger] s[i])
}

/// The number a digit string denotes, most significant digit first.
pub open spec fn dec_value(s: Seq<char>) -> int
    decreases s.len(),
{
    if s.len() == 0 {
        0
    } else {
        dec_value(s.drop_last()) * 10 + dec_digit_val(s.last())
    }
}

pub open spec fn is_hex_digit(c: char) -> bool {
    is_dec_digit(c) || ('a' <= c && c <= 'f') || ('A' <= c && c <= 'F')
}

pub open spec fn hex_digit_val(c: char) -> int {
    if is_dec_digit(c) {
        dec_digit_val(c)
    } else if 'a' <= c && c <= 'f' {
        c as u32 - 'a' as u32 + 10
    } else {
        c as u32 - 'A' as u32 + 10
    }
}

pub open spec fn all_hex_digits(s: Seq<char>) -> bool {
    forall|i: int| 0 <= i < s.len() ==> is_hex_digit(#[trigger] s[i])
}

/// The byte two hex digits denote.
pub open spec fn hex_byte(hi: char, lo: char) -> int {
    hex_digit_val(hi) * 16 + hex_digit_val(lo)
}

/// The uppercase hex digit for a value below sixteen.
pub open spec fn hex_char_upper(v: int) -> char {
    if v == 0 { '0' }
    else if v == 1 { '1' }
    else if v == 2 { '2' }
    else if v == 3 { '3' }
    else if v == 4 { '4' }
    else if v == 5 { '5' }
    else if v == 6 { '6' }
    else if v == 7 { '7' }
    else if v == 8 { '8' }
    else if v == 9 { '9' }
    else if v == 10 { 'A' }
    else if v == 11 { 'B' }
    else if v == 12 { 'C' }
    else if v == 13 { 'D' }
    else if v == 14 { 'E' }
    else { 'F' }
}

/// A byte as two uppercase hex digits.
pub open spec fn hex2_of(v: u8) -> Seq<char> {
    seq![hex_char_upper(v as int / 16), hex_char_upper(v as int % 16)]
}

/// Three bytes as a six-digit uppercase hex color code.
pub open spec fn hex6_of(r: u8, g: u8, b: u8) -> Seq<char> {
    hex2_of(r) + hex2_of(g) + hex2_of(b)
}

/// A byte in decimal, most significant digit first, no leading zeros.
pub open spec fn dec_str_of(n: int) -> Seq<char>
    decreases n,
{
    if n < 10 {
        seq![hex_char_upper(n)]
    } else {
        dec_str_of(n / 10).push(hex_char_upper(n % 10))
    }
}

/// `s` with its first `#`, if any, taken out.
pub open spec fn strip_first_hash(s: Seq<char>) -> Seq<char>
    decreases s.len(),
{
    if s.len() == 0 {
        s
    } else if s[0] == '#' {
        s.drop_first()
    } else {
        seq![s[0]] + strip_first_hash(s.drop_first())
    }
}

/// Every character doubled, as a three-digit hex code expands to six.
pub open spec fn doubled(s: Seq<char>) -> Seq<char>
    decreases s.len(),
{
    if s.len() == 0 {
        s
    } else {
        doubled(s.drop_last()) + seq![s.last(), s.last()]
    }
}

/// The buffer as the hex reader leaves it: the first `#` stripped and a
/// three-digit code expanded to six.
pub open spec fn expanded(s: Seq<char>) -> Seq<char> {
    if strip_first_hash(s).len() == 3 {
        doubled(strip_first_hash(s))
    } else {
        strip_first_hash(s)
    }
}

/// Whether the hex reader accepts the buffer and writes the components.
pub open spec fn hex_parse_ok(s: Seq<char>) -> bool {
    s.len() == 6 && all_hex_digits(s)
}

/// What a byte field's buffer parses to: the number it spells, clamped
/// to 255, or nothing when it is not a (possibly `+`-signed) digit string.
pub open spec fn dec_parse(s: Seq<char>) -> Option<u8> {
    let digits = if s.len() > 0 && s[0] == '+' {
        s.drop_first()
    } else {
        s
    };
    if digits.len() > 0 && all_dec_digits(digits) {
        if dec_value(digits) > 255 {
            Option::Some(255u8)
        } else {
            Option::Some(dec_value(digits) as u8)
        }
    } else {
        Option::None
    }
}

/// The mathematical value of the picker.
pub ghost struct PickerView {
    pub r: u8,
    pub g: u8,
    pub b: u8,
    pub buffer: Seq<char>,
    pub pos: int,
    pub error: Option<FileSaveError>,
    pub focus: TextFocus,
}

/// The picker after its buffer has been read into the focused field.
pub open spec fn updated(v: PickerView) -> PickerView {
    match v.focus {
        TextFocus::Hex => {
            let b2 = expanded(v.buffer);
            let moved = PickerView {
                buffer: b2,
                pos: if v.pos <= b2.len() {
                    v.pos
                } else {
                    b2.len() as int
                },
                ..v
            };
            if hex_parse_ok(b2) {
                PickerView {
                    r: hex_byte(b2[0], b2[1]) as u8,
                    g: hex_byte(b2[2], b2[3]) as u8,
                    b: hex_byte(b2[4], b2[5]) as u8,
                    ..moved
                }
            } else {
                moved
            }
        },
        TextFocus::Red => match dec_parse(v.buffer) {
            Option::Some(val) => PickerView { r: val, ..v },
            Option::None => v,
        },
        TextFocus::Green => match dec_parse(v.buffer) {
            Option::Some(val) => PickerView { g: val, ..v },
            Option::None => v,
        },
        TextFocus::Blue => match dec_parse(v.buffer) {
            Option::Some(val) => PickerView { b: val, ..v },
            Option::None => v,
        },
    }
}

/// The picker after focus moves to `attn`: the old field is read in
/// first, then the new field's text fills the cleared buffer.
pub open spec fn refocused(v: PickerView, attn: TextFocus) -> PickerView {
    if v.focus == attn {
        v
    } else {
        let u = updated(v);
        let nb = match attn {
            TextFocus::Hex => hex6_of(u.r, u.g, u.b),
            TextFocus::Red => dec_str_of(u.r as int),
            TextFocus::Green => dec_str_of(u.g as int),
            TextFocus::Blue => dec_str_of(u.b as int),
        };
        PickerView {
            r: u.r,
            g: u.g,
            b: u.b,
            buffer: nb,
            pos: nb.len() as int,
            error: Option::None,
            focus: attn,
        }
    }
}

/// An interactive color mixer: three byte components and a text buffer
/// that edits one of them, or all three as a hex code.
#[derive(Debug)]
pub struct ColorPicker {
    pub r: u8,
    pub g: u8,
    pub b: u8,
    pub text: TextArea,
    pub focus: TextFocus,
}

impl View for ColorPicker {
    type V = PickerView;

    open spec fn view(&self) -> PickerView {
        PickerView {
            r: self.r,
            g: self.g,
            b: self.b,
            buffer: self.text.buffer@,
            pos: self.text.pos as int,
            error: self.text.error,
            focus: self.focus,
        }
    }
}

impl Default for ColorPicker {
    fn default() -> (c: ColorPicker)
        ensures
            c@ == (PickerView {
                r: 0,
                g: 0,
                b: 0,
                buffer: Seq::<char>::empty(),
                pos: 0,
                error: Option::None,
                focus: TextFocus::Hex,
            }),
    {
        ColorPicker { r: 0, g: 0, b: 0, text: TextArea::default(), focus: TextFocus::Hex }
    }
}

fn dec_digit(c: char) -> (r: Option<u8>)
    ensures
        r is Some <==> is_dec_digit(c),
        r is Some ==> r->Some_0 == dec_digit_val(c),
{
    if '0' <= c && c <= '9' {
        Option::Some((c as u8) - ('0' as u8))
    } else {
        Option::None
    }
}

fn hex_digit(c: char) -> (r: Option<u8>)
    ensures
        r is Some <==> is_hex_digit(c),
        r is Some ==> r->Some_0 == hex_digit_val(c),
{
    if '0' <= c && c <= '9' {
        Option::Some((c as u8) - ('0' as u8))
    } else if 'a' <= c && c <= 'f' {
        Option::Some((c as u8) - ('a' as u8) + 10)
    } else if 'A' <= c && c <= 'F' {
        Option::Some((c as u8) - ('A' as u8) + 10)
    } else {
        Option::None
    }
}

fn hex_char_of(v: u8) -> (c: char)
    requires
        v < 16,
    ensures
        c == hex_char_upper(v as int),
{
    if v == 0 { '0' }
    else if v == 1 { '1' }
    else if v == 2 { '2' }
    else if v == 3 { '3' }
    else if v == 4 { '4' }
    else if v == 5 { '5' }
    else if v == 6 { '6' }
    else if v == 7 { '7' }
    else if v == 8 { '8' }
    else if v == 9 { '9' }
    else if v == 10 { 'A' }
    else if v == 11 { 'B' }
    else if v == 12 { 'C' }
    else if v == 13 { 'D' }
    else if v == 14 { 'E' }
    else { 'F' }
}

/// The six uppercase hex digits of three bytes.
fn hex6_chars(r: u8, g: u8, b: u8) -> (v: Vec<char>)
    ensures
        v@ == hex6_of(r, g, b),
{
    let mut v: Vec<char> = Vec::new();
    v.push(hex_char_of(r / 16));
    v.push(hex_char_of(r % 16));
    v.push(hex_char_of(g / 16));
    v.push(hex_char_of(g % 16));
    v.push(hex_char_of(b / 16));
    v.push(hex_char_of(b % 16));
    proof {
        assert(v@ =~= hex6_of(r, g, b));
    }
    v
}

/// A byte in decimal.
fn dec_chars(n: u8) -> (v: Vec<char>)
    ensures
        v@ == dec_str_of(n as int),
{
    let mut v: Vec<char> = Vec::new();
    if n >= 100 {
        v.push(hex_char_of(n / 100));
        v.push(hex_char_of((n / 10) % 10));
        v.push(hex_char_of(n % 10));
        proof {
            assert(dec_str_of(n as int) == dec_str_of(n as int / 10).push(
                hex_char_upper(n as int % 10),
            ));
            assert(dec_str_of(n as int / 10) == dec_str_of(n as int / 100).push(
                hex_char_upper((n as int / 10) % 10),
            ));
            assert(dec_str_of(n as int / 100) == seq![hex_char_upper(n as int / 100)]);
            assert(v@ =~= dec_str_of(n as int));
        }
    } else if n >= 10 {
        v.push(hex_char_of(n / 10));
        v.push(hex_char_of(n % 10));
        proof {
            assert(dec_str_of(n as int) == dec_str_of(n as int / 10).push(
                hex_char_upper(n as int % 10),
            ));
            assert(dec_str_of(n as int / 10) == seq![hex_char_upper(n as int / 10)]);
            assert(v@ =~= dec_str_of(n as int));
        }
    } else {
        v.push(hex_char_of(n));
        proof {
            assert(dec_str_of(n as int) == seq![hex_char_upper(n as int)]);
            assert(v@ =~= dec_str_of(n as int));
        }
    }
    v
}

impl ColorPicker {
    /// Puts the picker back to black with an empty buffer.
    pub fn reset(&mut self)
        ensures
            final(self)@ == (PickerView {
                r: 0,
                g: 0,
                b: 0,
                buffer: Seq::<char>::empty(),
                pos: 0,
                error: Option::None,
                focus: TextFocus::Hex,
            }),
    {
        *self = ColorPicker::default();
    }

    /// The three components, each tagged with the focus that edits it.
    pub fn colors(&self) -> (v: [(u8, TextFocus); 3])
        ensures
            v@ == seq![
                (self.r, TextFocus::Red),
                (self.g, TextFocus::Green),
                (self.b, TextFocus::Blue),
            ],
    {
        let v = [(self.r, TextFocus::Red), (self.g, TextFocus::Green), (self.b, TextFocus::Blue)];
        proof {
            assert(v@ =~= seq![
                (self.r, TextFocus::Red),
                (self.g, TextFocus::Green),
                (self.b, TextFocus::Blue),
            ]);
        }
        v
    }

    /// The cursor position, for placing the terminal cursor.
    pub fn pos(&self) -> (p: u16)
        requires
            self.text.wf(),
            self.text.buffer@.len() <= u16::MAX as int,
        ensures
            p == self.text.pos,
    {
        self.text.pos as u16
    }

    /// The mixed color as the canvas stores it.
    pub fn get_style_color(&self) -> (c: Color)
        ensures
            c == Color::Rgb(self.r, self.g, self.b),
    {
        Color::Rgb(self.r, self.g, self.b)
    }

    /// The hex code shown beside the swatch: the live buffer while it is
    /// being edited, otherwise the components formatted.
    pub fn get_hex_str(&self) -> (s: String)
        ensures
            self.focus == TextFocus::Hex ==> s@ == self.text.buffer@,
            self.focus != TextFocus::Hex ==> s@ == hex6_of(self.r, self.g, self.b),
    {
        match self.focus {
            TextFocus::Hex => chars_to_string(&self.text.buffer),
            _ => chars_to_string(&hex6_chars(self.r, self.g, self.b)),
        }
    }

    /// Raises the targeted component by one step, saturating at the top.
    pub fn plus(&mut self, target: TextFocus)
        ensures
            final(self)@ == (match target {
                TextFocus::Hex => old(self)@,
                TextFocus::Red => PickerView {
                    r: if old(self).r + COLOR_STEP_AMT <= 255 {
                        (old(self).r + COLOR_STEP_AMT) as u8
                    } else {
                        255u8
                    },
                    ..old(self)@
                },
                TextFocus::Green => PickerView {
                    g: if old(self).g + COLOR_STEP_AMT <= 255 {
                        (old(self).g + COLOR_STEP_AMT) as u8
                    } else {
                        255u8
                    },
                    ..old(self)@
                },
                TextFocus::Blue => PickerView {
                    b: if old(self).b + COLOR_STEP_AMT <= 255 {
                        (old(self).b + COLOR_STEP_AMT) as u8
                    } else {
                        255u8
                    },
                    ..old(self)@
                },
            }),
    {
        match target {
            TextFocus::Hex => {},
            TextFocus::Red => {
                self.r = if self.r <= 255 - COLOR_STEP_AMT {
                    self.r + COLOR_STEP_AMT
                } else {
                    255
                };
            },
            TextFocus::Green => {
                self.g = if self.g <= 255 - COLOR_STEP_AMT {
                    self.g + COLOR_STEP_AMT
                } else {
                    255
                };
            },
            TextFocus::Blue => {
                self.b = if self.b <= 255 - COLOR_STEP_AMT {
                    self.b + COLOR_STEP_AMT
                } else {
                    255
                };
            },
        }
    }

    /// Lowers the targeted component by one step, saturating at zero.
    pub fn minus(&mut self, target: TextFocus)
        ensures
            final(self)@ == (match target {
                TextFocus::Hex => old(self)@,
                TextFocus::Red => PickerView {
                    r: if old(self).r >= COLOR_STEP_AMT {
                        (old(self).r - COLOR_STEP_AMT) as u8
                    } else {
                        0u8
                    },
                    ..old(self)@
                },
                TextFocus::Green => PickerView {
                    g: if old(self).g >= COLOR_STEP_AMT {
                        (old(self).g - COLOR_STEP_AMT) as u8
                    } else {
                        0u8
                    },
                    ..old(self)@
                },
                TextFocus::Blue => PickerView {
                    b: if old(self).b >= COLOR_STEP_AMT {
                        (old(self).b - COLOR_STEP_AMT) as u8
                    } else {
                        0u8
                    },
                    ..old(self)@
                },
            }),
    {
        match target {
            TextFocus::Hex => {},
            TextFocus::Red => {
                self.r = if self.r >= COLOR_STEP_AMT {
                    self.r - COLOR_STEP_AMT
                } else {
                    0
                };
            },
            TextFocus::Green => {
                self.g = if self.g >= COLOR_STEP_AMT {
                    self.g - COLOR_STEP_AMT
                } else {
                    0
                };
            },
            TextFocus::Blue => {
                self.b = if self.b >= COLOR_STEP_AMT {
                    self.b - COLOR_STEP_AMT
                } else {
                    0
                };
            },
        }
    }

    /// Moves focus to the next field, reading the current buffer in and
    /// refilling it from the newly focused field.
    pub fn tab(&mut self)
        requires
            old(self).text.wf(),
        ensures
            final(self).text.wf(),
            final(self)@ == refocused(
                old(self)@,
                match old(self).focus {
                    TextFocus::Hex => TextFocus::Red,
                    TextFocus::Red => TextFocus::Green,
                    TextFocus::Green => TextFocus::Blue,
                    TextFocus::Blue => TextFocus::Hex,
                },
            ),
    {
        let next = match self.focus {
            TextFocus::Hex => TextFocus::Red,
            TextFocus::Red => TextFocus::Green,
            TextFocus::Green => TextFocus::Blue,
            TextFocus::Blue => TextFocus::Hex,
        };
        self.set_attention(next);
    }

    /// Moves focus to the previous field.
    pub fn backtab(&mut self)
        requires
            old(self).text.wf(),
        ensures
            final(self).text.wf(),
            final(self)@ == refocused(
                old(self)@,
                match old(self).focus {
                    TextFocus::Hex => TextFocus::Blue,
                    TextFocus::Red => TextFocus::Hex,
                    TextFocus::Green => TextFocus::Red,
                    TextFocus::Blue => TextFocus::Green,
                },
            ),
    {
        let prev = match self.focus {
            TextFocus::Hex => TextFocus::Blue,
            TextFocus::Red => TextFocus::Hex,
            TextFocus::Green => TextFocus::Red,
            TextFocus::Blue => TextFocus::Green,
        };
        self.set_attention(prev);
    }

    /// Sets the targeted component outright, as a slider drag does.
    pub fn set(&mut self, target: TextFocus, val: u8)
        ensures
            final(self)@ == (match target {
                TextFocus::Hex => old(self)@,
                TextFocus::Red => PickerView { r: val, ..old(self)@ },
                TextFocus::Green => PickerView { g: val, ..old(self)@ },
                TextFocus::Blue => PickerView { b: val, ..old(self)@ },
            }),
    {
        match target {
            TextFocus::Hex => {},
            TextFocus::Red => self.r = val,
            TextFocus::Green => self.g = val,
            TextFocus::Blue => self.b = val,
        }
    }

    /// Reads the buffer as a hex color code: a leading `#` is dropped, a
    /// three-digit code is doubled out, and six hex digits set all three
    /// components. Anything else leaves the components alone.
    fn buf_to_hex(&mut self)
        requires
            old(self).text.wf(),
        ensures
            final(self).text.wf(),
            final(self)@ == (PickerView { focus: old(self)@.focus, ..updated(
                PickerView { focus: TextFocus::Hex, ..old(self)@ },
            ) }),
    {
        let ghost orig = self.text.buffer@;
        // take out the first '#', if any
        let n = self.text.buffer.len();
        let mut hash_at: Option<usize> = Option::None;
        let mut i: usize = 0;
        while i < n
            invariant
                n == self.text.buffer@.len(),
                i <= n,
                match hash_at {
                    Option::Some(h) => h < i && self.text.buffer@[h as int] == '#' && (forall|
                        j: int,
                    |
                        0 <= j < h ==> self.text.buffer@[j] != '#'),
                    Option::None => forall|j: int| 0 <= j < i ==> self.text.buffer@[j] != '#',
                },
            decreases n - i,
        {
            if hash_at.is_none() && self.text.buffer[i] == '#' {
                hash_at = Option::Some(i);
            }
            i = i + 1;
        }
        match hash_at {
            Option::Some(h) => {
                self.text.buffer.remove(h);
                proof {
                    lemma_strip_at(orig, h as int);
                }
            },
            Option::None => {
                proof {
                    lemma_strip_none(orig);
                }
            },
        }
        // a three-digit code means each digit counts double
        if self.text.buffer.len() == 3 {
            let ghost b1 = self.text.buffer@;
            let mut wide: Vec<char> = Vec::new();
            let m = self.text.buffer.len();
            for k in 0..m
                invariant
                    m == self.text.buffer@.len(),
                    self.text.buffer@ == b1,
                    wide@ == doubled(b1.take(k as int)),
            {
                let c = self.text.buffer[k];
                wide.push(c);
                wide.push(c);
                proof {
                    assert(b1.take(k + 1).drop_last() =~= b1.take(k as int));
                    assert(wide@ =~= doubled(b1.take(k + 1)));
                }
            }
            proof {
                assert(b1.take(m as int) =~= b1);
            }
            self.text.buffer = wide;
        }
        // clamp the cursor back into the changed buffer
        if self.text.pos > self.text.buffer.len() {
            self.text.pos = self.text.buffer.len();
        }
        // six hex digits set the components
        let b = &self.text.buffer;
        if b.len() == 6 {
            let d0 = hex_digit(b[0]);
            let d1 = hex_digit(b[1]);
            let d2 = hex_digit(b[2]);
            let d3 = hex_digit(b[3]);
            let d4 = hex_digit(b[4]);
            let d5 = hex_digit(b[5]);
            match (d0, d1, d2, d3, d4, d5) {
                (
                    Option::Some(h0),
                    Option::Some(h1),
                    Option::Some(h2),
                    Option::Some(h3),
                    Option::Some(h4),
                    Option::Some(h5),
                ) => {
                    proof {
                        assert(all_hex_digits(self.text.buffer@)) by {
                            assert forall|j: int|
                                0 <= j < self.text.buffer@.len() implies is_hex_digit(
                                #[trigger] self.text.buffer@[j],
                            ) by {
                                assert(j == 0 || j == 1 || j == 2 || j == 3 || j == 4 || j == 5);
                            }
                        }
                    }
                    self.r = h0 * 16 + h1;
                    self.g = h2 * 16 + h3;
                    self.b = h4 * 16 + h5;
                },
                _ => {
                    proof {
                        assert(!all_hex_digits(self.text.buffer@));
                    }
                },
            }
        }
    }

    /// Reads the buffer as a decimal byte; a value past 255 clamps there.
    fn buf_to_comp(&self) -> (r: Option<u8>)
        ensures
            r == dec_parse(self.text.buffer@),
    {
        let b = &self.text.buffer;
        let n = b.len();
        let start: usize = if n > 0 && b[0] == '+' {
            1
        } else {
            0
        };
        let ghost digits = if start == 1 {
            b@.drop_first()
        } else {
            b@
        };
        if n == start {
            return Option::None;
        }
        let mut acc: u32 = 0;
        let mut k = start;
        while k < n
            invariant
                n == b@.len(),
                b@ == self.text.buffer@,
                start <= k <= n,
                start == 0 || start == 1,
                (start == 1) == (n > 0 && b@[0] == '+'),
                start == 1 ==> digits == b@.drop_first(),
                start == 0 ==> digits == b@,
                digits.len() == n - start,
                forall|j: int| 0 <= j < k - start ==> is_dec_digit(#[trigger] digits[j]),
                acc == if dec_value(digits.take(k - start)) <= 256 {
                    dec_value(digits.take(k - start))
                } else {
                    256int
                },
            decreases n - k,
        {
            let c = b[k];
            proof {
                assert(digits[k - start] == b@[k as int]);
            }
            match dec_digit(c) {
                Option::None => {
                    proof {
                        assert(!is_dec_digit(digits[k - start]));
                        assert(!all_dec_digits(digits));
                    }
                    return Option::None;
                },
                Option::Some(d) => {
                    let ghost pre = digits.take(k - start);
                    proof {
                        assert(digits.take(k - start + 1).drop_last() =~= pre);
                        assert(digits.take(k - start + 1).last() == digits[k - start]);
                        lemma_dec_value_nonneg(pre);
                    }
                    acc = if acc * 10 + (d as u32) <= 256 {
                        acc * 10 + (d as u32)
                    } else {
                        256
                    };
                },
            }
            k = k + 1;
        }
        proof {
            assert(digits.take(n - start) =~= digits);
        }
        if acc > 255 {
            Option::Some(255)
        } else {
            Option::Some(acc as u8)
        }
    }

    /// Reads the buffer into whichever field has focus.
    pub fn update(&mut self)
        requires
            old(self).text.wf(),
        ensures
            final(self).text.wf(),
            final(self)@ == updated(old(self)@),
    {
        match self.focus {
            TextFocus::Hex => self.buf_to_hex(),
            TextFocus::Red => {
                if let Option::Some(v) = self.buf_to_comp() {
                    self.r = v;
                }
            },
            TextFocus::Green => {
                if let Option::Some(v) = self.buf_to_comp() {
                    self.g = v;
                }
            },
            TextFocus::Blue => {
                if let Option::Some(v) = self.buf_to_comp() {
                    self.b = v;
                }
            },
        }
    }

    /// Moves focus to `attn`: the old buffer is read in first and the new
    /// field's current text fills the cleared buffer, cursor at its end.
    pub fn set_attention(&mut self, attn: TextFocus)
        requires
            old(self).text.wf(),
        ensures
            final(self).text.wf(),
            final(self)@ == refocused(old(self)@, attn),
    {
        if self.focus == attn {
            return ;
        }
        self.update();
        self.text.clear();
        let fresh: Vec<char> = match attn {
            TextFocus::Hex => hex6_chars(self.r, self.g, self.b),
            TextFocus::Red => dec_chars(self.r),
            TextFocus::Green => dec_chars(self.g),
            TextFocus::Blue => dec_chars(self.b),
        };
        self.text.pos = fresh.len();
        self.text.buffer = fresh;
        self.focus = attn;
    }

    /// Types one character into the focused field: hex digits only while
    /// the hex code is focused, decimal digits only in a component field,
    /// where the value takes effect at once.
    pub fn input(&mut self, c: char)
        requires
            old(self).text.wf(),
        ensures
            final(self).text.wf(),
            final(self)@ == (match old(self).focus {
                TextFocus::Hex => {
                    if is_hex_digit(c) {
                        typed(old(self)@, c)
                    } else {
                        old(self)@
                    }
                },
                _ => {
                    if is_dec_digit(c) {
                        updated(typed(old(self)@, c))
                    } else {
                        old(self)@
                    }
                },
            }),
    {
        match self.focus {
            TextFocus::Hex => {
                let is_ok = hex_digit(c).is_some();
                if !is_ok {
                    return ;
                }
                self.text.input(c, 6);
            },
            _ => {
                let is_ok = dec_digit(c).is_some();
                if !is_ok {
                    return ;
                }
                self.text.input(c, 6);
                self.update();
            },
        }
    }
}

/// The picker after one character is typed at the cursor, honoring the
/// six-character cap.
pub open spec fn typed(v: PickerView, c: char) -> PickerView {
    if v.pos >= 6 {
        v
    } else {
        PickerView { buffer: v.buffer.insert(v.pos, c), pos: v.pos + 1, ..v }
    }
}

proof fn lemma_dec_value_nonneg(s: Seq<char>)
    requires
        all_dec_digits(s),
    ensures
        dec_value(s) >= 0,
    decreases s.len(),
{
    if s.len() > 0 {
        assert(forall|i: int| 0 <= i < s.drop_last().len() ==> is_dec_digit(#[trigger] s.drop_last()[i]));
        lemma_dec_value_nonneg(s.drop_last());
        assert(is_dec_digit(s.last()));
    }
}

/// Removing the first `#`, found at `h`, is what `strip_first_hash` does.
proof fn lemma_strip_at(s: Seq<char>, h: int)
    requires
        0 <= h < s.len(),
        s[h] == '#',
        forall|j: int| 0 <= j < h ==> s[j] != '#',
    ensures
        strip_first_hash(s) == s.remove(h),
    decreases s.len(),
{
    if h == 0 {
        assert(s.drop_first() =~= s.remove(0));
    } else {
        assert(s.drop_first()[h - 1] == '#');
        assert(forall|j: int| 0 <= j < h - 1 ==> s.drop_first()[j] == s[j + 1] && s[j + 1] != '#');
        lemma_strip_at(s.drop_first(), h - 1);
        assert(seq![s[0]] + s.drop_first().remove(h - 1) =~= s.remove(h));
    }
}

/// A buffer without `#` passes through `strip_first_hash` unchanged.
proof fn lemma_strip_none(s: Seq<char>)
    requires
        forall|j: int| 0 <= j < s.len() ==> s[j] != '#',
    ensures
        strip_first_hash(s) == s,
    decreases s.len(),
{
    if s.len() > 0 {
        assert(forall|j: int| 0 <= j < s.drop_first().len() ==> s.drop_first()[j] != '#');
        lemma_strip_none(s.drop_first());
        assert(seq![s[0]] + s.drop_first() =~= s);
    }
}

} // verus!
