//! Font resources and the control-code-driven text layout engine.

use vstd::prelude::*;
use crate::color::{ColorRgb, ColorRgba};
use crate::error::{Error, MResult};
use crate::fixed::FRAC_ONE;

verus! {

/// Most pixels a glyph may span in either direction, and the bound on
/// glyph advances and line heights.  These are engine limits, enforced
/// when a font is added: together with `MAX_TEXT_LENGTH` they keep every
/// layout position sum within `i32`.
pub const MAX_GLYPH_DIMENSION: usize = 4096;

/// Most characters one layout call accepts.
pub const MAX_TEXT_LENGTH: usize = 65536;

/// What a color code resolves to: an RGB override or a reset to the
/// original color.
#[derive(Clone, Copy, PartialEq, Eq, Structural, Debug)]
pub enum ControlCode {
    Color(ColorRgb),
    ResetColor,
}

/// The static table mapping single characters to color overrides.
pub struct ColorCodes {
    pub codes: Vec<(char, ControlCode)>,
}

/// The control code a character resolves to: the first table entry with
/// that character.
pub open spec fn spec_color_code(
    codes: Seq<(char, ControlCode)>,
    c: char,
) -> Option<ControlCode>
    decreases codes.len(),
{
    if codes.len() == 0 {
        Option::None
    } else if codes.first().0 == c {
        Option::Some(codes.first().1)
    } else {
        spec_color_code(codes.drop_first(), c)
    }
}

impl ColorCodes {
    /// Resolve a color-code character.
    pub fn lookup(&self, c: char) -> (r: Option<ControlCode>)
        ensures
            r == spec_color_code(self.codes@, c),
    {
        let n = self.codes.len();
        let mut i: usize = 0;
        proof {
            assert(self.codes@.subrange(0, n as int) =~= self.codes@);
        }
        while i < n
            invariant
                n == self.codes@.len(),
                i <= n,
                spec_color_code(self.codes@, c) == spec_color_code(
                    self.codes@.subrange(i as int, n as int),
                    c,
                ),
            decreases n - i,
        {
            let ghost suffix = self.codes@.subrange(i as int, n as int);
            proof {
                assert(suffix.first() == self.codes@[i as int]);
                assert(suffix.drop_first() =~= self.codes@.subrange(i as int + 1, n as int));
            }
            if self.codes[i].0 == c {
                return Some(self.codes[i].1);
            }
            i = i + 1;
        }
        proof {
            assert(self.codes@.subrange(n as int, n as int) =~= Seq::<(char, ControlCode)>::empty());
        }
        None
    }
}

impl Default for ColorCodes {
    /// The built-in table: the digits 0 through 7 select black, red, green,
    /// yellow, blue, cyan, magenta and white, and `x` resets to the
    /// original color.
    fn default() -> (r: ColorCodes)
        ensures
            r.codes@ == spec_default_color_codes(),
    {
        let mut codes: Vec<(char, ControlCode)> = Vec::new();
        codes.push(('0', ControlCode::Color(ColorRgb { r: 0, g: 0, b: 0 })));
        codes.push(('1', ControlCode::Color(ColorRgb { r: FRAC_ONE, g: 0, b: 0 })));
        codes.push(('2', ControlCode::Color(ColorRgb { r: 0, g: FRAC_ONE, b: 0 })));
        codes.push(('3', ControlCode::Color(ColorRgb { r: FRAC_ONE, g: FRAC_ONE, b: 0 })));
        codes.push(('4', ControlCode::Color(ColorRgb { r: 0, g: 0, b: FRAC_ONE })));
        codes.push(('5', ControlCode::Color(ColorRgb { r: 0, g: FRAC_ONE, b: FRAC_ONE })));
        codes.push(('6', ControlCode::Color(ColorRgb { r: FRAC_ONE, g: 0, b: FRAC_ONE })));
        codes.push(
            ('7', ControlCode::Color(ColorRgb { r: FRAC_ONE, g: FRAC_ONE, b: FRAC_ONE })),
        );
        codes.push(('x', ControlCode::ResetColor));
        proof {
            assert(codes@ =~= spec_default_color_codes());
        }
        ColorCodes { codes }
    }
}

/// The built-in color-code table.
pub open spec fn spec_default_color_codes() -> Seq<(char, ControlCode)> {
    seq![
        ('0', ControlCode::Color(ColorRgb { r: 0, g: 0, b: 0 })),
        ('1', ControlCode::Color(ColorRgb { r: FRAC_ONE, g: 0, b: 0 })),
        ('2', ControlCode::Color(ColorRgb { r: 0, g: FRAC_ONE, b: 0 })),
        ('3', ControlCode::Color(ColorRgb { r: FRAC_ONE, g: FRAC_ONE, b: 0 })),
        ('4', ControlCode::Color(ColorRgb { r: 0, g: 0, b: FRAC_ONE })),
        ('5', ControlCode::Color(ColorRgb { r: 0, g: FRAC_ONE, b: FRAC_ONE })),
        ('6', ControlCode::Color(ColorRgb { r: FRAC_ONE, g: 0, b: FRAC_ONE })),
        ('7', ControlCode::Color(ColorRgb { r: FRAC_ONE, g: FRAC_ONE, b: FRAC_ONE })),
        ('x', ControlCode::ResetColor),
    ]
}

/// One glyph: its bitmap (one alpha byte per pixel) and metrics.
pub struct FontCharacter {
    pub character: char,
    pub data: Vec<u8>,
    pub width: usize,
    pub height: usize,
    pub advance_x: i32,
}

impl FontCharacter {
    /// The glyph's data matches its dimensions and its metrics respect the
    /// engine's bounds.
    pub open spec fn wf(&self) -> bool {
        &&& self.data@.len() == self.width * self.height
        &&& self.width <= MAX_GLYPH_DIMENSION
        &&& self.height <= MAX_GLYPH_DIMENSION
        &&& -(MAX_GLYPH_DIMENSION as int) <= self.advance_x <= MAX_GLYPH_DIMENSION as int
    }
}

/// Parameters for one glyph of a font to add.
pub struct AddFontParameterCharacter {
    pub character: char,
    pub data: Vec<u8>,
    pub width: usize,
    pub height: usize,
    pub advance_x: i32,
}

impl AddFontParameterCharacter {
    /// The glyph's pixel data and metrics are consistent and within the
    /// engine's size limits.
    pub open spec fn valid(&self) -> bool {
        &&& self.data@.len() == self.width * self.height
        &&& self.width <= MAX_GLYPH_DIMENSION
        &&& self.height <= MAX_GLYPH_DIMENSION
        &&& -(MAX_GLYPH_DIMENSION as int) <= self.advance_x <= MAX_GLYPH_DIMENSION as int
    }

    /// Check this glyph.
    pub fn validate(&self) -> (r: MResult<()>)
        ensures
            r is Ok <==> self.valid(),
    {
        if self.width > MAX_GLYPH_DIMENSION || self.height > MAX_GLYPH_DIMENSION {
            return Err(Error::Validation);
        }
        if self.advance_x > MAX_GLYPH_DIMENSION as i32
            || self.advance_x < -(MAX_GLYPH_DIMENSION as i32) {
            return Err(Error::Validation);
        }
        proof {
            crate::fixed::lemma_mul_bound(
                self.width as int,
                self.height as int,
                MAX_GLYPH_DIMENSION as int,
                MAX_GLYPH_DIMENSION as int,
            );
        }
        if self.data.len() != self.width * self.height {
            return Err(Error::Validation);
        }
        Ok(())
    }
}

/// Parameters for adding a font resource.
pub struct AddFontParameter {
    pub characters: Vec<AddFontParameterCharacter>,
    pub line_height: u32,
}

impl AddFontParameter {
    /// Every glyph is consistent, glyph characters are pairwise distinct,
    /// and the line height respects the engine's bounds.
    pub open spec fn valid(&self) -> bool {
        &&& forall|i: int|
            0 <= i < self.characters@.len() ==> (#[trigger] self.characters@[i]).valid()
        &&& forall|i: int, j: int|
            0 <= i < j < self.characters@.len() ==> self.characters@[i].character
                != self.characters@[j].character
        &&& self.line_height <= MAX_GLYPH_DIMENSION as u32
    }

    /// Check every glyph, distinctness, and the line height.
    pub fn validate(&self) -> (r: MResult<()>)
        ensures
            r is Ok <==> self.valid(),
    {
        if self.line_height > MAX_GLYPH_DIMENSION as u32 {
            return Err(Error::Validation);
        }
        let n = self.characters.len();
        let mut i: usize = 0;
        while i < n
            invariant
                n == self.characters@.len(),
                i <= n,
                forall|j: int| 0 <= j < i ==> (#[trigger] self.characters@[j]).valid(),
                forall|a: int, b: int|
                    0 <= a < b < i ==> self.characters@[a].character
                        != self.characters@[b].character,
            decreases n - i,
        {
            self.characters[i].validate()?;
            let mut j: usize = 0;
            while j < i
                invariant
                    i < n,
                    n == self.characters@.len(),
                    j <= i,
                    forall|a: int|
                        0 <= a < j ==> self.characters@[a].character != self.characters@[
                            i as int
                        ].character,
                decreases i - j,
            {
                if self.characters[j].character == self.characters[i].character {
                    return Err(Error::Validation);
                }
                j = j + 1;
            }
            i = i + 1;
        }
        Ok(())
    }
}

/// A loaded font resource.
pub struct Font {
    /// Vertical advance between lines, in pixels.
    pub line_height: u32,
    /// The glyphs, keyed by character.
    pub characters: Vec<(char, FontCharacter)>,
    /// The color-code table.
    pub colors: ColorCodes,
}

/// The glyph stored for `c`: the first entry with that character.
pub open spec fn spec_glyph(
    chars: Seq<(char, FontCharacter)>,
    c: char,
) -> Option<FontCharacter>
    decreases chars.len(),
{
    if chars.len() == 0 {
        Option::None
    } else if chars.first().0 == c {
        Option::Some(chars.first().1)
    } else {
        spec_glyph(chars.drop_first(), c)
    }
}

impl Font {
    /// Every glyph is consistent, the line height is bounded, and the
    /// color table is the built-in one.
    pub open spec fn wf(&self) -> bool {
        &&& forall|i: int|
            0 <= i < self.characters@.len() ==> (#[trigger] self.characters@[i]).1.wf()
                && self.characters@[i].1.character == self.characters@[i].0
        &&& self.line_height <= MAX_GLYPH_DIMENSION as u32
        &&& self.colors.codes@ == spec_default_color_codes()
    }

    /// Look up the glyph for a character.
    pub fn glyph(&self, c: char) -> (r: Option<&FontCharacter>)
        ensures
            match r {
                Option::Some(g) => spec_glyph(self.characters@, c) == Option::Some(*g),
                Option::None => spec_glyph(self.characters@, c) is None,
            },
    {
        let n = self.characters.len();
        let mut i: usize = 0;
        proof {
            assert(self.characters@.subrange(0, n as int) =~= self.characters@);
        }
        while i < n
            invariant
                n == self.characters@.len(),
                i <= n,
                spec_glyph(self.characters@, c) == spec_glyph(
                    self.characters@.subrange(i as int, n as int),
                    c,
                ),
            decreases n - i,
        {
            let ghost suffix = self.characters@.subrange(i as int, n as int);
            proof {
                assert(suffix.first() == self.characters@[i as int]);
                assert(suffix.drop_first() =~= self.characters@.subrange(i as int + 1, n as int));
            }
            if self.characters[i].0 == c {
                return Some(&self.characters[i].1);
            }
            i = i + 1;
        }
        proof {
            assert(self.characters@.subrange(n as int, n as int) =~= Seq::<
                (char, FontCharacter),
            >::empty());
        }
        None
    }

    /// Build a font resource from validated parameters.
    pub fn load_from_parameters(parameter: AddFontParameter) -> (r: Font)
        requires
            parameter.valid(),
        ensures
            r.wf(),
            r.line_height == parameter.line_height,
            r.characters@.len() == parameter.characters@.len(),
            forall|i: int|
                0 <= i < parameter.characters@.len() ==> (#[trigger] r.characters@[i]).0
                    == parameter.characters@[i].character,
            r.colors.codes@ == spec_default_color_codes(),
    {
        let line_height = parameter.line_height;
        let mut characters: Vec<(char, FontCharacter)> = Vec::new();
        let n = parameter.characters.len();
        let ghost orig = parameter.characters@;
        let mut source = parameter.characters;
        let mut i: usize = 0;
        proof {
            assert(source@ =~= orig.subrange(0, n as int));
        }
        while i < n
            invariant
                n == orig.len(),
                i <= n,
                source@ == orig.subrange(i as int, n as int),
                forall|j: int| 0 <= j < orig.len() ==> (#[trigger] orig[j]).valid(),
                characters@.len() == i,
                forall|j: int|
                    0 <= j < i ==> (#[trigger] characters@[j]).1.wf() && characters@[j].1.character
                        == characters@[j].0 && characters@[j].0 == orig[j].character,
            decreases n - i,
        {
            proof {
                assert(source@[0] == orig[i as int]);
            }
            let c = source.remove(0);
            let glyph = FontCharacter {
                character: c.character,
                data: c.data,
                width: c.width,
                height: c.height,
                advance_x: c.advance_x,
            };
            characters.push((glyph.character, glyph));
            proof {
                assert(source@ =~= orig.subrange(i as int + 1, n as int));
            }
            i = i + 1;
        }
        Font { line_height, characters, colors: ColorCodes::default() }
    }
}

/// Alignment of a line of glyphs.
#[derive(Clone, Copy, PartialEq, Eq, Structural, Debug)]
pub enum TextAlignment {
    Left,
    Right,
    Center,
    /// Start the line at the tab stop with the given index.
    Table(usize),
}

impl Default for TextAlignment {
    /// Lines are left-aligned by default.
    fn default() -> (r: TextAlignment)
        ensures
            r == TextAlignment::Left,
    {
        TextAlignment::Left
    }
}

/// The persistent state a glyph is emitted under.
#[derive(Clone, Copy, PartialEq, Eq, Structural, Debug)]
pub struct TextState {
    pub alignment: TextAlignment,
    /// Vertical position of the current line, in pixels.
    pub y: u32,
    pub bold: bool,
    pub underline: bool,
    pub italics: bool,
}

impl Default for TextState {
    /// Left-aligned at the top with no style flags.
    fn default() -> (r: TextState)
        ensures
            r == (TextState {
                alignment: TextAlignment::Left,
                y: 0,
                bold: false,
                underline: false,
                italics: false,
            }),
    {
        TextState {
            alignment: TextAlignment::Left,
            y: 0,
            bold: false,
            underline: false,
            italics: false,
        }
    }
}

/// One positioned glyph of a laid-out string.
#[derive(Clone, Copy, PartialEq, Eq, Structural, Debug)]
pub struct DrawableCharacter {
    pub character: char,
    pub color: ColorRgba,
    pub state: TextState,
    /// Whether a newline or directive lay between the previous glyph and
    /// this one: this glyph starts a new line.
    pub alignment_changed: bool,
    pub x: i32,
    pub y: i32,
}

/// A text draw request: line alignment, base color, target resolution and
/// tab stops.
#[derive(Clone, Copy)]
pub struct FontDrawRequest {
    pub alignment: TextAlignment,
    pub color: ColorRgba,
    pub resolution: crate::parameters::Resolution,
    pub tab_offsets: [i32; 8],
}

/// The character scanner's state between characters.
#[derive(Clone, Copy, PartialEq, Eq, Structural, Debug)]
pub struct TextScanState {
    /// The previous character was the color escape marker.
    pub color_code_entry: bool,
    /// The previous character was the format escape marker.
    pub pipe_entry: bool,
    /// The color the next glyph is emitted in.
    pub modified_color: ColorRgba,
    /// The state the next glyph is emitted under.
    pub state: TextState,
    /// A newline or directive occurred since the last emitted glyph.
    pub alignment_changed: bool,
}

/// Whether a character is an ASCII control character.
pub open spec fn spec_is_control(c: char) -> bool {
    (c as u32) < 32 || (c as u32) == 127
}

/// Emit a glyph for `c` in the current state, if the font has one; an
/// unknown character is skipped without error.
pub open spec fn spec_scan_emit(
    font_chars: Seq<(char, FontCharacter)>,
    st: TextScanState,
    c: char,
) -> (TextScanState, Option<DrawableCharacter>) {
    match spec_glyph(font_chars, c) {
        Option::Some(_) => (
            TextScanState { alignment_changed: false, ..st },
            Option::Some(
                DrawableCharacter {
                    character: c,
                    color: st.modified_color,
                    state: st.state,
                    alignment_changed: st.alignment_changed,
                    x: 0,
                    y: 0,
                },
            ),
        ),
        Option::None => (st, Option::None),
    }
}

/// Advance to the next line: the vertical position grows by the line
/// height and the alignment returns to the line default.
pub open spec fn spec_scan_newline(
    st: TextScanState,
    line_height: u32,
    default_alignment: TextAlignment,
) -> TextScanState {
    TextScanState {
        alignment_changed: true,
        state: TextState {
            y: (st.state.y + line_height) as u32,
            alignment: default_alignment,
            ..st.state
        },
        ..st
    }
}

/// One step of the character scanner.
pub open spec fn spec_scan_step(
    font_chars: Seq<(char, FontCharacter)>,
    codes: Seq<(char, ControlCode)>,
    line_height: u32,
    original_color: ColorRgba,
    default_alignment: TextAlignment,
    st: TextScanState,
    c: char,
) -> (TextScanState, Option<DrawableCharacter>) {
    if spec_is_control(c) {
        let st1 = TextScanState { color_code_entry: false, pipe_entry: false, ..st };
        if c == '\n' {
            (spec_scan_newline(st1, line_height, default_alignment), Option::None)
        } else {
            (st1, Option::None)
        }
    } else if st.color_code_entry {
        let st1 = TextScanState { color_code_entry: false, ..st };
        if c != '^' {
            match spec_color_code(codes, c) {
                Option::Some(ControlCode::Color(rgb)) => (
                    TextScanState {
                        modified_color: ColorRgba {
                            r: rgb.r,
                            g: rgb.g,
                            b: rgb.b,
                            a: st.modified_color.a,
                        },
                        ..st1
                    },
                    Option::None,
                ),
                Option::Some(ControlCode::ResetColor) => (
                    TextScanState { modified_color: original_color, ..st1 },
                    Option::None,
                ),
                Option::None => (st1, Option::None),
            }
        } else {
            spec_scan_emit(font_chars, st1, c)
        }
    } else if c == '^' {
        (TextScanState { color_code_entry: true, pipe_entry: false, ..st }, Option::None)
    } else if st.pipe_entry {
        let st1 = TextScanState { pipe_entry: false, ..st };
        if c != '|' {
            let st2 = TextScanState { alignment_changed: true, ..st1 };
            let st3 = if c == 'c' {
                TextScanState {
                    state: TextState { alignment: TextAlignment::Center, ..st2.state },
                    ..st2
                }
            } else if c == 'r' {
                TextScanState {
                    state: TextState { alignment: TextAlignment::Right, ..st2.state },
                    ..st2
                }
            } else if c == 'l' {
                TextScanState {
                    state: TextState { alignment: TextAlignment::Left, ..st2.state },
                    ..st2
                }
            } else if c == 't' {
                let next = match st2.state.alignment {
                    TextAlignment::Table(n) => (n + 1) as usize,
                    _ => 0usize,
                };
                TextScanState {
                    state: TextState { alignment: TextAlignment::Table(next), ..st2.state },
                    ..st2
                }
            } else if c == 'n' {
                spec_scan_newline(st2, line_height, default_alignment)
            } else if c == 'b' {
                TextScanState { state: TextState { bold: true, ..st2.state }, ..st2 }
            } else if c == 'u' {
                TextScanState { state: TextState { underline: true, ..st2.state }, ..st2 }
            } else if c == 'i' {
                TextScanState { state: TextState { italics: true, ..st2.state }, ..st2 }
            } else {
                st2
            };
            (st3, Option::None)
        } else {
            spec_scan_emit(font_chars, st1, c)
        }
    } else if c == '|' {
        (TextScanState { pipe_entry: true, ..st }, Option::None)
    } else {
        spec_scan_emit(font_chars, st, c)
    }
}

/// The glyphs the scanner emits for `s`, starting from state `st`.
pub open spec fn spec_scan(
    font_chars: Seq<(char, FontCharacter)>,
    codes: Seq<(char, ControlCode)>,
    line_height: u32,
    original_color: ColorRgba,
    default_alignment: TextAlignment,
    st: TextScanState,
    s: Seq<char>,
) -> Seq<DrawableCharacter>
    decreases s.len(),
{
    if s.len() == 0 {
        Seq::empty()
    } else {
        let step = spec_scan_step(
            font_chars,
            codes,
            line_height,
            original_color,
            default_alignment,
            st,
            s.first(),
        );
        (match step.1 {
            Option::Some(d) => seq![d],
            Option::None => Seq::empty(),
        }) + spec_scan(
            font_chars,
            codes,
            line_height,
            original_color,
            default_alignment,
            step.0,
            s.drop_first(),
        )
    }
}

impl Font {
    /// One exec step of the character scanner.
    fn scan_step(
        &self,
        original_color: ColorRgba,
        default_alignment: TextAlignment,
        st: TextScanState,
        c: char,
    ) -> (r: (TextScanState, Option<DrawableCharacter>))
        requires
            st.state.y + self.line_height <= u32::MAX,
            match st.state.alignment {
                TextAlignment::Table(n) => n < usize::MAX,
                _ => true,
            },
        ensures
            r == spec_scan_step(
                self.characters@,
                self.colors.codes@,
                self.line_height,
                original_color,
                default_alignment,
                st,
                c,
            ),
            r.0.state.y <= st.state.y + self.line_height,
            match r.0.state.alignment {
                TextAlignment::Table(k2) => k2 == 0 || r.0.state.alignment == default_alignment
                    || match st.state.alignment {
                    TextAlignment::Table(k1) => k2 <= k1 + 1,
                    _ => false,
                },
                _ => true,
            },
    {
        let u = c as u32;
        if u < 32 || u == 127 {
            let mut st1 = st;
            st1.color_code_entry = false;
            st1.pipe_entry = false;
            if c == '\n' {
                st1.alignment_changed = true;
                st1.state.y = st1.state.y + self.line_height;
                st1.state.alignment = default_alignment;
            }
            (st1, None)
        } else if st.color_code_entry {
            let mut st1 = st;
            st1.color_code_entry = false;
            if c != '^' {
                match self.colors.lookup(c) {
                    Some(ControlCode::Color(rgb)) => {
                        st1.modified_color = ColorRgba {
                            r: rgb.r,
                            g: rgb.g,
                            b: rgb.b,
                            a: st.modified_color.a,
                        };
                    },
                    Some(ControlCode::ResetColor) => {
                        st1.modified_color = original_color;
                    },
                    None => {},
                }
                (st1, None)
            } else {
                self.scan_emit(st1, c)
            }
        } else if c == '^' {
            let mut st1 = st;
            st1.color_code_entry = true;
            st1.pipe_entry = false;
            (st1, None)
        } else if st.pipe_entry {
            let mut st1 = st;
            st1.pipe_entry = false;
            if c != '|' {
                st1.alignment_changed = true;
                if c == 'c' {
                    st1.state.alignment = TextAlignment::Center;
                } else if c == 'r' {
                    st1.state.alignment = TextAlignment::Right;
                } else if c == 'l' {
                    st1.state.alignment = TextAlignment::Left;
                } else if c == 't' {
                    let next: usize = match st1.state.alignment {
                        TextAlignment::Table(n) => n + 1,
                        _ => 0,
                    };
                    st1.state.alignment = TextAlignment::Table(next);
                } else if c == 'n' {
                    st1.state.y = st1.state.y + self.line_height;
                    st1.state.alignment = default_alignment;
                } else if c == 'b' {
                    st1.state.bold = true;
                } else if c == 'u' {
                    st1.state.underline = true;
                } else if c == 'i' {
                    st1.state.italics = true;
                }
                (st1, None)
            } else {
                self.scan_emit(st1, c)
            }
        } else if c == '|' {
            let mut st1 = st;
            st1.pipe_entry = true;
            (st1, None)
        } else {
            self.scan_emit(st, c)
        }
    }

    /// Emit the glyph for `c`, if the font has one.
    fn scan_emit(&self, st: TextScanState, c: char) -> (r: (
        TextScanState,
        Option<DrawableCharacter>,
    ))
        ensures
            r == spec_scan_emit(self.characters@, st, c),
    {
        match self.glyph(c) {
            Some(_) => {
                let mut st1 = st;
                st1.alignment_changed = false;
                (
                    st1,
                    Some(
                        DrawableCharacter {
                            character: c,
                            color: st.modified_color,
                            state: st.state,
                            alignment_changed: st.alignment_changed,
                            x: 0,
                            y: 0,
                        },
                    ),
                )
            },
            None => (st, None),
        }
    }

    /// Run the scanner over a whole string: the glyphs to draw, in order,
    /// with their colors and line states but not yet positioned.
    pub fn iterate_characters(
        &self,
        string: &str,
        color: ColorRgba,
        text_position: TextState,
    ) -> (r: Vec<DrawableCharacter>)
        requires
            self.wf(),
            string@.len() <= MAX_TEXT_LENGTH,
            text_position.y <= 0x4000_0000,
            match text_position.alignment {
                TextAlignment::Table(n) => n < usize::MAX - MAX_TEXT_LENGTH,
                _ => true,
            },
        ensures
            r@ == spec_scan(
                self.characters@,
                self.colors.codes@,
                self.line_height,
                color,
                text_position.alignment,
                spec_initial_scan_state(color, text_position),
                string@,
            ),
    {
        let n = string.unicode_len();
        let mut out: Vec<DrawableCharacter> = Vec::new();
        let mut st = TextScanState {
            color_code_entry: false,
            pipe_entry: false,
            modified_color: color,
            state: text_position,
            alignment_changed: false,
        };
        let ghost st0 = st;
        let mut i: usize = 0;
        proof {
            assert(string@.subrange(0, n as int) =~= string@);
        }
        while i < n
            invariant
                self.wf(),
                n == string@.len(),
                n <= MAX_TEXT_LENGTH,
                i <= n,
                st.state.y <= text_position.y + i * 4096,
                text_position.y <= 0x4000_0000,
                match text_position.alignment {
                    TextAlignment::Table(k) => k < usize::MAX - MAX_TEXT_LENGTH,
                    _ => true,
                },
                match st.state.alignment {
                    TextAlignment::Table(k) => k < usize::MAX - MAX_TEXT_LENGTH + i,
                    _ => true,
                },
                spec_scan(
                    self.characters@,
                    self.colors.codes@,
                    self.line_height,
                    color,
                    text_position.alignment,
                    st0,
                    string@,
                ) == out@ + spec_scan(
                    self.characters@,
                    self.colors.codes@,
                    self.line_height,
                    color,
                    text_position.alignment,
                    st,
                    string@.subrange(i as int, n as int),
                ),
            decreases n - i,
        {
            let c = string.get_char(i);
            let ghost suffix = string@.subrange(i as int, n as int);
            proof {
                assert(suffix.first() == string@[i as int]);
                assert(suffix.drop_first() =~= string@.subrange(i as int + 1, n as int));
            }
            let step = self.scan_step(color, text_position.alignment, st, c);
            st = step.0;
            match step.1 {
                Some(d) => {
                    out.push(d);
                },
                None => {},
            }
            i = i + 1;
        }
        proof {
            assert(string@.subrange(n as int, n as int) =~= Seq::<char>::empty());
            assert(out@ + Seq::<DrawableCharacter>::empty() =~= out@);
        }
        out
    }
}

/// The scanner's state before the first character.
pub open spec fn spec_initial_scan_state(
    color: ColorRgba,
    text_position: TextState,
) -> TextScanState {
    TextScanState {
        color_code_entry: false,
        pipe_entry: false,
        modified_color: color,
        state: text_position,
        alignment_changed: false,
    }
}

/// The index starting the line that glyph `i` belongs to: the nearest
/// alignment-change event at or before it.
pub open spec fn spec_line_start(draws: Seq<DrawableCharacter>, i: int) -> int
    decreases i,
{
    if i <= 0 {
        0
    } else if draws[i].alignment_changed {
        i
    } else {
        spec_line_start(draws, i - 1)
    }
}

/// The first alignment-change event at or after `j`, or the end of the
/// glyph list.
pub open spec fn spec_line_end(draws: Seq<DrawableCharacter>, j: int) -> int
    decreases draws.len() - j,
{
    if j < 0 || j >= draws.len() {
        draws.len() as int
    } else if draws[j].alignment_changed {
        j
    } else {
        spec_line_end(draws, j + 1)
    }
}

/// The horizontal advance of the glyph for `c`.
pub open spec fn spec_advance_of(font_chars: Seq<(char, FontCharacter)>, c: char) -> int {
    match spec_glyph(font_chars, c) {
        Option::Some(g) => g.advance_x as int,
        Option::None => 0,
    }
}

/// The total advance of glyphs `from..to`.
pub open spec fn spec_sum_advances(
    font_chars: Seq<(char, FontCharacter)>,
    draws: Seq<DrawableCharacter>,
    from: int,
    to: int,
) -> int
    decreases to - from,
{
    if to <= from {
        0
    } else {
        spec_sum_advances(font_chars, draws, from, to - 1) + spec_advance_of(
            font_chars,
            draws[to - 1].character,
        )
    }
}

/// Truncating halving, as the layout's center rule computes it.
pub open spec fn spec_half(t: int) -> int {
    if t >= 0 {
        t / 2
    } else {
        -((-t) / 2)
    }
}

/// The starting x offset of the line beginning at `s`: left-aligned lines
/// start at 0; a table line starts at its tab stop (0 when unconfigured);
/// a right-aligned line ends at the surface width; a centered line adds
/// half its total advance back.
pub open spec fn spec_line_offset(
    font_chars: Seq<(char, FontCharacter)>,
    draws: Seq<DrawableCharacter>,
    s: int,
    width: int,
    tabs: Seq<i32>,
) -> int {
    match draws[s].state.alignment {
        TextAlignment::Left => 0,
        TextAlignment::Table(n) => if n < tabs.len() {
            tabs[n as int] as int
        } else {
            0
        },
        TextAlignment::Right => width - spec_sum_advances(
            font_chars,
            draws,
            s,
            spec_line_end(draws, s + 1),
        ),
        TextAlignment::Center => {
            let total = spec_sum_advances(font_chars, draws, s, spec_line_end(draws, s + 1));
            (width - total) + spec_half(total)
        },
    }
}

/// The x position of glyph `i`: its line's starting offset plus the
/// advances of the glyphs before it on the line.
pub open spec fn spec_char_x(
    font_chars: Seq<(char, FontCharacter)>,
    draws: Seq<DrawableCharacter>,
    width: int,
    tabs: Seq<i32>,
    i: int,
) -> int {
    spec_line_offset(font_chars, draws, spec_line_start(draws, i), width, tabs)
        + spec_sum_advances(font_chars, draws, spec_line_start(draws, i), i)
}

/// The laid-out glyphs of a string: the scanner's output with each glyph
/// positioned on its line.
pub open spec fn spec_layout(
    font_chars: Seq<(char, FontCharacter)>,
    codes: Seq<(char, ControlCode)>,
    line_height: u32,
    alignment: TextAlignment,
    color: ColorRgba,
    width: int,
    tabs: Seq<i32>,
    s: Seq<char>,
) -> Seq<DrawableCharacter> {
    let scanned = spec_scan(
        font_chars,
        codes,
        line_height,
        color,
        alignment,
        spec_initial_scan_state(
            color,
            TextState { alignment, y: 0, bold: false, underline: false, italics: false },
        ),
        s,
    );
    Seq::new(
        scanned.len(),
        |i: int|
            DrawableCharacter {
                x: spec_char_x(font_chars, scanned, width, tabs, i) as i32,
                y: scanned[i].state.y as i32,
                ..scanned[i]
            },
    )
}

/// A glyph found in a well-formed font is well formed.
proof fn lemma_glyph_wf(chars: Seq<(char, FontCharacter)>, c: char)
    requires
        forall|i: int| 0 <= i < chars.len() ==> (#[trigger] chars[i]).1.wf(),
        spec_glyph(chars, c) is Some,
    ensures
        spec_glyph(chars, c)->Some_0.wf(),
    decreases chars.len(),
{
    if chars.len() > 0 && chars.first().0 != c {
        assert(forall|i: int|
            0 <= i < chars.drop_first().len() ==> #[trigger] chars.drop_first()[i]
                == chars[i + 1]);
        lemma_glyph_wf(chars.drop_first(), c);
    }
}

/// Every color in a code table is a valid fraction triple.
pub open spec fn spec_codes_valid(codes: Seq<(char, ControlCode)>) -> bool {
    forall|i: int|
        0 <= i < codes.len() ==> match (#[trigger] codes[i]).1 {
            ControlCode::Color(rgb) => rgb.valid(),
            ControlCode::ResetColor => true,
        }
}

/// A code resolved from a valid table is a valid color.
proof fn lemma_color_code_valid(codes: Seq<(char, ControlCode)>, c: char)
    requires
        spec_codes_valid(codes),
    ensures
        match spec_color_code(codes, c) {
            Option::Some(ControlCode::Color(rgb)) => rgb.valid(),
            _ => true,
        },
    decreases codes.len(),
{
    if codes.len() > 0 && codes.first().0 != c {
        assert(forall|i: int|
            0 <= i < codes.drop_first().len() ==> #[trigger] codes.drop_first()[i]
                == codes[i + 1]);
        lemma_color_code_valid(codes.drop_first(), c);
    }
}

/// Every glyph the scanner emits exists in the font, and its line position
/// stays within the bound the line height allows.
proof fn lemma_scan_props(
    font_chars: Seq<(char, FontCharacter)>,
    codes: Seq<(char, ControlCode)>,
    line_height: u32,
    original_color: ColorRgba,
    default_alignment: TextAlignment,
    st: TextScanState,
    s: Seq<char>,
)
    requires
        line_height <= 4096,
    ensures
        spec_scan(font_chars, codes, line_height, original_color, default_alignment, st, s).len()
            <= s.len(),
        forall|i: int|
            0 <= i < spec_scan(
                font_chars,
                codes,
                line_height,
                original_color,
                default_alignment,
                st,
                s,
            ).len() ==> spec_glyph(
                font_chars,
                (#[trigger] spec_scan(
                    font_chars,
                    codes,
                    line_height,
                    original_color,
                    default_alignment,
                    st,
                    s,
                )[i]).character,
            ) is Some && spec_scan(
                font_chars,
                codes,
                line_height,
                original_color,
                default_alignment,
                st,
                s,
            )[i].state.y <= st.state.y + s.len() * 4096,
        spec_codes_valid(codes) && original_color.valid() && st.modified_color.valid()
            ==> forall|i: int|
            0 <= i < spec_scan(
                font_chars,
                codes,
                line_height,
                original_color,
                default_alignment,
                st,
                s,
            ).len() ==> (#[trigger] spec_scan(
                font_chars,
                codes,
                line_height,
                original_color,
                default_alignment,
                st,
                s,
            )[i]).color.valid(),
    decreases s.len(),
{
    if s.len() > 0 {
        let step = spec_scan_step(
            font_chars,
            codes,
            line_height,
            original_color,
            default_alignment,
            st,
            s.first(),
        );
        assert(step.0.state.y <= st.state.y + line_height);
        if spec_codes_valid(codes) && original_color.valid() && st.modified_color.valid() {
            lemma_color_code_valid(codes, s.first());
            assert(step.0.modified_color.valid());
        }
        lemma_scan_props(
            font_chars,
            codes,
            line_height,
            original_color,
            default_alignment,
            step.0,
            s.drop_first(),
        );
    }
}

/// The total advance of a glyph range is bounded by the range's length
/// times the largest advance.
proof fn lemma_sum_advances_bounds(
    font_chars: Seq<(char, FontCharacter)>,
    draws: Seq<DrawableCharacter>,
    from: int,
    to: int,
)
    requires
        forall|i: int| 0 <= i < font_chars.len() ==> (#[trigger] font_chars[i]).1.wf(),
        forall|j: int|
            0 <= j < draws.len() ==> spec_glyph(
                font_chars,
                (#[trigger] draws[j]).character,
            ) is Some,
        0 <= from <= to <= draws.len(),
    ensures
        -((to - from) * 4096) <= spec_sum_advances(font_chars, draws, from, to) <= (to - from)
            * 4096,
    decreases to,
{
    if to > from {
        lemma_sum_advances_bounds(font_chars, draws, from, to - 1);
        lemma_glyph_wf(font_chars, draws[to - 1].character);
    }
}

/// Find the first alignment-change event at or after `j`.
fn find_line_end(scanned: &Vec<DrawableCharacter>, j: usize) -> (r: usize)
    requires
        j <= scanned@.len(),
    ensures
        r == spec_line_end(scanned@, j as int),
        j <= r <= scanned@.len(),
{
    let n = scanned.len();
    let mut k = j;
    while k < n
        invariant
            j <= k <= n,
            n == scanned@.len(),
            spec_line_end(scanned@, j as int) == spec_line_end(scanned@, k as int),
        decreases n - k,
    {
        if scanned[k].alignment_changed {
            return k;
        }
        k = k + 1;
    }
    n
}

impl Font {
    /// The total advance of glyphs `from..to` of a scanned run.
    fn sum_advances(&self, scanned: &Vec<DrawableCharacter>, from: usize, to: usize) -> (r: i32)
        requires
            self.wf(),
            from <= to <= scanned@.len(),
            scanned@.len() <= MAX_TEXT_LENGTH,
            forall|j: int|
                0 <= j < scanned@.len() ==> spec_glyph(
                    self.characters@,
                    (#[trigger] scanned@[j]).character,
                ) is Some,
        ensures
            r == spec_sum_advances(self.characters@, scanned@, from as int, to as int),
            -((to - from) * 4096) <= r <= (to - from) * 4096,
    {
        let mut acc: i32 = 0;
        let mut k = from;
        while k < to
            invariant
                self.wf(),
                from <= k <= to <= scanned@.len(),
                scanned@.len() <= MAX_TEXT_LENGTH,
                forall|j: int|
                    0 <= j < scanned@.len() ==> spec_glyph(
                        self.characters@,
                        (#[trigger] scanned@[j]).character,
                    ) is Some,
                acc == spec_sum_advances(self.characters@, scanned@, from as int, k as int),
                -((k - from) * 4096) <= acc <= (k - from) * 4096,
            decreases to - k,
        {
            let g = match self.glyph(scanned[k].character) {
                Some(g) => g,
                None => {
                    proof {
                        assert(false);
                    }
                    return 0;
                },
            };
            proof {
                lemma_glyph_wf(self.characters@, scanned@[k as int].character);
            }
            acc = acc + g.advance_x;
            k = k + 1;
        }
        acc
    }

    /// Lay out a string: scan it into glyphs, then position each line's
    /// glyphs from its alignment.  The result replaces the contents of
    /// `characters`.
    pub fn generate_string_draws(
        &self,
        string: &str,
        request: FontDrawRequest,
        characters: &mut Vec<DrawableCharacter>,
    )
        requires
            self.wf(),
            string@.len() <= MAX_TEXT_LENGTH,
            request.resolution.width <= 32768,
            forall|k: int|
                0 <= k < 8 ==> -0x0100_0000 <= #[trigger] request.tab_offsets@[k] <= 0x0100_0000,
            match request.alignment {
                TextAlignment::Table(n) => n < usize::MAX - MAX_TEXT_LENGTH,
                _ => true,
            },
        ensures
            ({
                let laid = spec_layout(
                    self.characters@,
                    self.colors.codes@,
                    self.line_height,
                    request.alignment,
                    request.color,
                    request.resolution.width as int,
                    request.tab_offsets@,
                    string@,
                );
                &&& final(characters)@ == laid
                &&& forall|i: int|
                    0 <= i < laid.len() ==> spec_glyph(
                        self.characters@,
                        (#[trigger] laid[i]).character,
                    ) is Some && -0x3FFF_FFFF <= laid[i].x <= 0x3FFF_FFFF && 0 <= laid[i].y
                        <= 0x1000_0000 && (request.color.valid() ==> laid[i].color.valid())
            }),
    {
        characters.clear();
        let scanned = self.iterate_characters(
            string,
            request.color,
            TextState {
                alignment: request.alignment,
                y: 0,
                bold: false,
                underline: false,
                italics: false,
            },
        );
        let ghost sc = scanned@;
        proof {
            lemma_scan_props(
                self.characters@,
                self.colors.codes@,
                self.line_height,
                request.color,
                request.alignment,
                spec_initial_scan_state(request.color, spec_request_state(request)),
                string@,
            );
            assert(sc.len() <= string@.len());
        }
        let n = scanned.len();
        let mut offset_x: i32 = 0;
        let mut line_start: usize = 0;
        let mut i: usize = 0;
        while i < n
            invariant
                self.wf(),
                n == sc.len(),
                sc == scanned@,
                n <= MAX_TEXT_LENGTH,
                i <= n,
                request.resolution.width <= 32768,
                forall|k: int|
                    0 <= k < 8 ==> -0x0100_0000 <= #[trigger] request.tab_offsets@[k]
                        <= 0x0100_0000,
                forall|j: int|
                    0 <= j < sc.len() ==> spec_glyph(
                        self.characters@,
                        (#[trigger] sc[j]).character,
                    ) is Some,
                forall|j: int| 0 <= j < sc.len() ==> (#[trigger] sc[j]).state.y <= 0x1000_0000,
                characters@.len() == i,
                forall|j: int|
                    0 <= j < i ==> characters@[j] == (DrawableCharacter {
                        x: spec_char_x(
                            self.characters@,
                            sc,
                            request.resolution.width as int,
                            request.tab_offsets@,
                            j,
                        ) as i32,
                        y: sc[j].state.y as i32,
                        ..sc[j]
                    }) && -0x3FFF_FFFF <= (#[trigger] characters@[j]).x <= 0x3FFF_FFFF,
                i > 0 && i < n && !sc[i as int].alignment_changed ==> line_start
                    == spec_line_start(sc, i as int) && line_start <= i && offset_x
                    == spec_line_offset(
                    self.characters@,
                    sc,
                    line_start as int,
                    request.resolution.width as int,
                    request.tab_offsets@,
                ) + spec_sum_advances(self.characters@, sc, line_start as int, i as int),
            decreases n - i,
        {
            if i == 0 || scanned[i].alignment_changed {
                line_start = i;
                let le = find_line_end(&scanned, i + 1);
                let total = self.sum_advances(&scanned, i, le);
                offset_x = match scanned[i].state.alignment {
                    TextAlignment::Left => 0,
                    TextAlignment::Table(t) => if t < 8 {
                        request.tab_offsets[t]
                    } else {
                        0
                    },
                    TextAlignment::Right => request.resolution.width as i32 - total,
                    TextAlignment::Center => {
                        let half = if total >= 0 {
                            total / 2
                        } else {
                            -((-total) / 2)
                        };
                        (request.resolution.width as i32 - total) + half
                    },
                };
                proof {
                    assert(line_start == spec_line_start(sc, i as int));
                    assert(offset_x == spec_line_offset(
                        self.characters@,
                        sc,
                        line_start as int,
                        request.resolution.width as int,
                        request.tab_offsets@,
                    ));
                }
            }
            let sci = scanned[i];
            characters.push(
                DrawableCharacter {
                    character: sci.character,
                    color: sci.color,
                    state: sci.state,
                    alignment_changed: sci.alignment_changed,
                    x: offset_x,
                    y: sci.state.y as i32,
                },
            );
            let g = match self.glyph(sci.character) {
                Some(g) => g,
                None => {
                    proof {
                        assert(false);
                    }
                    return ;
                },
            };
            proof {
                lemma_glyph_wf(self.characters@, sc[i as int].character);
                lemma_line_end_bounds(sc, line_start as int + 1);
                lemma_sum_advances_bounds(
                    self.characters@,
                    sc,
                    line_start as int,
                    i as int,
                );
                lemma_sum_advances_bounds(
                    self.characters@,
                    sc,
                    line_start as int,
                    spec_line_end(sc, line_start as int + 1),
                );
                lemma_line_offset_bounds(
                    self.characters@,
                    sc,
                    line_start as int,
                    request.resolution.width as int,
                    request.tab_offsets@,
                );
            }
            offset_x = offset_x + g.advance_x;
            i = i + 1;
            proof {
                if i < n && !sc[i as int].alignment_changed {
                    assert(spec_line_start(sc, i as int) == spec_line_start(sc, i - 1));
                }
            }
        }
    }
}

/// The all-transparent buffer rasterization starts from.
pub open spec fn spec_initial_buffer(w: int, h: int) -> Seq<Pixel> {
    Seq::new((w * h) as nat, |i: int| Pixel { r: 0, g: 0, b: 0, a: 0 })
}

/// The drop-shadow color of a glyph: black with the glyph's alpha.
pub open spec fn spec_shadow_color(c: ColorRgba) -> ColorRgba {
    ColorRgba { r: 0, g: 0, b: 0, a: c.a }
}

/// The pixel buffer after rasterizing the first `k` glyphs: each glyph
/// first draws its drop shadow one pixel down and right, then its colored
/// image.
pub open spec fn spec_draw_run(
    font_chars: Seq<(char, FontCharacter)>,
    chars: Seq<DrawableCharacter>,
    w: int,
    h: int,
    k: int,
) -> Seq<Pixel>
    decreases k,
{
    if k <= 0 {
        spec_initial_buffer(w, h)
    } else {
        let prev = spec_draw_run(font_chars, chars, w, h, k - 1);
        let ch = chars[k - 1];
        let g = spec_glyph(font_chars, ch.character)->Some_0;
        spec_draw_character(
            spec_draw_character(
                prev,
                w,
                g,
                spec_shadow_color(ch.color),
                ch.x + 1,
                ch.y + 1,
            ),
            w,
            g,
            ch.color,
            ch.x as int,
            ch.y as int,
        )
    }
}

impl Font {
    /// Rasterize a laid-out glyph run into a 2D bitmap parameter: every
    /// glyph draws a one-pixel-offset black drop shadow and then its
    /// colored image, alpha-composited into a pixel buffer clipped to the
    /// requested resolution.
    pub fn draw_string_buffer_to_bitmap(
        &self,
        characters: &Vec<DrawableCharacter>,
        request: FontDrawRequest,
    ) -> (r: crate::bitmap::AddBitmapParameter)
        requires
            self.wf(),
            request.resolution.width <= MAX_RASTER_DIMENSION,
            request.resolution.height <= MAX_RASTER_DIMENSION,
            forall|i: int|
                0 <= i < characters@.len() ==> spec_glyph(
                    self.characters@,
                    (#[trigger] characters@[i]).character,
                ) is Some && characters@[i].color.valid() && -0x3FFF_FFFF <= characters@[i].x
                    <= 0x3FFF_FFFF && -0x3FFF_FFFF <= characters@[i].y <= 0x3FFF_FFFF,
        ensures
            ({
                let w = request.resolution.width as int;
                let h = request.resolution.height as int;
                let pixels = spec_draw_run(
                    self.characters@,
                    characters@,
                    w,
                    h,
                    characters@.len() as int,
                );
                &&& r.bitmaps@.len() == 1
                &&& r.bitmaps@[0].format == crate::bitmap::BitmapFormat::A8B8G8R8
                &&& r.bitmaps@[0].bitmap_type == crate::bitmap::BitmapType::Dim2D
                &&& r.bitmaps@[0].resolution == request.resolution
                &&& r.bitmaps@[0].mipmap_count == 0
                &&& r.bitmaps@[0].data@.len() == w * h * 4
                &&& forall|i: int|
                    0 <= i < w * h ==> r.bitmaps@[0].data@[4 * i] == (#[trigger] pixels[i]).r
                        && r.bitmaps@[0].data@[4 * i + 1] == pixels[i].g && r.bitmaps@[0].data@[4
                        * i + 2] == pixels[i].b && r.bitmaps@[0].data@[4 * i + 3] == pixels[i].a
                &&& r.sequences@ == seq![
                    crate::bitmap::BitmapSequence::Bitmap { first: 0usize, count: 1usize },
                ]
                &&& r.valid()
            }),
    {
        let w = request.resolution.width;
        let h = request.resolution.height;
        proof {
            crate::fixed::lemma_mul_bound(
                w as int,
                h as int,
                MAX_RASTER_DIMENSION as int,
                MAX_RASTER_DIMENSION as int,
            );
        }
        let pixel_count: usize = (w as u64 * h as u64) as usize;
        let mut buffer: Vec<Pixel> = Vec::new();
        let mut p: usize = 0;
        while p < pixel_count
            invariant
                p <= pixel_count,
                buffer@.len() == p,
                forall|i: int| 0 <= i < p ==> buffer@[i] == (Pixel { r: 0, g: 0, b: 0, a: 0 }),
            decreases pixel_count - p,
        {
            buffer.push(Pixel { r: 0, g: 0, b: 0, a: 0 });
            p = p + 1;
        }
        proof {
            assert(buffer@ =~= spec_initial_buffer(w as int, h as int));
        }
        let n = characters.len();
        let mut k: usize = 0;
        while k < n
            invariant
                self.wf(),
                n == characters@.len(),
                k <= n,
                w == request.resolution.width,
                h == request.resolution.height,
                w <= MAX_RASTER_DIMENSION,
                h <= MAX_RASTER_DIMENSION,
                forall|i: int|
                    0 <= i < characters@.len() ==> spec_glyph(
                        self.characters@,
                        (#[trigger] characters@[i]).character,
                    ) is Some && characters@[i].color.valid() && -0x3FFF_FFFF <= characters@[i].x
                        <= 0x3FFF_FFFF && -0x3FFF_FFFF <= characters@[i].y <= 0x3FFF_FFFF,
                buffer@.len() == w * h,
                buffer@ == spec_draw_run(
                    self.characters@,
                    characters@,
                    w as int,
                    h as int,
                    k as int,
                ),
            decreases n - k,
        {
            let ch = &characters[k];
            let shadow = ColorRgba { r: 0, g: 0, b: 0, a: ch.color.a };
            self.draw_character(request, &mut buffer, ch, shadow, ch.x + 1, ch.y + 1);
            self.draw_character(request, &mut buffer, ch, ch.color, ch.x, ch.y);
            k = k + 1;
        }
        let mut data: Vec<u8> = Vec::new();
        let mut q: usize = 0;
        while q < pixel_count
            invariant
                q <= pixel_count,
                pixel_count == buffer@.len(),
                data@.len() == 4 * q,
                forall|i: int|
                    0 <= i < q ==> data@[4 * i] == (#[trigger] buffer@[i]).r && data@[4 * i + 1]
                        == buffer@[i].g && data@[4 * i + 2] == buffer@[i].b && data@[4 * i + 3]
                        == buffer@[i].a,
            decreases pixel_count - q,
        {
            let px = buffer[q];
            data.push(px.r);
            data.push(px.g);
            data.push(px.b);
            data.push(px.a);
            q = q + 1;
        }
        let mut bitmaps: Vec<crate::bitmap::BitmapBitmap> = Vec::new();
        proof {
            assert((w as int) * (h as int) * 1 * 4 == (w as int) * (h as int) * 4)
                by (nonlinear_arith);
        }
        bitmaps.push(
            crate::bitmap::BitmapBitmap {
                format: crate::bitmap::BitmapFormat::A8B8G8R8,
                bitmap_type: crate::bitmap::BitmapType::Dim2D,
                resolution: request.resolution,
                mipmap_count: 0,
                data,
            },
        );
        let mut sequences: Vec<crate::bitmap::BitmapSequence> = Vec::new();
        sequences.push(crate::bitmap::BitmapSequence::Bitmap { first: 0, count: 1 });
        proof {
            assert(sequences@ =~= seq![
                crate::bitmap::BitmapSequence::Bitmap { first: 0usize, count: 1usize },
            ]);
        }
        crate::bitmap::AddBitmapParameter { bitmaps, sequences }
    }
}

/// The initial text state a draw request selects.
pub open spec fn spec_request_state(request: FontDrawRequest) -> TextState {
    TextState {
        alignment: request.alignment,
        y: 0,
        bold: false,
        underline: false,
        italics: false,
    }
}

/// A line's starting offset is bounded when the request is.
proof fn lemma_line_offset_bounds(
    font_chars: Seq<(char, FontCharacter)>,
    draws: Seq<DrawableCharacter>,
    s: int,
    width: int,
    tabs: Seq<i32>,
)
    requires
        forall|i: int| 0 <= i < font_chars.len() ==> (#[trigger] font_chars[i]).1.wf(),
        forall|j: int|
            0 <= j < draws.len() ==> spec_glyph(
                font_chars,
                (#[trigger] draws[j]).character,
            ) is Some,
        0 <= s < draws.len(),
        draws.len() <= MAX_TEXT_LENGTH,
        0 <= width <= 32768,
        forall|k: int| 0 <= k < tabs.len() ==> -0x0100_0000 <= #[trigger] tabs[k] <= 0x0100_0000,
    ensures
        -0x2000_0000 <= spec_line_offset(font_chars, draws, s, width, tabs) <= 0x2000_0000,
{
    let e = spec_line_end(draws, s + 1);
    lemma_line_end_bounds(draws, s + 1);
    lemma_sum_advances_bounds(font_chars, draws, s, e);
}

/// The line end lies between its start and the glyph count.
proof fn lemma_line_end_bounds(draws: Seq<DrawableCharacter>, j: int)
    requires
        0 <= j <= draws.len(),
    ensures
        j <= spec_line_end(draws, j) <= draws.len(),
    decreases draws.len() - j,
{
    if j < draws.len() && !draws[j].alignment_changed {
        lemma_line_end_bounds(draws, j + 1);
    }
}

/// Largest output resolution the rasterizer accepts in either direction.
pub const MAX_RASTER_DIMENSION: u32 = 16384;

/// One RGBA pixel of the rasterizer's buffer.
#[derive(Clone, Copy, PartialEq, Eq, Structural, Debug)]
pub struct Pixel {
    pub r: u8,
    pub g: u8,
    pub b: u8,
    pub a: u8,
}

/// One byte channel scaled to a fixed-point fraction.
pub open spec fn spec_byte_to_frac(b: int) -> int {
    b * (FRAC_ONE as int) / 255
}

/// A fixed-point fraction scaled back to a byte channel.
pub open spec fn spec_frac_to_byte(f: int) -> int {
    f * 255 / (FRAC_ONE as int)
}

/// Alpha-composite one glyph pixel over a destination pixel: the glyph's
/// coverage byte scales the draw color's alpha, and every channel is
/// linearly interpolated toward the color by that amount.  Zero coverage
/// leaves the destination untouched.
pub open spec fn spec_blend_pixel(dest: Pixel, color: ColorRgba, coverage: int) -> Pixel {
    if coverage == 0 {
        dest
    } else {
        let t = color.a * coverage / 255;
        Pixel {
            r: spec_frac_to_byte(
                crate::fixed::spec_lerp(spec_byte_to_frac(dest.r as int), color.r as int, t),
            ) as u8,
            g: spec_frac_to_byte(
                crate::fixed::spec_lerp(spec_byte_to_frac(dest.g as int), color.g as int, t),
            ) as u8,
            b: spec_frac_to_byte(
                crate::fixed::spec_lerp(spec_byte_to_frac(dest.b as int), color.b as int, t),
            ) as u8,
            a: spec_frac_to_byte(
                crate::fixed::spec_lerp(spec_byte_to_frac(dest.a as int), t, t),
            ) as u8,
        }
    }
}

/// Composite one glyph pixel over a destination pixel.
pub fn blend_pixel(dest: Pixel, color: ColorRgba, coverage: u8) -> (r: Pixel)
    requires
        color.valid(),
    ensures
        r == spec_blend_pixel(dest, color, coverage as int),
{
    if coverage == 0 {
        return dest;
    }
    proof {
        crate::fixed::lemma_mul_bound(color.a as int, coverage as int, FRAC_ONE as int, 255);
        vstd::arithmetic::div_mod::lemma_div_is_ordered(
            color.a as int * coverage as int,
            FRAC_ONE as int * 255,
            255,
        );
        vstd::arithmetic::div_mod::lemma_div_by_multiple(FRAC_ONE as int, 255);
        assert(FRAC_ONE as int * 255 == 255 * (FRAC_ONE as int)) by (nonlinear_arith);
    }
    let t: u32 = (color.a as u64 * coverage as u64 / 255) as u32;
    Pixel {
        r: blend_channel(dest.r, color.r, t),
        g: blend_channel(dest.g, color.g, t),
        b: blend_channel(dest.b, color.b, t),
        a: blend_channel(dest.a, t, t),
    }
}

/// Composite one channel: interpolate the destination channel toward the
/// target fraction and scale back to a byte.
fn blend_channel(dest: u8, target: u32, t: u32) -> (r: u8)
    requires
        target <= FRAC_ONE,
        t <= FRAC_ONE,
    ensures
        r == spec_frac_to_byte(
            crate::fixed::spec_lerp(spec_byte_to_frac(dest as int), target as int, t as int),
        ) as u8,
{
    let df: u32 = dest as u32 * FRAC_ONE / 255;
    proof {
        crate::fixed::lemma_mul_bound(dest as int, FRAC_ONE as int, 255, FRAC_ONE as int);
        vstd::arithmetic::div_mod::lemma_div_is_ordered(
            dest as int * (FRAC_ONE as int),
            255 * (FRAC_ONE as int),
            255,
        );
        vstd::arithmetic::div_mod::lemma_div_by_multiple(FRAC_ONE as int, 255);
        assert(255 * (FRAC_ONE as int) == (FRAC_ONE as int) * 255) by (nonlinear_arith);
    }
    let mixed: u32 = crate::fixed::lerp_frac(df, target, t);
    proof {
        crate::fixed::lemma_lerp_bounds(df as int, target as int, t as int);
        crate::fixed::lemma_mul_bound(mixed as int, 255, FRAC_ONE as int, 255);
    }
    (mixed as u64 * 255 / FRAC_ONE as u64) as u8
}

/// The buffer after drawing the glyph pixels of `glyph` at `(x0, y0)` in
/// lexicographic glyph order up to column `cx`, row `cy`: a glyph pixel
/// lands on buffer pixel `(x0 + gx, y0 + gy)`; pixels outside the buffer
/// are skipped.
pub open spec fn spec_draw_upto(
    buf0: Seq<Pixel>,
    w: int,
    glyph: FontCharacter,
    color: ColorRgba,
    x0: int,
    y0: int,
    cx: int,
    cy: int,
) -> Seq<Pixel> {
    Seq::new(
        buf0.len(),
        |i: int|
            {
                let px = i % w;
                let py = i / w;
                let gx = px - x0;
                let gy = py - y0;
                if 0 <= gx < glyph.width && 0 <= gy < glyph.height && (gx < cx || (gx == cx && gy
                    < cy)) {
                    spec_blend_pixel(buf0[i], color, glyph.data@[gx + gy * glyph.width] as int)
                } else {
                    buf0[i]
                }
            },
    )
}

/// Buffer index `i` decomposes into in-range pixel coordinates.
proof fn lemma_pixel_coords(w: int, h: int, i: int)
    requires
        w >= 0,
        h >= 0,
        0 <= i < w * h,
    ensures
        w >= 1,
        0 <= i % w < w,
        0 <= i / w < h,
{
    assert(w >= 1) by (nonlinear_arith)
        requires
            0 <= i < w * h,
            0 <= w,
            0 <= h,
    ;
    vstd::arithmetic::div_mod::lemma_mod_bound(i, w);
    vstd::arithmetic::div_mod::lemma_div_pos_is_pos(i, w);
    assert(w * h - 1 == (h - 1) * w + (w - 1)) by (nonlinear_arith);
    vstd::arithmetic::div_mod::lemma_fundamental_div_mod_converse(w * h - 1, w, h - 1, w - 1);
    vstd::arithmetic::div_mod::lemma_div_is_ordered(i, w * h - 1, w);
}

/// The buffer after drawing the whole glyph.
pub open spec fn spec_draw_character(
    buf0: Seq<Pixel>,
    w: int,
    glyph: FontCharacter,
    color: ColorRgba,
    x0: int,
    y0: int,
) -> Seq<Pixel> {
    spec_draw_upto(buf0, w, glyph, color, x0, y0, glyph.width as int, 0)
}

impl Font {
    /// Rasterize one glyph into the pixel buffer at `(x_offset, y_offset)`,
    /// alpha-compositing each covered pixel and skipping pixels that fall
    /// outside the buffer.
    pub fn draw_character(
        &self,
        request: FontDrawRequest,
        bitmap_data: &mut Vec<Pixel>,
        character: &DrawableCharacter,
        color: ColorRgba,
        x_offset: i32,
        y_offset: i32,
    )
        requires
            self.wf(),
            color.valid(),
            spec_glyph(self.characters@, character.character) is Some,
            request.resolution.width <= MAX_RASTER_DIMENSION,
            request.resolution.height <= MAX_RASTER_DIMENSION,
            old(bitmap_data)@.len() == request.resolution.width * request.resolution.height,
            -0x4000_0000 <= x_offset <= 0x4000_0000,
            -0x4000_0000 <= y_offset <= 0x4000_0000,
        ensures
            final(bitmap_data)@ == spec_draw_character(
                old(bitmap_data)@,
                request.resolution.width as int,
                spec_glyph(self.characters@, character.character)->Some_0,
                color,
                x_offset as int,
                y_offset as int,
            ),
    {
        let ghost buf0 = bitmap_data@;
        let glyph = match self.glyph(character.character) {
            Some(g) => g,
            None => {
                proof {
                    assert(false);
                }
                return ;
            },
        };
        proof {
            lemma_glyph_wf(self.characters@, character.character);
        }
        let w = request.resolution.width;
        let h = request.resolution.height;
        let gw = glyph.width;
        let gh = glyph.height;
        let mut x: usize = 0;
        proof {
            assert(bitmap_data@ =~= spec_draw_upto(
                buf0,
                w as int,
                *glyph,
                color,
                x_offset as int,
                y_offset as int,
                0,
                0,
            ));
        }
        while x < gw
            invariant
                self.wf(),
                spec_glyph(self.characters@, character.character) == Option::Some(*glyph),
                glyph.wf(),
                color.valid(),
                gw == glyph.width,
                gh == glyph.height,
                w == request.resolution.width,
                h == request.resolution.height,
                w <= MAX_RASTER_DIMENSION,
                h <= MAX_RASTER_DIMENSION,
                -0x4000_0000 <= x_offset <= 0x4000_0000,
                -0x4000_0000 <= y_offset <= 0x4000_0000,
                x <= gw,
                buf0.len() == w * h,
                bitmap_data@.len() == buf0.len(),
                bitmap_data@ == spec_draw_upto(
                    buf0,
                    w as int,
                    *glyph,
                    color,
                    x_offset as int,
                    y_offset as int,
                    x as int,
                    0,
                ),
            decreases gw - x,
        {
            let x_abs: i64 = x_offset as i64 + x as i64;
            if x_abs >= 0 && x_abs < w as i64 {
                let mut y: usize = 0;
                while y < gh
                    invariant
                        self.wf(),
                        spec_glyph(self.characters@, character.character) == Option::Some(
                            *glyph,
                        ),
                        glyph.wf(),
                        color.valid(),
                        gw == glyph.width,
                        gh == glyph.height,
                        w == request.resolution.width,
                        h == request.resolution.height,
                        w <= MAX_RASTER_DIMENSION,
                        h <= MAX_RASTER_DIMENSION,
                        -0x4000_0000 <= x_offset <= 0x4000_0000,
                        -0x4000_0000 <= y_offset <= 0x4000_0000,
                        x < gw,
                        y <= gh,
                        x_abs == x_offset + x,
                        0 <= x_abs < w,
                        buf0.len() == w * h,
                        bitmap_data@.len() == buf0.len(),
                        bitmap_data@ == spec_draw_upto(
                            buf0,
                            w as int,
                            *glyph,
                            color,
                            x_offset as int,
                            y_offset as int,
                            x as int,
                            y as int,
                        ),
                    decreases gh - y,
                {
                    let y_abs: i64 = y_offset as i64 + y as i64;
                    if y_abs >= 0 && y_abs < h as i64 {
                        proof {
                            crate::fixed::lemma_mul_bound(
                                y as int,
                                gw as int,
                                MAX_GLYPH_DIMENSION as int,
                                MAX_GLYPH_DIMENSION as int,
                            );
                            assert((x as int) + (y as int) * (gw as int) < (gw as int) * (
                            gh as int)) by (nonlinear_arith)
                                requires
                                    x < gw,
                                    y < gh,
                                    0 <= gw,
                                    0 <= gh,
                            ;
                        }
                        let coverage = glyph.data[x + y * gw];
                        proof {
                            crate::fixed::lemma_mul_bound(
                                y_abs as int,
                                w as int,
                                MAX_RASTER_DIMENSION as int,
                                MAX_RASTER_DIMENSION as int,
                            );
                        }
                        let idx: usize = (x_abs + y_abs * (w as i64)) as usize;
                        proof {
                            vstd::arithmetic::div_mod::lemma_fundamental_div_mod_converse(
                                idx as int,
                                w as int,
                                y_abs as int,
                                x_abs as int,
                            );
                            crate::fixed::lemma_mul_bound(
                                y_abs as int,
                                w as int,
                                h as int - 1,
                                w as int,
                            );
                            assert((h as int - 1) * (w as int) == w as int * h as int - w as int)
                                by (nonlinear_arith);
                        }
                        let dest = bitmap_data[idx];
                        let blended = blend_pixel(dest, color, coverage);
                        let ghost before = bitmap_data@;
                        bitmap_data.set(idx, blended);
                        proof {
                            let ghost target = spec_draw_upto(
                                buf0,
                                w as int,
                                *glyph,
                                color,
                                x_offset as int,
                                y_offset as int,
                                x as int,
                                y as int + 1,
                            );
                            assert(before[idx as int] == buf0[idx as int]);
                            assert forall|i: int| 0 <= i < buf0.len() implies #[trigger]
                            bitmap_data@[i] == target[i] by {
                                lemma_pixel_coords(w as int, h as int, i);
                                vstd::arithmetic::div_mod::lemma_fundamental_div_mod(
                                    i,
                                    w as int,
                                );
                                assert((w as int) * (i / (w as int)) == (i / (w as int)) * (
                                w as int)) by (nonlinear_arith);
                            }
                            assert(bitmap_data@ =~= target);
                        }
                    } else {
                        proof {
                            assert forall|i: int| 0 <= i < buf0.len() implies (0 <= #[trigger] (i % (
                            w as int)) < w && 0 <= i / (w as int) < h) by {
                                lemma_pixel_coords(w as int, h as int, i);
                            }
                            assert(bitmap_data@ =~= spec_draw_upto(
                                buf0,
                                w as int,
                                *glyph,
                                color,
                                x_offset as int,
                                y_offset as int,
                                x as int,
                                y as int + 1,
                            ));
                        }
                    }
                    y = y + 1;
                }
                proof {
                    assert forall|i: int| 0 <= i < buf0.len() implies (0 <= #[trigger] (i % (
                    w as int)) < w && 0 <= i / (w as int) < h) by {
                        lemma_pixel_coords(w as int, h as int, i);
                    }
                    assert(bitmap_data@ =~= spec_draw_upto(
                        buf0,
                        w as int,
                        *glyph,
                        color,
                        x_offset as int,
                        y_offset as int,
                        x as int + 1,
                        0,
                    ));
                }
            } else {
                proof {
                    assert forall|i: int| 0 <= i < buf0.len() implies (0 <= #[trigger] (i % (
                    w as int)) < w && 0 <= i / (w as int) < h) by {
                        lemma_pixel_coords(w as int, h as int, i);
                    }
                    assert(bitmap_data@ =~= spec_draw_upto(
                        buf0,
                        w as int,
                        *glyph,
                        color,
                        x_offset as int,
                        y_offset as int,
                        x as int + 1,
                        0,
                    ));
                }
            }
            x = x + 1;
        }
        proof {
            assert(bitmap_data@ =~= spec_draw_upto(
                buf0,
                w as int,
                *glyph,
                color,
                x_offset as int,
                y_offset as int,
                glyph.width as int,
                0,
            ));
        }
    }
}

} // verus!
