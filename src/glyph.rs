use vstd::prelude::*;

verus! {

/// Number of entries in the display's glyph table.
pub const GLYPH_COUNT: u8 = 30;

/// The glyph shown for table index `v`: space, `A`..`Z`, `.`, `!`, `?`.
pub open spec fn glyph_of(v: u8) -> Option<char> {
    if v == 0 {
        Some(' ')
    } else if v <= 26 {
        Some(((v + 64) as u8) as char)
    } else if v == 27 {
        Some('.')
    } else if v == 28 {
        Some('!')
    } else if v == 29 {
        Some('?')
    } else {
        None
    }
}

/// The table index of a character, if the display can show it.
/// Lower-case letters show as their upper-case glyph.
pub open spec fn index_of_char(c: char) -> Option<u8> {
    if c == ' ' {
        Some(0u8)
    } else if c == '.' {
        Some(27u8)
    } else if c == '!' {
        Some(28u8)
    } else if c == '?' {
        Some(29u8)
    } else if 'A' <= c && c <= 'Z' {
        Some((c as u32 - 64) as u8)
    } else if 'a' <= c && c <= 'z' {
        Some((c as u32 - 96) as u8)
    } else {
        None
    }
}

/// Why a character cannot be shown on the character display.
#[derive(Debug, Clone, Copy, PartialEq, Eq, Structural)]
pub enum CharError {
    /// The character has no glyph.
    NoGlyph(char),
}

/// An index into the character display's glyph table.
#[derive(Copy, Clone, Debug, Eq, PartialEq, Structural, Hash, Default)]
pub struct Char(pub u8);

impl Char {
    pub fn new(value: u8) -> (r: Char)
        ensures
            r.0 == value,
    {
        Char(value)
    }

    pub fn to_char(self) -> (r: Option<char>)
        ensures
            r == glyph_of(self.0),
    {
        let v = self.0;
        if v == 0 {
            Some(' ')
        } else if v <= 26 {
            Some((v + 64) as char)
        } else if v == 27 {
            Some('.')
        } else if v == 28 {
            Some('!')
        } else if v == 29 {
            Some('?')
        } else {
            None
        }
    }

    pub fn as_u8(self) -> (r: u8)
        ensures
            r == self.0,
    {
        self.0
    }

    pub fn is_valid(self) -> (r: bool)
        ensures
            r <==> self.0 < GLYPH_COUNT,
            r <==> glyph_of(self.0).is_some(),
    {
        self.0 < GLYPH_COUNT
    }

    /// The glyph index of a character; letters of either case map to their
    /// upper-case glyph.
    pub fn from_char(c: char) -> (r: Result<Char, CharError>)
        ensures
            match index_of_char(c) {
                Some(i) => r == Ok::<Char, CharError>(Char(i)),
                None => r == Err::<Char, CharError>(CharError::NoGlyph(c)),
            },
    {
        if c == ' ' {
            Ok(Char(0))
        } else if c == '.' {
            Ok(Char(27))
        } else if c == '!' {
            Ok(Char(28))
        } else if c == '?' {
            Ok(Char(29))
        } else if 'A' <= c && c <= 'Z' {
            Ok(Char((c as u32 - 64) as u8))
        } else if 'a' <= c && c <= 'z' {
            Ok(Char((c as u32 - 96) as u8))
        } else {
            Err(CharError::NoGlyph(c))
        }
    }
}

/// A character that the display can show maps back to itself (upper-cased).
pub proof fn lemma_glyph_round_trip(c: char)
    requires
        index_of_char(c).is_some(),
        !('a' <= c && c <= 'z'),
    ensures
        glyph_of(index_of_char(c).unwrap()) == Some(c),
{
}

} // verus!
