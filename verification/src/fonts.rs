//! Font metrics that text layout reads: line heights and glyph advances of
//! the four styles of one size.

use vstd::prelude::*;

verus! {

#[derive(Clone, Copy, PartialEq, Eq, Structural)]
pub enum Style {
    Regular,
    Bold,
    Italic,
    Heading,
}

/// Metrics of one style. `bytes` holds the advance of every byte below 128;
/// `glyphs` lists the advance of characters, the first entry of a character
/// counting; `missing` is the advance of a character that is not listed.
pub struct StyleMetrics {
    pub line_height: u16,
    pub ascent: u16,
    pub bytes: [u16; 128],
    pub glyphs: Vec<(char, u16)>,
    pub missing: u16,
}

/// The advance that the first entry for `c` gives, or `missing`.
pub open spec fn lookup(glyphs: Seq<(char, u16)>, c: char, missing: u16) -> u16
    decreases glyphs.len(),
{
    if glyphs.len() == 0 {
        missing
    } else if glyphs[0].0 == c {
        glyphs[0].1
    } else {
        lookup(glyphs.skip(1), c, missing)
    }
}

/// The first entry of a character counts, and a character without one has the
/// advance of those that are missing.
pub proof fn law_the_first_entry_counts(glyphs: Seq<(char, u16)>, i: int, c: char, missing: u16)
    requires
        0 <= i <= glyphs.len(),
        forall|j: int| 0 <= j < i ==> (#[trigger] glyphs[j]).0 != c,
        i < glyphs.len() ==> glyphs[i].0 == c,
    ensures
        lookup(glyphs, c, missing) == if i < glyphs.len() {
            glyphs[i].1
        } else {
            missing
        },
    decreases glyphs.len(),
{
    if glyphs.len() > 0 && i > 0 {
        let rest = glyphs.skip(1);
        assert(glyphs[0].0 != c);
        assert forall|j: int| 0 <= j < i - 1 implies (#[trigger] rest[j]).0 != c by {
            assert(rest[j] == glyphs[j + 1]);
        }
        law_the_first_entry_counts(rest, i - 1, c, missing);
    }
}

impl StyleMetrics {
    pub open spec fn advance_of(&self, c: char) -> u16 {
        lookup(self.glyphs@, c, self.missing)
    }

    pub fn advance(&self, c: char) -> (r: u16)
        ensures
            r == self.advance_of(c),
    {
        let mut i: usize = 0;
        assert(self.glyphs@.skip(0) =~= self.glyphs@);
        while i < self.glyphs.len()
            invariant
                i <= self.glyphs@.len(),
                self.advance_of(c) == lookup(self.glyphs@.skip(i as int), c, self.missing),
            decreases self.glyphs@.len() - i,
        {
            let g = self.glyphs[i];
            assert(self.glyphs@.skip(i as int).skip(1) =~= self.glyphs@.skip(i + 1));
            if g.0 == c {
                return g.1;
            }
            i += 1;
        }
        self.missing
    }
}

/// The fonts of size `idx`, out of those of all sizes. Beyond these, and where
/// there are none, the built-in font has to do.
pub open spec fn set_of(sets: Seq<FontSet>, idx: int) -> Option<FontSet> {
    if 0 <= idx < sets.len() {
        Some(sets[idx])
    } else {
        None
    }
}

pub fn take_set(sets: Vec<FontSet>, idx: u8) -> (r: Option<FontSet>)
    ensures
        r == set_of(sets@, idx as int),
{
    let mut sets = sets;
    if (idx as usize) < sets.len() {
        Some(sets.swap_remove(idx as usize))
    } else {
        None
    }
}

/// One size of a book font in its four styles.
pub struct FontSet {
    pub regular: StyleMetrics,
    pub bold: StyleMetrics,
    pub italic: StyleMetrics,
    pub heading: StyleMetrics,
}

impl FontSet {
    pub open spec fn metrics(&self, style: Style) -> StyleMetrics {
        match style {
            Style::Regular => self.regular,
            Style::Bold => self.bold,
            Style::Italic => self.italic,
            Style::Heading => self.heading,
        }
    }

    pub open spec fn advance_of(&self, c: char, style: Style) -> u16 {
        self.metrics(style).advance_of(c)
    }

    pub open spec fn byte_advance_of(&self, b: u8, style: Style) -> u16 {
        self.metrics(style).bytes@[b as int]
    }

    /// The metrics of one style.
    pub fn of(&self, style: Style) -> (r: &StyleMetrics)
        ensures
            *r == self.metrics(style),
    {
        match style {
            Style::Regular => &self.regular,
            Style::Bold => &self.bold,
            Style::Italic => &self.italic,
            Style::Heading => &self.heading,
        }
    }

    /// The advance of a character.
    pub fn advance(&self, c: char, style: Style) -> (r: u16)
        ensures
            r == self.advance_of(c, style),
    {
        self.of(style).advance(c)
    }

    /// The advance of a single byte of ASCII text.
    pub fn advance_byte(&self, b: u8, style: Style) -> (r: u16)
        requires
            b < 128,
        ensures
            r == self.byte_advance_of(b, style),
    {
        self.of(style).bytes[b as usize]
    }

    pub fn line_height(&self, style: Style) -> (r: u16)
        ensures
            r == self.metrics(style).line_height,
    {
        self.of(style).line_height
    }

    pub fn ascent(&self, style: Style) -> (r: u16)
        ensures
            r == self.metrics(style).ascent,
    {
        self.of(style).ascent
    }
}

} // verus!
