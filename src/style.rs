//! Styled text: a display form for the terminal beside a plain form that
//! fixes the width.

use colored::Colorize;
use vstd::prelude::*;

verus! {

/// The colours that the listing uses.
#[derive(Debug, Clone, Copy, PartialEq, Eq, Structural)]
pub enum Hue {
    Plain,
    White,
    BrightBlue,
    BrightGreen,
    BrightPurple,
    BrightRed,
    BrightYellow,
}

/// A colour with optional emphasis.
#[derive(Debug, Clone, Copy, PartialEq, Eq, Structural)]
pub struct Style {
    pub hue: Hue,
    pub bold: bool,
    pub underline: bool,
}

impl Style {
    /// A colour without emphasis.
    pub fn hue(hue: Hue) -> (r: Style)
        ensures
            r == (Style { hue, bold: false, underline: false }),
    {
        Style { hue, bold: false, underline: false }
    }
}

/// A style that adds nothing: plain text.
pub open spec fn plain_style() -> Style {
    Style { hue: Hue::Plain, bold: false, underline: false }
}

/// The foreground code of a colour.
pub open spec fn fg_code(h: Hue) -> Seq<char> {
    match h {
        Hue::Plain => Seq::empty(),
        Hue::White => "37"@,
        Hue::BrightRed => "91"@,
        Hue::BrightGreen => "92"@,
        Hue::BrightYellow => "93"@,
        Hue::BrightBlue => "94"@,
        Hue::BrightPurple => "95"@,
    }
}

/// The parameters of the escape sequence that opens `s`: emphasis codes,
/// then the colour, separated by `;`.
pub open spec fn style_codes(s: Style) -> Seq<char> {
    let st = if s.bold && s.underline {
        "1;4"@
    } else if s.bold {
        "1"@
    } else if s.underline {
        "4"@
    } else {
        Seq::empty()
    };
    if s.hue == Hue::Plain {
        st
    } else if st.len() == 0 {
        fg_code(s.hue)
    } else {
        st + ";"@ + fg_code(s.hue)
    }
}

/// `out` shows `text` in `s`: the text as it stands (colouring off, or a
/// plain style), or wrapped in the style's escape sequence and a reset.
pub open spec fn is_painting(out: Seq<char>, text: Seq<char>, s: Style) -> bool {
    out == text || (s != plain_style() && out == "\x1b["@ + style_codes(s) + "m"@ + text + "\x1b[0m"@)
}

/// Relies on colored's `Colorize` methods and the `Display` of `ColoredString`:
/// the text as it stands when colouring is off or the style is plain, else the
/// opening escape sequence, the text and a reset (no reset sits inside a text
/// without escape characters, so none is rewritten).
#[verifier::external_body]
fn paint(text: &str, style: Style) -> (r: String)
    ensures
        !text@.contains('\x1b') ==> is_painting(r@, text@, style),
{
    let c = match style.hue {
        Hue::Plain => text.normal(),
        Hue::White => text.white(),
        Hue::BrightBlue => text.bright_blue(),
        Hue::BrightGreen => text.bright_green(),
        Hue::BrightPurple => text.bright_purple(),
        Hue::BrightRed => text.bright_red(),
        Hue::BrightYellow => text.bright_yellow(),
    };
    let c = if style.bold { c.bold() } else { c };
    let c = if style.underline { c.underline() } else { c };
    c.to_string()
}

/// Whether `s` holds an escape character.
fn has_escape(s: &str) -> (r: bool)
    ensures
        r == s@.contains('\x1b'),
{
    let n = s.unicode_len();
    let mut i: usize = 0;
    while i < n
        invariant
            n == s@.len(),
            i <= n,
            forall|j: int| 0 <= j < i ==> s@[j] != '\x1b',
        decreases n - i,
    {
        if s.get_char(i) == '\x1b' {
            return true;
        }
        i = i + 1;
    }
    false
}

/// The texts of styled pieces, joined.
pub open spec fn texts(spans: Seq<(Seq<char>, Style)>) -> Seq<char>
    decreases spans.len(),
{
    if spans.len() == 0 { Seq::empty() } else { texts(spans.drop_last()) + spans.last().0 }
}

/// Pieces of text, joined.
pub open spec fn joined(pieces: Seq<Seq<char>>) -> Seq<char>
    decreases pieces.len(),
{
    if pieces.len() == 0 { Seq::empty() } else { joined(pieces.drop_last()) + pieces.last() }
}

proof fn lemma_texts_concat(a: Seq<(Seq<char>, Style)>, b: Seq<(Seq<char>, Style)>)
    ensures
        texts(a + b) == texts(a) + texts(b),
    decreases b.len(),
{
    if b.len() == 0 {
        assert(a + b =~= a);
        assert(texts(b) =~= Seq::<char>::empty());
        assert(texts(a) + texts(b) =~= texts(a));
    } else {
        assert((a + b).drop_last() =~= a + b.drop_last());
        lemma_texts_concat(a, b.drop_last());
        assert(texts(a + b) =~= texts(a) + texts(b));
    }
}

proof fn lemma_joined_concat(a: Seq<Seq<char>>, b: Seq<Seq<char>>)
    ensures
        joined(a + b) == joined(a) + joined(b),
    decreases b.len(),
{
    if b.len() == 0 {
        assert(a + b =~= a);
        assert(joined(a) + joined(b) =~= joined(a));
    } else {
        assert((a + b).drop_last() =~= a + b.drop_last());
        lemma_joined_concat(a, b.drop_last());
        assert(joined(a + b) =~= joined(a) + joined(b));
    }
}

/// A rendered piece of a listing: the text to print, the same text without
/// styling, and its width in characters.
pub struct StringData {
    /// Text as printed, with styling
    pub colored_string: String,
    /// Text without styling
    pub raw_string: String,
    /// Printable width
    pub length: usize,
    /// The styled pieces that make up the text
    pub spans: Ghost<Seq<(Seq<char>, Style)>>,
    /// How each piece was printed
    pub pieces: Ghost<Seq<Seq<char>>>,
}

impl StringData {
    /// The printed text is the pieces, each showing its text in its style;
    /// the plain text is the pieces' texts; the width is its character count.
    pub open spec fn wf(&self) -> bool {
        &&& self.length == self.raw_string@.len()
        &&& self.raw_string@ == texts(self.spans@)
        &&& self.colored_string@ == joined(self.pieces@)
        &&& self.pieces@.len() == self.spans@.len()
        &&& forall|i: int| 0 <= i < self.spans@.len()
            ==> is_painting(#[trigger] self.pieces@[i], self.spans@[i].0, self.spans@[i].1)
    }

    /// Empty text.
    pub fn new() -> (r: StringData)
        ensures
            r.wf(),
            r.raw_string@ == Seq::<char>::empty(),
            r.spans@ == Seq::<(Seq<char>, Style)>::empty(),
    {
        StringData {
            colored_string: String::new(),
            raw_string: String::new(),
            length: 0,
            spans: Ghost(Seq::empty()),
            pieces: Ghost(Seq::empty()),
        }
    }

    /// Appends `text` in `style`; text holding escape characters is left unstyled.
    pub fn push_styled(&mut self, text: &str, style: Style)
        requires
            old(self).wf(),
        ensures
            final(self).wf(),
            final(self).raw_string@ == old(self).raw_string@ + text@,
            final(self).spans@ == old(self).spans@.push((text@, style)),
    {
        let painted = if has_escape(text) { text.to_owned() } else { paint(text, style) };
        self.colored_string.append(painted.as_str());
        self.raw_string.append(text);
        self.length = self.raw_string.unicode_len();
        let ghost old_pieces = self.pieces@;
        self.spans = Ghost(self.spans@.push((text@, style)));
        self.pieces = Ghost(self.pieces@.push(painted@));
        assert(self.pieces@.drop_last() =~= old_pieces);
        assert(self.spans@.drop_last() =~= old(self).spans@);
        assert forall|i: int| 0 <= i < self.spans@.len()
            implies is_painting(#[trigger] self.pieces@[i], self.spans@[i].0, self.spans@[i].1) by {
            if i < self.spans@.len() - 1 {
                assert(self.pieces@[i] == old(self).pieces@[i]);
            }
        }
    }

    /// Appends `text` unstyled.
    pub fn push_plain(&mut self, text: &str)
        requires
            old(self).wf(),
        ensures
            final(self).wf(),
            final(self).raw_string@ == old(self).raw_string@ + text@,
            final(self).spans@ == old(self).spans@.push((text@, plain_style())),
    {
        self.colored_string.append(text);
        self.raw_string.append(text);
        self.length = self.raw_string.unicode_len();
        let ghost old_pieces = self.pieces@;
        self.spans = Ghost(self.spans@.push((text@, plain_style())));
        self.pieces = Ghost(self.pieces@.push(text@));
        assert(self.pieces@.drop_last() =~= old_pieces);
        assert(self.spans@.drop_last() =~= old(self).spans@);
        assert forall|i: int| 0 <= i < self.spans@.len()
            implies is_painting(#[trigger] self.pieces@[i], self.spans@[i].0, self.spans@[i].1) by {
            if i < self.spans@.len() - 1 {
                assert(self.pieces@[i] == old(self).pieces@[i]);
            }
        }
    }

    /// Appends another piece after this one.
    pub fn push_data(&mut self, other: &StringData)
        requires
            old(self).wf(),
            other.wf(),
        ensures
            final(self).wf(),
            final(self).raw_string@ == old(self).raw_string@ + other.raw_string@,
            final(self).colored_string@ == old(self).colored_string@ + other.colored_string@,
            final(self).spans@ == old(self).spans@ + other.spans@,
    {
        self.colored_string.append(other.colored_string.as_str());
        self.raw_string.append(other.raw_string.as_str());
        self.length = self.raw_string.unicode_len();
        proof {
            lemma_texts_concat(self.spans@, other.spans@);
            lemma_joined_concat(self.pieces@, other.pieces@);
        }
        let ghost n = self.spans@.len();
        self.spans = Ghost(self.spans@ + other.spans@);
        self.pieces = Ghost(self.pieces@ + other.pieces@);
        assert forall|i: int| 0 <= i < self.spans@.len()
            implies is_painting(#[trigger] self.pieces@[i], self.spans@[i].0, self.spans@[i].1) by {
            if i < n {
                assert(self.pieces@[i] == old(self).pieces@[i]);
                assert(self.spans@[i] == old(self).spans@[i]);
            } else {
                assert(self.pieces@[i] == other.pieces@[i - n]);
                assert(self.spans@[i] == other.spans@[i - n]);
            }
        }
    }

    /// The text as printed.
    pub fn colored(&self) -> (r: &str)
        ensures
            r@ == self.colored_string@,
    {
        self.colored_string.as_str()
    }

    /// The text without styling.
    pub fn raw(&self) -> (r: &str)
        ensures
            r@ == self.raw_string@,
    {
        self.raw_string.as_str()
    }

    /// The printable width.
    pub fn len(&self) -> (r: usize)
        ensures
            r == self.length,
    {
        self.length
    }
}

} // verus!
