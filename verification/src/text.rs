//! Small pieces of text layout.

use vstd::prelude::*;
use vstd::string::*;
use vstd::utf8::{encode_utf8, encode_utf8_decode_utf8};

verus! {

/// `std::string::String::push`: appends one character.
pub assume_specification[ String::push ](s: &mut String, c: char)
    ensures
        final(s)@ == old(s)@.push(c),
;

/// The character of a decimal digit.
pub open spec fn digit(n: nat) -> char {
    (n + 48) as u8 as char
}

/// `n` in decimal notation, without leading zeros.
pub open spec fn decimal(n: nat) -> Seq<char>
    decreases n,
{
    if n < 10 {
        seq![digit(n)]
    } else {
        decimal(n / 10).push(digit(n % 10))
    }
}

/// `c`, `n` times.
pub open spec fn repeat(c: char, n: int) -> Seq<char> {
    Seq::new(
        (if n > 0 {
            n
        } else {
            0
        }) as nat,
        |i: int| c,
    )
}

/// `text`, followed by as many `fill` as make it `width` characters long.
pub open spec fn pad_end(text: Seq<char>, width: nat, fill: char) -> Seq<char> {
    text + repeat(fill, width - text.len())
}

/// `text`, after as many `fill` as make it `width` characters long.
pub open spec fn pad_start(text: Seq<char>, width: nat, fill: char) -> Seq<char> {
    repeat(fill, width - text.len()) + text
}

/// On which side a text stands that is shorter than the width asked for.
#[derive(Clone, Copy, Debug, PartialEq, Eq, Structural)]
pub enum Alignment {
    Left,
    Right,
    Center,
}

/// How a text is to be laid out.
#[derive(Clone, Copy, Debug, PartialEq, Eq, Structural)]
pub struct Layout {
    /// What makes up for missing characters.
    pub fill: char,
    /// `None` is the same as `Left`.
    pub align: Option<Alignment>,
    /// How many characters there are to be at least.
    pub width: Option<usize>,
    /// How many characters of the text there are to be at most.
    pub precision: Option<usize>,
}

/// The layout of a text that is shown as it is.
pub open spec fn plain_layout() -> Layout {
    Layout { fill: ' ', align: None, width: None, precision: None }
}

impl Layout {
    /// Whether a text is shown as it is.
    pub open spec fn is_plain(self) -> bool {
        self.width is None && self.precision is None
    }

    /// How many characters are asked for.
    pub open spec fn asked_width(self) -> nat {
        match self.width {
            Some(w) => w as nat,
            None => 0,
        }
    }

    /// As much of `text` as is to be shown.
    pub open spec fn cut(self, text: Seq<char>) -> Seq<char> {
        match self.precision {
            Some(p) if p < text.len() => text.take(p as int),
            _ => text,
        }
    }

    /// How many of `gap` missing characters are made up for before the text.
    pub open spec fn before(self, gap: nat) -> nat {
        match self.align {
            Some(Alignment::Right) => gap,
            Some(Alignment::Center) => gap / 2,
            _ => 0,
        }
    }

    /// `text` laid out: cut, then filled up on the sides that the alignment
    /// leaves.
    pub open spec fn padded(self, text: Seq<char>) -> Seq<char> {
        let shown = self.cut(text);
        let gap: nat = if self.asked_width() > shown.len() {
            (self.asked_width() - shown.len()) as nat
        } else {
            0
        };
        repeat(self.fill, self.before(gap) as int) + shown + repeat(
            self.fill,
            gap - self.before(gap),
        )
    }

    /// The layout of a text that is shown as it is.
    pub fn plain() -> (r: Layout)
        ensures
            r == plain_layout(),
    {
        Layout { fill: ' ', align: None, width: None, precision: None }
    }

    /// Appends `text`, laid out.
    pub fn push(&self, out: &mut String, text: &str)
        ensures
            final(out)@ == old(out)@ + self.padded(text@),
    {
        let len = text.unicode_len();
        let shown: &str = match self.precision {
            Some(p) => if p < len {
                text.substring_char(0, p)
            } else {
                text
            },
            None => text,
        };
        assert(shown@ =~= self.cut(text@));
        let width: usize = self.width.unwrap_or(0);
        let count = shown.unicode_len();
        let gap: usize = if width > count {
            width - count
        } else {
            0
        };
        let before: usize = match self.align {
            Some(Alignment::Right) => gap,
            Some(Alignment::Center) => gap / 2,
            _ => 0,
        };
        push_fill(out, self.fill, 0, before);
        out.append(shown);
        push_fill(out, self.fill, before, gap);
        assert(out@ =~= old(out)@ + self.padded(text@));
    }
}

/// The word for a truth value.
pub open spec fn truth(b: bool) -> Seq<char> {
    if b {
        "true"@
    } else {
        "false"@
    }
}

/// Appends `n` in decimal notation.
pub fn push_decimal(out: &mut String, n: u8)
    ensures
        final(out)@ == old(out)@ + decimal(n as nat),
    decreases n,
{
    if n >= 10 {
        push_decimal(out, n / 10);
    }
    let c: char = (n % 10 + 48) as char;
    out.push(c);
    assert(out@ =~= old(out)@ + decimal(n as nat));
}

/// Appends `fill` until `from` has risen to `to`.
pub fn push_fill(out: &mut String, fill: char, from: usize, to: usize)
    ensures
        final(out)@ == old(out)@ + repeat(fill, to - from),
{
    let mut at: usize = from;
    assert(out@ =~= old(out)@ + repeat(fill, 0));
    while at < to
        invariant
            from <= at,
            at <= to || at == from,
            out@ == old(out)@ + repeat(fill, at - from),
        decreases to - at,
    {
        out.push(fill);
        at = at + 1;
        assert(out@ =~= old(out)@ + repeat(fill, at - from));
    }
    assert(repeat(fill, to - from) =~= repeat(fill, at - from));
}

/// Appends `text` and fills it up to `width` characters.
pub fn push_pad_end(out: &mut String, text: &str, width: usize, fill: char)
    ensures
        final(out)@ == old(out)@ + pad_end(text@, width as nat, fill),
{
    out.append(text);
    push_fill(out, fill, text.unicode_len(), width);
    assert(out@ =~= old(out)@ + pad_end(text@, width as nat, fill));
}

/// Fills up to `width` characters, then appends `text`.
pub fn push_pad_start(out: &mut String, text: &str, width: usize, fill: char)
    ensures
        final(out)@ == old(out)@ + pad_start(text@, width as nat, fill),
{
    push_fill(out, fill, text.unicode_len(), width);
    out.append(text);
    assert(out@ =~= old(out)@ + pad_start(text@, width as nat, fill));
}

/// The word for a truth value.
pub fn truth_text(b: bool) -> (r: &'static str)
    ensures
        r@ == truth(b),
{
    if b {
        "true"
    } else {
        "false"
    }
}

/// Whether two texts hold the same characters.
pub fn same_text(a: &str, b: &str) -> (r: bool)
    ensures
        r == (a@ == b@),
{
    let x = a.as_bytes();
    let y = b.as_bytes();
    if x.len() != y.len() {
        return false;
    }
    let mut i: usize = 0;
    while i < x.len()
        invariant
            i <= x@.len() == y@.len(),
            x@ == encode_utf8(a@),
            y@ == encode_utf8(b@),
            forall|j: int| 0 <= j < i ==> x@[j] == y@[j],
        decreases x@.len() - i,
    {
        if x[i] != y[i] {
            return false;
        }
        i = i + 1;
    }
    proof {
        assert(x@ =~= y@);
        encode_utf8_decode_utf8(a@);
        encode_utf8_decode_utf8(b@);
    }
    true
}

} // verus!
