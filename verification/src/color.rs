//! Text with colour codes.

use crate::text::{decimal, push_fill, repeat, Layout};
use vstd::prelude::*;
use vstd::string::*;

verus! {

/// The colours that a code can ask for.
#[derive(Clone, Copy, Debug, PartialEq, Eq, Structural)]
pub enum Color {
    Black,
    Red,
    Green,
    Yellow,
    Blue,
    Cyan,
    Magenta,
    White,
}

/// Whether `text` begins with a colour code: `^` and a decimal digit.
pub open spec fn starts_with_code(text: Seq<char>) -> bool {
    text.len() >= 2 && text[0] == '^' && '0' <= text[1] <= '9'
}

/// `text` without its colour codes.
pub open spec fn without_codes(text: Seq<char>) -> Seq<char>
    decreases text.len(),
{
    if text.len() == 0 {
        seq![]
    } else if starts_with_code(text) {
        without_codes(text.skip(2))
    } else {
        seq![text[0]] + without_codes(text.skip(1))
    }
}

/// How many characters the codes at the front of `text` take.
pub open spec fn codes_len(text: Seq<char>) -> nat
    decreases text.len(),
{
    if starts_with_code(text) {
        2 + codes_len(text.skip(2))
    } else {
        0
    }
}

/// How many characters stand before the first code in `text`.
pub open spec fn plain_len(text: Seq<char>) -> nat
    decreases text.len(),
{
    if text.len() == 0 || starts_with_code(text) {
        0
    } else {
        1 + plain_len(text.skip(1))
    }
}

/// One colour's run of text: the code, empty where none was given, and what
/// stands behind it.
pub type RunView = (Seq<char>, Seq<char>);

/// The first run of `text`: the last of the codes at its front, and what
/// follows up to the next code.
pub open spec fn first_run(text: Seq<char>) -> RunView {
    let n = codes_len(text) as int;
    let rest = text.skip(n);
    (
        if n > 0 {
            text.subrange(n - 2, n)
        } else {
            seq![]
        },
        rest.take(plain_len(rest) as int),
    )
}

/// How many characters the first run of `text` takes, codes included.
pub open spec fn first_run_len(text: Seq<char>) -> nat {
    codes_len(text) + plain_len(text.skip(codes_len(text) as int))
}

/// Codes and plain characters lie within the text.
pub proof fn lemma_run_lens(text: Seq<char>)
    ensures
        codes_len(text) <= text.len(),
        plain_len(text) <= text.len(),
        text.len() > 0 ==> 0 < first_run_len(text) <= text.len(),
    decreases text.len(),
{
    if text.len() > 0 {
        if starts_with_code(text) {
            lemma_run_lens(text.skip(2));
        } else {
            lemma_run_lens(text.skip(1));
            assert(text.skip(0) =~= text);
        }
        if codes_len(text) > 0 {
            lemma_run_lens(text.skip(codes_len(text) as int));
        }
    }
}

/// The runs that `text` consists of.
pub open spec fn runs(text: Seq<char>) -> Seq<RunView>
    decreases text.len(),
{
    if text.len() == 0 {
        seq![]
    } else {
        proof {
            lemma_run_lens(text);
        }
        seq![first_run(text)] + runs(text.skip(first_run_len(text) as int))
    }
}

/// The colour that a code asks for.
pub open spec fn code_color(code: Seq<char>) -> Option<Color> {
    if code == "^0"@ {
        Some(Color::Black)
    } else if code == "^1"@ {
        Some(Color::Red)
    } else if code == "^2"@ {
        Some(Color::Green)
    } else if code == "^3"@ {
        Some(Color::Yellow)
    } else if code == "^4"@ {
        Some(Color::Blue)
    } else if code == "^5"@ {
        Some(Color::Cyan)
    } else if code == "^6"@ {
        Some(Color::Magenta)
    } else if code == "^7"@ {
        Some(Color::White)
    } else {
        None
    }
}

/// `xash3d_protocol::color::trim_color`: takes the colour codes out of a text.
#[verifier::external_body]
fn trim_color(s: &str) -> (r: String)
    ensures
        r@ == without_codes(s@),
{
    xash3d_protocol::color::trim_color(s).into_owned()
}

/// What two texts hold, as a run.
pub open spec fn run_view(run: (String, String)) -> RunView {
    (run.0@, run.1@)
}

/// `xash3d_protocol::color::ColorIter`, drained: splits a text into its
/// colours' runs.
#[verifier::external_body]
fn color_runs(s: &str) -> (r: Vec<(String, String)>)
    ensures
        r@.map_values(|run: (String, String)| run_view(run)) == runs(s@),
{
    xash3d_protocol::color::ColorIter::new(s)
        .map(|(code, text)| (code.to_owned(), text.to_owned()))
        .collect()
}

/// `xash3d_protocol::color::Color::try_from`: names the colour of a code.
#[verifier::external_body]
fn color_of(code: &str) -> (r: Option<Color>)
    ensures
        r == code_color(code@),
{
    match xash3d_protocol::color::Color::try_from(code) {
        Ok(xash3d_protocol::color::Color::Black) => Some(Color::Black),
        Ok(xash3d_protocol::color::Color::Red) => Some(Color::Red),
        Ok(xash3d_protocol::color::Color::Green) => Some(Color::Green),
        Ok(xash3d_protocol::color::Color::Yellow) => Some(Color::Yellow),
        Ok(xash3d_protocol::color::Color::Blue) => Some(Color::Blue),
        Ok(xash3d_protocol::color::Color::Cyan) => Some(Color::Cyan),
        Ok(xash3d_protocol::color::Color::Magenta) => Some(Color::Magenta),
        Ok(xash3d_protocol::color::Color::White) => Some(Color::White),
        Err(()) => None,
    }
}

/// How a terminal takes escape sequences: whether they carry colour, none
/// (the user wants none), or cannot be written at all.
pub enum Ansi {
    Colored,
    Bare,
    Unsupported,
}

/// The number of a bright colour among a terminal's 256.
pub open spec fn palette(color: Color) -> nat {
    match color {
        Color::Black => 0,
        Color::Red => 9,
        Color::Green => 10,
        Color::Yellow => 11,
        Color::Blue => 12,
        Color::Magenta => 13,
        Color::Cyan => 14,
        Color::White => 15,
    }
}

/// `text` in a colour, or with all attributes reset where there is none.
pub open spec fn painted(color: Option<Color>, text: Seq<char>, ansi: Ansi) -> Seq<char> {
    match (ansi, color) {
        (Ansi::Unsupported, _) => seq![],
        (_, None) => "\x1b[0m"@ + text + "\x1b[0m"@,
        (Ansi::Bare, Some(_)) => "\x1b[m"@ + text + "\x1b[m"@,
        (Ansi::Colored, Some(c)) => "\x1b[38;5;"@ + decimal(palette(c)) + "m"@ + text
            + "\x1b[39m"@,
    }
}

/// `crossterm::style::Stylize::with`, displayed: sets a text's foreground
/// colour and back. The user's environment decides how; any of the ways that
/// `Ansi` names can come back.
#[verifier::external_body]
pub(crate) fn paint(color: Color, text: &str) -> (r: String)
    ensures
        exists|ansi: Ansi| r@ == painted(Some(color), text@, ansi),
{
    let color = match color {
        Color::Black => crossterm::style::Color::Black,
        Color::Red => crossterm::style::Color::Red,
        Color::Green => crossterm::style::Color::Green,
        Color::Yellow => crossterm::style::Color::Yellow,
        Color::Blue => crossterm::style::Color::Blue,
        Color::Cyan => crossterm::style::Color::Cyan,
        Color::Magenta => crossterm::style::Color::Magenta,
        Color::White => crossterm::style::Color::White,
    };
    crossterm::style::Stylize::with(text, color).to_string()
}

/// `crossterm::style::Stylize::reset`, displayed: resets the attributes before
/// a text and behind it, unless the terminal takes no sequences.
#[verifier::external_body]
pub(crate) fn paint_reset(text: &str) -> (r: String)
    ensures
        exists|ansi: Ansi| r@ == painted(None, text@, ansi),
{
    crossterm::style::Stylize::reset(text).to_string()
}

/// How text goes out: whether colours can be shown at all, and whether a
/// terminal is there to show them.
#[derive(Clone, Copy, Debug, PartialEq, Eq, Structural)]
pub struct Terminal {
    pub color: bool,
    pub tty: bool,
}

/// A text to be shown in the colours that its codes ask for.
#[derive(Clone, Copy, Debug, PartialEq, Eq)]
pub struct Colored<'a> {
    pub inner: &'a str,
    pub forced: bool,
}

/// How many characters the runs show.
pub open spec fn runs_width(runs: Seq<RunView>) -> nat
    decreases runs.len(),
{
    if runs.len() == 0 {
        0
    } else {
        runs_width(runs.drop_last()) + runs.last().1.len()
    }
}

/// Texts, one behind the other.
pub open spec fn joined(pieces: Seq<String>) -> Seq<char>
    decreases pieces.len(),
{
    if pieces.len() == 0 {
        seq![]
    } else {
        joined(pieces.drop_last()) + pieces.last()@
    }
}

/// Whether `r` is what crossterm made of `text`: in the colour, or with all
/// attributes reset where there is none.
pub closed spec fn is_styled(color: Option<Color>, text: &str, r: String) -> bool {
    match color {
        Some(c) => call_ensures(paint, (c, text), r),
        None => call_ensures(paint_reset, (text,), r),
    }
}

/// Paints one run: in a colour, or with all attributes reset where there is
/// none.
pub fn paint_run(color: Option<Color>, text: &str) -> (r: String)
    ensures
        is_styled(color, text, r),
        exists|ansi: Ansi| r@ == #[trigger] painted(color, text@, ansi),
{
    match color {
        Some(color) => paint(color, text),
        None => paint_reset(text),
    }
}

/// What comes out of painting a run is what crossterm made of that run's own
/// text, in its colour or reset, whatever the text is: it is neither dropped
/// nor made up.
pub(crate) proof fn law_runs_are_painted_outside(color: Option<Color>, text: &str, r: String)
    requires
        call_ensures(paint_run, (color, text), r),
    ensures
        color matches Some(c) ==> call_ensures(paint, (c, text), r),
        color is None ==> call_ensures(paint_reset, (text,), r),
{
}

/// Whether `piece` is what came of painting a run in its colour: `paint_run`
/// returned it, in one of the ways of `Ansi`.
pub open spec fn is_painted(run: RunView, piece: String) -> bool {
    &&& exists|text: &str|
        text@ == run.1 && #[trigger] call_ensures(paint_run, (code_color(run.0), text), piece)
    &&& exists|text: &str|
        text@ == run.1 && #[trigger] is_styled(code_color(run.0), text, piece)
    &&& exists|ansi: Ansi| piece@ == #[trigger] painted(code_color(run.0), run.1, ansi)
}

/// Whether `pieces` are what came of painting the runs, one for each.
pub open spec fn are_painted(runs: Seq<RunView>, pieces: Seq<String>) -> bool {
    &&& pieces.len() == runs.len()
    &&& forall|i: int| 0 <= i < runs.len() ==> is_painted(runs[i], #[trigger] pieces[i])
}

/// The runs without colour, each laid out.
pub open spec fn padded_runs(runs: Seq<RunView>, layout: Layout) -> Seq<char>
    decreases runs.len(),
{
    if runs.len() == 0 {
        seq![]
    } else {
        padded_runs(runs.drop_last(), layout) + layout.padded(runs.last().1)
    }
}

/// What makes up, behind the runs, for the characters that they do not have.
pub open spec fn rest(runs: Seq<RunView>, layout: Layout) -> Seq<char> {
    repeat(layout.fill, layout.asked_width() - runs_width(runs))
}

/// Whether `shown` is how `text` can be shown. Without colours every run is
/// shown, laid out by itself. With them the runs are shown one behind the
/// other, each painted in its colour and not laid out, and only where that is
/// forced or a terminal is there; nothing is shown elsewhere. Where a width is
/// asked for, the fill makes up behind all that for the characters of the runs
/// that were not shown.
pub open spec fn renders(
    text: Seq<char>,
    forced: bool,
    out: Terminal,
    layout: Layout,
    shown: Seq<char>,
) -> bool {
    let runs = runs(text);
    if !out.color {
        shown == padded_runs(runs, layout) + rest(runs, layout)
    } else if forced || out.tty {
        exists|pieces: Seq<String>|
            are_painted(runs, pieces) && shown == #[trigger] joined(pieces) + rest(runs, layout)
    } else {
        shown == rest(seq![], layout)
    }
}

impl<'a> Colored<'a> {
    pub fn new(s: &'a str, forced: bool) -> (r: Self)
        ensures
            r.inner@ == s@,
            r.forced == forced,
    {
        Colored { inner: s, forced }
    }

    /// What has to be painted: the text of every run, in order, with the
    /// colour that it is to have.
    pub fn pieces(&self) -> (r: Vec<(Option<Color>, String)>)
        ensures
            r@.len() == runs(self.inner@).len(),
            forall|i: int|
                0 <= i < r@.len() ==> (#[trigger] r@[i]).0 == code_color(runs(self.inner@)[i].0)
                    && r@[i].1@ == runs(self.inner@)[i].1,
    {
        let found = color_runs(self.inner);
        let ghost views = found@.map_values(|run: (String, String)| run_view(run));
        let mut pieces: Vec<(Option<Color>, String)> = Vec::new();
        for run in it: found
            invariant
                it.seq().map_values(|run: (String, String)| run_view(run)) == views,
                views == runs(self.inner@),
                pieces@.len() == it.index(),
                forall|i: int|
                    0 <= i < pieces@.len() ==> (#[trigger] pieces@[i]).0 == code_color(views[i].0)
                        && pieces@[i].1@ == views[i].1,
        {
            assert(views[it.index() as int] == run_view(run));
            let color = color_of(run.0.as_str());
            pieces.push((color, run.1));
        }
        pieces
    }

    /// How many characters the runs show; the largest number stands for all
    /// beyond it.
    fn width(&self) -> (r: usize)
        ensures
            r == runs_width(runs(self.inner@)) || r == usize::MAX && r <= runs_width(
                runs(self.inner@),
            ),
    {
        let pieces = self.pieces();
        let ghost all = runs(self.inner@);
        let mut shown: usize = 0;
        let mut i: usize = 0;
        while i < pieces.len()
            invariant
                i <= pieces@.len() == all.len(),
                forall|j: int| 0 <= j < all.len() ==> (#[trigger] pieces@[j]).1@ == all[j].1,
                shown == runs_width(all.take(i as int)) || shown == usize::MAX && shown
                    <= runs_width(all.take(i as int)),
            decreases pieces@.len() - i,
        {
            assert(all.take(i + 1).drop_last() =~= all.take(i as int));
            shown = shown.saturating_add(pieces[i].1.as_str().unicode_len());
            i = i + 1;
        }
        assert(all.take(i as int) =~= all);
        shown
    }

    /// The text as it is shown in colour, once its runs have been `painted`.
    pub fn fmt_painted(&self, painted: &Vec<String>, layout: Layout) -> (r: String)
        requires
            painted@.len() == runs(self.inner@).len(),
        ensures
            r@ == joined(painted@) + rest(runs(self.inner@), layout),
    {
        let mut text = String::new();
        let mut i: usize = 0;
        while i < painted.len()
            invariant
                i <= painted@.len(),
                text@ == joined(painted@.take(i as int)),
            decreases painted@.len() - i,
        {
            assert(painted@.take(i + 1).drop_last() =~= painted@.take(i as int));
            text.append(painted[i].as_str());
            i = i + 1;
        }
        assert(painted@.take(i as int) =~= painted@);
        self.push_rest(&mut text, layout);
        text
    }

    /// Fills up what the runs leave of the width that is asked for.
    fn push_rest(&self, text: &mut String, layout: Layout)
        ensures
            final(text)@ == old(text)@ + rest(runs(self.inner@), layout),
    {
        let shown = self.width();
        let w: usize = layout.width.unwrap_or(0);
        push_fill(text, layout.fill, shown, w);
        // A sum beyond the largest number is beyond every width too.
        assert(repeat(layout.fill, w - shown) =~= rest(runs(self.inner@), layout));
    }

    /// The text as it is shown. In which of the ways of `Ansi` a painted run
    /// comes out is not said: that is up to the user's environment, and a
    /// terminal that takes no sequences gets no text. `pieces` is what is
    /// painted, and `fmt_painted` what is made of the outcome.
    pub fn fmt(&self, out: Terminal, layout: Layout) -> (r: String)
        ensures
            renders(self.inner@, self.forced, out, layout, r@),
    {
        let ghost all = runs(self.inner@);
        let mut text = String::new();
        if out.color && !self.forced && !out.tty {
            push_fill(&mut text, layout.fill, 0, layout.width.unwrap_or(0));
            assert(text@ =~= rest(seq![], layout));
            return text;
        }
        let pieces = self.pieces();
        if out.color {
            let mut done: Vec<String> = Vec::new();
            let mut i: usize = 0;
            while i < pieces.len()
                invariant
                    i <= pieces@.len() == all.len(),
                    forall|j: int|
                        0 <= j < all.len() ==> (#[trigger] pieces@[j]).0 == code_color(all[j].0)
                            && pieces@[j].1@ == all[j].1,
                    are_painted(all.take(i as int), done@),
                decreases pieces@.len() - i,
            {
                let run_text = pieces[i].1.as_str();
                let piece = paint_run(pieces[i].0, run_text);
                let ghost before = done@;
                proof {
                    assert(call_ensures(paint_run, (code_color(all[i as int].0), run_text), piece));
                    assert(is_painted(all[i as int], piece));
                }
                done.push(piece);
                assert forall|j: int| 0 <= j < i + 1 implies is_painted(
                    all.take(i + 1)[j],
                    #[trigger] done@[j],
                ) by {
                    if j < i {
                        assert(before[j] == done@[j]);
                        assert(all.take(i as int)[j] == all.take(i + 1)[j]);
                    }
                }
                i = i + 1;
            }
            assert(all.take(i as int) =~= all);
            return self.fmt_painted(&done, layout);
        }
        let mut i: usize = 0;
        while i < pieces.len()
            invariant
                i <= pieces@.len() == all.len(),
                forall|j: int| 0 <= j < all.len() ==> (#[trigger] pieces@[j]).1@ == all[j].1,
                text@ == padded_runs(all.take(i as int), layout),
            decreases pieces@.len() - i,
        {
            assert(all.take(i + 1).drop_last() =~= all.take(i as int));
            layout.push(&mut text, pieces[i].1.as_str());
            i = i + 1;
        }
        assert(all.take(i as int) =~= all);
        self.push_rest(&mut text, layout);
        text
    }
}

/// The text that a serialized host name has: no colour codes stand in it.
pub fn serialize_colored(s: &str) -> (r: String)
    ensures
        r@ == without_codes(s@),
{
    trim_color(s)
}

} // verus!
