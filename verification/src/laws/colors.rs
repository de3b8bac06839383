//! What holds of texts with colour codes.

use crate::color::{code_color, codes_len, first_run_len, is_painted, joined, lemma_run_lens,
    padded_runs, paint_run, painted, palette, plain_len, renders, runs, runs_width,
    starts_with_code, without_codes, Ansi, Color, RunView, Terminal};
use crate::laws::texts::{law_layouts, law_numbers_read_back, stands_at, value};
use crate::laws::{law_runs_show_the_text_without_codes, lemma_runs_text_last, runs_text};
use crate::text::{decimal, Layout};
use vstd::prelude::*;

verus! {

/// The digit in the code of a colour.
pub open spec fn code_digit(color: Color) -> char {
    match color {
        Color::Black => '0',
        Color::Red => '1',
        Color::Green => '2',
        Color::Yellow => '3',
        Color::Blue => '4',
        Color::Cyan => '5',
        Color::Magenta => '6',
        Color::White => '7',
    }
}

/// A code asks for a colour just where it is `^` and that colour's digit.
pub proof fn law_codes_ask_for_colors(code: Seq<char>, color: Color)
    ensures
        code_color(code) == Some(color) <==> code == seq!['^', code_digit(color)],
        code_color(code) is None <==> !(code.len() == 2 && code[0] == '^' && '0' <= code[1] <= '7'),
{
    reveal_strlit("^0");
    reveal_strlit("^1");
    reveal_strlit("^2");
    reveal_strlit("^3");
    reveal_strlit("^4");
    reveal_strlit("^5");
    reveal_strlit("^6");
    reveal_strlit("^7");
    assert("^0"@ =~= seq!['^', '0']);
    assert("^1"@ =~= seq!['^', '1']);
    assert("^2"@ =~= seq!['^', '2']);
    assert("^3"@ =~= seq!['^', '3']);
    assert("^4"@ =~= seq!['^', '4']);
    assert("^5"@ =~= seq!['^', '5']);
    assert("^6"@ =~= seq!['^', '6']);
    assert("^7"@ =~= seq!['^', '7']);
    assert(seq!['^', '0'][1] == '0');
    assert(seq!['^', '1'][1] == '1');
    assert(seq!['^', '2'][1] == '2');
    assert(seq!['^', '3'][1] == '3');
    assert(seq!['^', '4'][1] == '4');
    assert(seq!['^', '5'][1] == '5');
    assert(seq!['^', '6'][1] == '6');
    assert(seq!['^', '7'][1] == '7');
    if code.len() == 2 && code[0] == '^' {
        assert(code =~= seq!['^', code[1]]);
    }
}

/// A painted run holds its whole text between two sequences, which are the same
/// whatever the text is; only a terminal that takes no sequences gets nothing.
/// In colour, the first sequence holds the number of that colour.
pub proof fn law_painted_runs_hold_their_text(
    color: Option<Color>,
    text: Seq<char>,
    other: Seq<char>,
    ansi: Ansi,
)
    ensures
        ansi is Unsupported <==> painted(color, text, ansi).len() == 0,
        !(ansi is Unsupported) ==> exists|before: Seq<char>, after: Seq<char>|
            {
                &&& painted(color, text, ansi) == #[trigger] (before + text + after)
                &&& painted(color, other, ansi) == before + other + after
                &&& before.len() >= 3 && before[0] == '\x1b' && before[1] == '[' && before.last()
                    == 'm'
                &&& after.len() >= 3 && after[0] == '\x1b' && after[1] == '[' && after.last() == 'm'
                &&& ansi is Colored && color is Some ==> value(
                    before.subrange(7, before.len() - 1),
                ) == palette(color->Some_0)
            },
{
    reveal_strlit("\x1b[0m");
    reveal_strlit("\x1b[m");
    reveal_strlit("\x1b[38;5;");
    reveal_strlit("m");
    reveal_strlit("\x1b[39m");
    if !(ansi is Unsupported) {
        let (before, after) = match (ansi, color) {
            (Ansi::Colored, Some(c)) => (
                "\x1b[38;5;"@ + decimal(palette(c)) + "m"@,
                "\x1b[39m"@,
            ),
            (_, Some(_)) => ("\x1b[m"@, "\x1b[m"@),
            (_, None) => ("\x1b[0m"@, "\x1b[0m"@),
        };
        if color is Some {
            law_numbers_read_back(palette(color->Some_0));
            assert(ansi is Colored ==> before.subrange(7, before.len() - 1) =~= decimal(
                palette(color->Some_0),
            ));
        }
        assert(painted(color, text, ansi) =~= before + text + after);
        assert(painted(color, other, ansi) =~= before + other + after);
    }
}

/// What comes of painting a run either is nothing or holds the whole text of
/// that run between two sequences; no part of a text is ever lost.
pub proof fn law_no_part_of_a_run_is_lost(color: Option<Color>, text: &str, r: String)
    requires
        call_ensures(paint_run, (color, text), r),
    ensures
        r@.len() == 0 || exists|before: Seq<char>, after: Seq<char>|
            {
                &&& r@ == #[trigger] (before + text@ + after)
                &&& before.len() >= 3 && before[0] == '\x1b' && before.last() == 'm'
                &&& after.len() >= 3 && after[0] == '\x1b' && after.last() == 'm'
            },
{
    let ansi = choose|ansi: Ansi| r@ == #[trigger] painted(color, text@, ansi);
    law_painted_runs_hold_their_text(color, text@, text@, ansi);
}

/// Each colour has a number of its own: black the first of the palette, the
/// others the bright ones behind the ninth.
pub proof fn law_colors_are_told_apart(a: Color, b: Color)
    ensures
        palette(a) == palette(b) ==> a == b,
        a == Color::Black <==> palette(a) == 0,
        a != Color::Black ==> 9 <= palette(a) <= 15,
        palette(Color::Red) < palette(Color::Green) < palette(Color::Yellow) < palette(Color::Blue)
            < palette(Color::Magenta) < palette(Color::Cyan) < palette(Color::White),
{
}

/// A code at the front of a text vanishes, and every other character stays.
pub proof fn law_only_codes_vanish(c: char, d: char, text: Seq<char>)
    ensures
        c == '^' && '0' <= d <= '9' ==> without_codes(seq![c, d] + text) == without_codes(text),
        !(c == '^' && '0' <= d <= '9') ==> without_codes(seq![c, d] + text) == seq![c]
            + without_codes(seq![d] + text),
        without_codes(seq![c]) == seq![c],
        without_codes(Seq::<char>::empty()).len() == 0,
{
    reveal_with_fuel(without_codes, 2);
    let t = seq![c, d] + text;
    assert(t.skip(2) =~= text);
    assert(t.skip(1) =~= seq![d] + text);
    assert(seq![c].skip(1) =~= Seq::<char>::empty());
    assert(without_codes(seq![c]) =~= seq![c]);
}

/// What is shown of a text has as many characters as the text without codes.
pub proof fn law_width_counts_what_is_shown(text: Seq<char>)
    ensures
        runs_width(runs(text)) == without_codes(text).len(),
{
    law_runs_show_the_text_without_codes(text);
    lemma_runs_width(runs(text));
}

proof fn lemma_runs_width(runs: Seq<RunView>)
    ensures
        runs_width(runs) == runs_text(runs).len(),
    decreases runs.len(),
{
    if runs.len() > 0 {
        lemma_runs_width(runs.drop_last());
        lemma_runs_text_last(runs);
    }
}

proof fn lemma_plain_has_no_code(text: Seq<char>, k: int)
    requires
        0 <= k <= plain_len(text),
    ensures
        plain_len(text) <= text.len(),
        k < plain_len(text) ==> !starts_with_code(text.skip(k)),
        k == plain_len(text) ==> k == text.len() || starts_with_code(text.skip(k)),
    decreases text.len(),
{
    lemma_run_lens(text);
    assert(text.skip(0) =~= text);
    if plain_len(text) > 0 && k > 0 {
        lemma_plain_has_no_code(text.skip(1), k - 1);
        assert(text.skip(1).skip(k - 1) =~= text.skip(k));
    }
}

proof fn lemma_no_code_behind_codes(text: Seq<char>)
    ensures
        codes_len(text) <= text.len(),
        codes_len(text) % 2 == 0,
        !starts_with_code(text.skip(codes_len(text) as int)),
        codes_len(text) > 0 ==> starts_with_code(text.skip(codes_len(text) - 2)),
    decreases text.len(),
{
    lemma_run_lens(text);
    if starts_with_code(text) {
        let rest = text.skip(2);
        lemma_no_code_behind_codes(rest);
        assert(rest.skip(codes_len(rest) as int) =~= text.skip(codes_len(text) as int));
        if codes_len(rest) > 0 {
            assert(rest.skip(codes_len(rest) - 2) =~= text.skip(codes_len(text) - 2));
        } else {
            assert(text.skip(0) =~= text);
        }
    } else {
        assert(text.skip(0) =~= text);
    }
}

/// The first run of a text stands in it as it is, directly behind the code that
/// it is given with, or at the front where it has none. No code begins inside
/// of it, and one begins behind it unless the text is over. The other runs are
/// those of what follows.
pub proof fn law_runs_lie_between_codes(text: Seq<char>, k: int)
    requires
        text.len() > 0,
    ensures
        ({
            let (code, shown) = runs(text)[0];
            let end = first_run_len(text) as int;
            let start = end - shown.len();
            &&& 0 < end <= text.len()
            &&& stands_at(text, start, shown)
            &&& code.len() == 0 ==> start == 0
            &&& code.len() > 0 ==> start >= 2 && code == text.subrange(start - 2, start)
                && starts_with_code(code)
            &&& start <= k < end ==> !starts_with_code(text.skip(k))
            &&& end < text.len() ==> starts_with_code(text.skip(end))
            &&& runs(text).skip(1) == runs(text.skip(end))
        }),
{
    lemma_run_lens(text);
    lemma_no_code_behind_codes(text);
    let n = codes_len(text) as int;
    let rest = text.skip(n);
    lemma_run_lens(rest);
    let end = first_run_len(text) as int;
    lemma_plain_has_no_code(rest, plain_len(rest) as int);
    assert(rest.skip(plain_len(rest) as int) =~= text.skip(end));
    if n <= k < end {
        lemma_plain_has_no_code(rest, k - n);
        assert(rest.skip(k - n) =~= text.skip(k));
    }
    if n > 0 {
        assert(text.skip(n - 2)[0] == text.subrange(n - 2, n)[0]);
        assert(text.skip(n - 2)[1] == text.subrange(n - 2, n)[1]);
    }
    assert(runs(text).skip(1) =~= runs(text.skip(end)));
}

/// Pieces are shown one behind the other: those of two rows follow each other,
/// and one piece is shown as it is.
pub proof fn law_pieces_follow_each_other(a: Seq<String>, b: Seq<String>)
    ensures
        joined(a + b) == joined(a) + joined(b),
        a.len() == 1 ==> joined(a) == a[0]@,
        a.len() == 0 ==> joined(a).len() == 0,
    decreases b.len(),
{
    reveal_with_fuel(joined, 2);
    if a.len() == 1 {
        assert(a.drop_last() =~= seq![]);
        assert(joined(a) =~= a[0]@);
    }
    if b.len() == 0 {
        assert(a + b =~= a);
        assert(joined(a) + joined(b) =~= joined(a));
    } else {
        law_pieces_follow_each_other(a, b.drop_last());
        assert((a + b).drop_last() =~= a + b.drop_last());
        assert(joined(a + b) =~= joined(a) + joined(b));
    }
}

/// Without colours every run is laid out by itself, and they follow each other.
pub proof fn law_plain_runs_follow_each_other(a: Seq<RunView>, b: Seq<RunView>, layout: Layout)
    ensures
        padded_runs(a + b, layout) == padded_runs(a, layout) + padded_runs(b, layout),
        a.len() == 1 ==> padded_runs(a, layout) == layout.padded(a[0].1),
        a.len() == 0 ==> padded_runs(a, layout).len() == 0,
    decreases b.len(),
{
    reveal_with_fuel(padded_runs, 2);
    if a.len() == 1 {
        assert(a.drop_last() =~= seq![]);
        assert(padded_runs(a, layout) =~= layout.padded(a[0].1));
    }
    if b.len() == 0 {
        assert(a + b =~= a);
        assert(padded_runs(a, layout) + padded_runs(b, layout) =~= padded_runs(a, layout));
    } else {
        law_plain_runs_follow_each_other(a, b.drop_last(), layout);
        assert((a + b).drop_last() =~= a + b.drop_last());
        assert(padded_runs(a + b, layout) =~= padded_runs(a, layout) + padded_runs(b, layout));
    }
}

/// Where colours could be shown and neither force nor a terminal is there, the
/// fill alone is shown, as wide as is asked for.
pub proof fn law_nothing_is_shown_to_nobody(
    text: Seq<char>,
    out: Terminal,
    layout: Layout,
    shown: Seq<char>,
)
    requires
        out.color,
        !out.tty,
        renders(text, false, out, layout, shown),
    ensures
        shown.len() == match layout.width {
            Some(w) => w as nat,
            None => 0,
        },
        forall|i: int| 0 <= i < shown.len() ==> #[trigger] shown[i] == layout.fill,
{
}

/// Whether `pieces`, one for each run of `text` and painted in that run's colour
/// and of its text, are shown in order, with the fill behind them for what
/// `text` without codes lacks of the width.
pub open spec fn shows_pieces(
    text: Seq<char>,
    layout: Layout,
    shown: Seq<char>,
    pieces: Seq<String>,
) -> bool {
    let n = joined(pieces).len() as int;
    let lacks: int = match layout.width {
        Some(w) => w - without_codes(text).len(),
        None => 0,
    };
    &&& pieces.len() == runs(text).len()
    &&& forall|i: int|
        0 <= i < pieces.len() ==> is_painted_from(runs(text)[i], #[trigger] pieces[i])
    &&& stands_at(shown, 0, joined(pieces))
    &&& shown.len() == if lacks > 0 {
        n + lacks
    } else {
        n
    }
    &&& forall|i: int| n <= i < shown.len() ==> #[trigger] shown[i] == layout.fill
}

/// Whether `piece` came of painting the text of `run` in the colour of its code.
pub open spec fn is_painted_from(run: RunView, piece: String) -> bool {
    exists|t: &str|
        t@ == run.1 && #[trigger] call_ensures(paint_run, (code_color(run.0), t), piece)
}

/// Where colours are forced or a terminal is there, every run of the text is
/// painted in its colour and shown, in order, and the fill makes up for the
/// characters that the text without codes lacks.
pub proof fn law_every_run_is_painted_and_shown(
    text: Seq<char>,
    forced: bool,
    out: Terminal,
    layout: Layout,
    shown: Seq<char>,
)
    requires
        out.color,
        forced || out.tty,
        renders(text, forced, out, layout, shown),
    ensures
        exists|pieces: Seq<String>| #[trigger] shows_pieces(text, layout, shown, pieces),
{
    law_width_counts_what_is_shown(text);
    let pieces = choose|pieces: Seq<String>|
        crate::color::are_painted(runs(text), pieces) && shown == #[trigger] joined(pieces)
            + crate::color::rest(runs(text), layout);
    assert forall|i: int| 0 <= i < pieces.len() implies is_painted_from(
        runs(text)[i],
        #[trigger] pieces[i],
    ) by {
        assert(is_painted(runs(text)[i], pieces[i]));
    }
    assert(shows_pieces(text, layout, shown, pieces));
}

/// Where colours cannot be shown, a text without any `^` is laid out as it is.
/// Force and terminal do not matter.
pub proof fn law_plain_texts_are_laid_out(
    text: Seq<char>,
    forced: bool,
    out: Terminal,
    layout: Layout,
    shown: Seq<char>,
)
    requires
        !out.color,
        text.len() > 0,
        forall|i: int| 0 <= i < text.len() ==> #[trigger] text[i] != '^',
        renders(text, forced, out, layout, shown),
    ensures
        stands_at(shown, 0, layout.padded(text)),
        layout.width is None ==> shown == layout.padded(text),
        layout.width matches Some(w) ==> shown.len() == layout.padded(text).len() + if w
            > text.len() {
            w - text.len()
        } else {
            0
        },
{
    lemma_one_run(text);
    law_plain_runs_follow_each_other(runs(text), seq![], layout);
    law_layouts(layout, text);
    reveal_with_fuel(runs_width, 2);
    assert(runs(text).drop_last() =~= seq![]);
    if layout.width is None {
        assert(shown =~= layout.padded(text));
    }
}

proof fn lemma_plain_to_the_end(text: Seq<char>)
    requires
        forall|i: int| 0 <= i < text.len() ==> #[trigger] text[i] != '^',
    ensures
        plain_len(text) == text.len(),
    decreases text.len(),
{
    if text.len() > 0 {
        let rest = text.skip(1);
        assert forall|i: int| 0 <= i < rest.len() implies #[trigger] rest[i] != '^' by {
            assert(text[i + 1] != '^');
        }
        lemma_plain_to_the_end(rest);
    }
}

proof fn lemma_one_run(text: Seq<char>)
    requires
        text.len() > 0,
        forall|i: int| 0 <= i < text.len() ==> #[trigger] text[i] != '^',
    ensures
        runs(text).len() == 1,
        runs(text)[0].1 == text,
{
    lemma_plain_to_the_end(text);
    assert(text.skip(0) =~= text);
    assert(text.take(text.len() as int) =~= text);
    lemma_run_lens(text);
    let next = text.skip(first_run_len(text) as int);
    assert(next.len() == 0);
    assert(runs(next) =~= seq![]);
}

} // verus!
