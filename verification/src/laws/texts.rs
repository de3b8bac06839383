//! What holds of numbers in words and of layouts.

use crate::text::{decimal, digit, pad_end, pad_start, plain_layout, repeat, truth, Alignment, Layout};
use vstd::prelude::*;

verus! {

/// Whether `part` stands in `text` from `at` on.
pub open spec fn stands_at(text: Seq<char>, at: int, part: Seq<char>) -> bool {
    &&& 0 <= at
    &&& at + part.len() <= text.len()
    &&& forall|i: int| 0 <= i < part.len() ==> text[at + i] == #[trigger] part[i]
}

/// The number that decimal digits stand for.
pub open spec fn value(digits: Seq<char>) -> int
    decreases digits.len(),
{
    if digits.len() == 0 {
        0
    } else {
        value(digits.drop_last()) * 10 + (digits.last() as int - '0' as int)
    }
}

/// A number in decimal notation reads as that number, has digits only and no
/// leading zero.
pub proof fn law_numbers_read_back(n: nat)
    ensures
        decimal(n).len() > 0,
        forall|i: int| 0 <= i < decimal(n).len() ==> '0' <= #[trigger] decimal(n)[i] <= '9',
        decimal(n)[0] == '0' ==> n == 0,
        value(decimal(n)) == n,
    decreases n,
{
    reveal_with_fuel(value, 2);
    if n >= 10 {
        law_numbers_read_back(n / 10);
        let init = decimal(n / 10);
        assert(decimal(n).drop_last() =~= init);
        assert forall|i: int| 0 <= i < decimal(n).len() implies '0' <= #[trigger] decimal(
            n,
        )[i] <= '9' by {
            if i < init.len() {
                assert(decimal(n)[i] == init[i]);
            }
        }
        assert(decimal(n)[0] == init[0]);
    } else {
        assert(decimal(n).drop_last() =~= seq![]);
    }
}

/// The word for a truth value tells it.
pub proof fn law_truth_is_told(b: bool)
    ensures
        b ==> truth(b) == seq!['t', 'r', 'u', 'e'],
        !b ==> truth(b) == seq!['f', 'a', 'l', 's', 'e'],
{
    reveal_strlit("true");
    reveal_strlit("false");
    assert(b ==> truth(b) =~= seq!['t', 'r', 'u', 'e']);
    assert(!b ==> truth(b) =~= seq!['f', 'a', 'l', 's', 'e']);
}

/// A text that is filled up keeps all of its characters, on one side, becomes
/// as long as the width asks for and no longer, and has nothing but the fill
/// besides.
pub proof fn law_filled_texts(text: Seq<char>, width: nat, fill: char)
    ensures
        ({
            let e = pad_end(text, width, fill);
            let s = pad_start(text, width, fill);
            &&& e.len() == if text.len() >= width { text.len() } else { width }
            &&& s.len() == e.len()
            &&& e.take(text.len() as int) == text
            &&& forall|i: int| text.len() <= i < e.len() ==> #[trigger] e[i] == fill
            &&& s.skip(s.len() - text.len()) == text
            &&& forall|i: int| 0 <= i < s.len() - text.len() ==> #[trigger] s[i] == fill
        }),
{
    let e = pad_end(text, width, fill);
    let s = pad_start(text, width, fill);
    assert(e.take(text.len() as int) =~= text);
    assert(s.skip(s.len() - text.len()) =~= text);
}

/// A fill is as long as it is asked for, and nothing where less than nothing is
/// asked for.
pub proof fn law_fills(fill: char, n: int)
    ensures
        n >= 0 ==> repeat(fill, n).len() == n,
        n <= 0 ==> repeat(fill, n).len() == 0,
        forall|i: int| 0 <= i < n ==> #[trigger] repeat(fill, n)[i] == fill,
{
}

/// A text that is laid out is cut to the precision and not beyond, becomes as
/// long as the width asks for and no longer, and has nothing but the fill
/// besides. It stands at the left or the right, or in the middle; where that
/// cannot be, one place further to the left.
pub proof fn law_layouts(layout: Layout, text: Seq<char>)
    ensures
        ({
            let p = layout.padded(text);
            let shown: int = match layout.precision {
                Some(max) => if max < text.len() { max as int } else { text.len() as int },
                None => text.len() as int,
            };
            let width: int = match layout.width {
                Some(w) => if w > shown { w as int } else { shown },
                None => shown,
            };
            let gap = width - shown;
            let at: int = match layout.align {
                Some(Alignment::Right) => gap,
                Some(Alignment::Center) => gap / 2,
                _ => 0,
            };
            &&& p.len() == width
            &&& forall|i: int| 0 <= i < shown ==> p[at + i] == #[trigger] text[i]
            &&& forall|i: int| 0 <= i < at || at + shown <= i < width ==> #[trigger] p[i] == layout.fill
        }),
        layout.width is None && layout.precision is None ==> layout.padded(text) == text,
{
    let shown = layout.cut(text);
    if layout.width is None && layout.precision is None {
        assert(layout.padded(text) =~= text);
    }
}

/// The plain layout asks for nothing.
pub proof fn law_plain_layout_asks_for_nothing()
    ensures
        plain_layout().width is None,
        plain_layout().precision is None,
        plain_layout().is_plain(),
        forall|l: Layout| #[trigger] l.is_plain() <==> l.width is None && l.precision is None,
{
}

/// Digits are told apart, and rise.
pub proof fn law_digits_rise(n: nat)
    requires
        n < 10,
    ensures
        digit(n) as int == '0' as int + n,
{
}

} // verus!
