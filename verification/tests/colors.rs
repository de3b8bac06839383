use xash3d_query::color::{serialize_colored, Color, Colored, Terminal};
use xash3d_query::text::{Alignment, Layout};

const TTY: Terminal = Terminal {
    color: true,
    tty: true,
};
const PIPE: Terminal = Terminal {
    color: true,
    tty: false,
};
const PLAIN: Terminal = Terminal {
    color: false,
    tty: false,
};

const LAYOUT: Layout = Layout {
    fill: ' ',
    align: None,
    width: None,
    precision: None,
};

fn filled(width: Option<usize>) -> Layout {
    Layout {
        fill: '.',
        width,
        ..LAYOUT
    }
}

#[test]
fn serialized_text_has_no_codes() {
    assert_eq!(serialize_colored("^1no^7 ^2colors^7"), "no colors");
    assert_eq!(serialize_colored("^1foo^bar^3"), "foo^bar");
    assert_eq!(serialize_colored("^1foo^2bar^"), "foobar^");
    assert_eq!(serialize_colored("^9x^a"), "x^a");
    assert_eq!(serialize_colored("^^11"), "^1");
    assert_eq!(serialize_colored(""), "");
}

#[test]
fn runs_show_the_text_without_codes() {
    for text in ["^1no^7 ^2colors^7", "a^1^2^3b^x\u{fe0f}^2", "", "^^11"] {
        assert_eq!(
            Colored::new(text, false).fmt(PLAIN, LAYOUT),
            serialize_colored(text)
        );
    }
}

// One test sets crossterm's switch for colours, which the whole process shares.
#[test]
fn terminal_shows_colors() {
    crossterm::style::Colored::set_ansi_color_disabled(false);
    assert_eq!(
        Colored::new("a^1b^9c^7d", false).fmt(TTY, LAYOUT),
        "\x1b[0ma\x1b[0m\x1b[38;5;9mb\x1b[39m\x1b[0mc\x1b[0m\x1b[38;5;15md\x1b[39m"
    );
    assert_eq!(
        Colored::new("^0a^2b^3c^4d^5e^6f", true).fmt(PIPE, LAYOUT),
        "\x1b[38;5;0ma\x1b[39m\x1b[38;5;10mb\x1b[39m\x1b[38;5;11mc\x1b[39m\
         \x1b[38;5;12md\x1b[39m\x1b[38;5;14me\x1b[39m\x1b[38;5;13mf\x1b[39m"
    );
    // The last of several codes counts.
    assert_eq!(
        Colored::new("^1^2^3x", true).fmt(TTY, LAYOUT),
        "\x1b[38;5;11mx\x1b[39m"
    );
    // The width is filled up once, behind all runs.
    assert_eq!(
        Colored::new("^1ab^2c", true).fmt(TTY, filled(Some(5))),
        "\x1b[38;5;9mab\x1b[39m\x1b[38;5;10mc\x1b[39m.."
    );
    // The user can ask for no colours.
    crossterm::style::Colored::set_ansi_color_disabled(true);
    assert_eq!(
        Colored::new("^1a^8b", true).fmt(TTY, LAYOUT),
        "\x1b[ma\x1b[m\x1b[0mb\x1b[0m"
    );
}

#[test]
fn pieces_are_what_has_to_be_painted() {
    let pieces = Colored::new("a^1b^9c^7^4d^2", false).pieces();
    let expected = [
        (None, "a"),
        (Some(Color::Red), "b"),
        (None, "c"),
        (Some(Color::Blue), "d"),
        (Some(Color::Green), ""),
    ];
    assert_eq!(pieces.len(), expected.len());
    for (piece, (color, text)) in pieces.iter().zip(expected) {
        assert_eq!((piece.0, piece.1.as_str()), (color, text));
    }
    assert!(Colored::new("", true).pieces().is_empty());
}

#[test]
fn painted_pieces_are_joined() {
    let text = Colored::new("a^1bc", true);
    let painted = vec!["<a>".to_owned(), "<bc>".to_owned()];
    assert_eq!(text.fmt_painted(&painted, filled(None)), "<a><bc>");
    // The width counts the characters of the runs, not those of the paint.
    assert_eq!(text.fmt_painted(&painted, filled(Some(5))), "<a><bc>..");
    assert_eq!(text.fmt_painted(&painted, filled(Some(2))), "<a><bc>");
}

#[test]
fn nothing_is_shown_without_a_terminal() {
    assert_eq!(Colored::new("^1abc", false).fmt(PIPE, LAYOUT), "");
    assert_eq!(Colored::new("^1abc", false).fmt(PIPE, filled(Some(2))), "..");
}

#[test]
fn width_is_filled_up() {
    assert_eq!(
        Colored::new("^1ab^2c", false).fmt(PLAIN, filled(Some(5))),
        "ab...c......"
    );
    assert_eq!(
        Colored::new("abcdef", false).fmt(PLAIN, filled(Some(5))),
        "abcdef"
    );
}

#[test]
fn every_run_is_laid_out_without_colors() {
    let text = Colored::new("^1abc^2d", false);
    let aligned = |align| Layout {
        align: Some(align),
        ..filled(Some(6))
    };
    assert_eq!(text.fmt(PLAIN, aligned(Alignment::Left)), "abc...d.......");
    assert_eq!(text.fmt(PLAIN, aligned(Alignment::Right)), "...abc.....d..");
    assert_eq!(text.fmt(PLAIN, aligned(Alignment::Center)), ".abc....d.....");
    let cut = Layout {
        precision: Some(2),
        ..filled(None)
    };
    assert_eq!(text.fmt(PLAIN, cut), "abd");
    let cut = Layout {
        precision: Some(2),
        ..aligned(Alignment::Right)
    };
    // Behind the runs, all of their characters count.
    assert_eq!(text.fmt(PLAIN, cut), "....ab.....d..");
    assert_eq!(Colored::new("^1abc", false).fmt(PIPE, cut), "......");
}

#[test]
fn layouts_are_those_of_format() {
    for text in ["", "x", "\u{e9}t\u{e9}", "longer text"] {
        for width in [0, 1, 4, 7, 20] {
            for cut in [0, 2, 3, 30] {
                for (align, expected) in [
                    (None, format!("{:w$.p$}", text, w = width, p = cut)),
                    (Some(Alignment::Left), format!("{:*<w$.p$}", text, w = width, p = cut)),
                    (Some(Alignment::Right), format!("{:*>w$.p$}", text, w = width, p = cut)),
                    (Some(Alignment::Center), format!("{:*^w$.p$}", text, w = width, p = cut)),
                ] {
                    let layout = Layout {
                        fill: if align.is_some() { '*' } else { ' ' },
                        align,
                        width: Some(width),
                        precision: Some(cut),
                    };
                    let mut out = "> ".to_owned();
                    layout.push(&mut out, text);
                    assert_eq!(out, format!("> {}", expected));
                }
            }
        }
    }
    assert_eq!(Layout::plain(), LAYOUT);
}
