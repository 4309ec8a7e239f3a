use rpn::number::{decimal, digit, number};
use rpn::text::{
    chars_of, is_whitespace, lower_char, matches_text, same_text, split_line,
    to_ascii_lowercase, trim, trimmed_length,
};

fn chars(text: &str) -> Vec<char> {
    text.chars().collect()
}

fn string(text: &[char]) -> String {
    text.iter().collect()
}

fn split(line: &str) -> Vec<String> {
    split_line(&chars(line)).iter().map(|t| string(t)).collect()
}

#[test]
fn chars_of_gives_the_characters() {
    assert_eq!(chars_of(""), Vec::<char>::new());
    assert_eq!(chars_of("a \u{e4}\u{1f600}b"), vec!['a', ' ', '\u{e4}', '\u{1f600}', 'b']);
}

#[test]
fn matches_text_compares_whole_texts() {
    assert!(matches_text(&chars("dup"), "dup"));
    assert!(!matches_text(&chars("dup"), "du"));
    assert!(!matches_text(&chars("du"), "dup"));
    assert!(!matches_text(&chars("dup"), "dop"));
    assert!(matches_text(&chars(""), ""));
    assert!(matches_text(&chars("\u{e4}"), "\u{e4}"));
}

#[test]
fn same_text_compares_whole_texts() {
    assert!(same_text(&chars("dup"), &chars("dup")));
    assert!(!same_text(&chars("dup"), &chars("du")));
    assert!(!same_text(&chars("du"), &chars("dup")));
    assert!(!same_text(&chars("dup"), &chars("dop")));
    assert!(same_text(&chars(""), &chars("")));
}

#[test]
fn lower_char_agrees_with_the_standard_library() {
    for code in 0u32..0x11_0000 {
        if let Some(c) = char::from_u32(code) {
            assert_eq!(lower_char(c), c.to_ascii_lowercase());
        }
    }
}

#[test]
fn is_whitespace_agrees_with_the_standard_library() {
    for code in 0u32..0x11_0000 {
        if let Some(c) = char::from_u32(code) {
            assert_eq!(is_whitespace(c), c.is_whitespace(), "{:x}", code);
        }
    }
}

#[test]
fn to_ascii_lowercase_touches_ascii_letters_only() {
    assert_eq!(string(&to_ascii_lowercase(&chars("Dup \u{c4}Z@[`{"))), "dup \u{c4}z@[`{");
    let text = "The Quick \u{c9}t\u{e9} 123 XYZ";
    assert_eq!(string(&to_ascii_lowercase(&chars(text))), text.to_ascii_lowercase());
}

#[test]
fn trimmed_length_agrees_with_the_standard_library() {
    for line in [
        "",
        " ",
        "1 2 +",
        "1 2 + ",
        "1 2 +\n",
        "1 2 +\r\n",
        "1 2 + \t \u{a0}\u{2003}\u{3000}",
        " \t\n",
        "a\u{200b}",
        "a b\u{85}\u{1680}",
        "\u{e4} ",
    ] {
        let n = trimmed_length(&chars(line));
        assert_eq!(string(&chars(line)[..n]), line.trim_end());
    }
}

#[test]
fn split_line_cuts_at_every_space() {
    assert_eq!(split(""), vec![""]);
    assert_eq!(split("a"), vec!["a"]);
    assert_eq!(split("1 2 +"), vec!["1", "2", "+"]);
    assert_eq!(split("1  2"), vec!["1", "", "2"]);
    assert_eq!(split(" 1"), vec!["", "1"]);
    assert_eq!(split("1 "), vec!["1", ""]);
    assert_eq!(split("  "), vec!["", "", ""]);
    assert_eq!(split("a\tb c"), vec!["a\tb", "c"]);
}

#[test]
fn split_line_agrees_with_the_standard_library() {
    for line in ["", " ", "a b", "a  b ", "  a", ": inc 1 + ;", "\u{e4} \u{1f600}  x"] {
        let expected: Vec<String> = line.split(' ').map(|t| t.to_string()).collect();
        assert_eq!(split(line), expected);
    }
}

#[test]
fn trim_takes_the_white_space_at_the_end_off() {
    for line in ["", " ", "1 2 +", "1 2 + \n", " \t a \u{a0}\u{3000}", "\u{e4} "] {
        let mut text = chars(line);
        trim(&mut text);
        assert_eq!(string(&text), line.trim_end());
    }
}

#[test]
fn digits_are_told() {
    assert!(digit('0') && digit('9') && !digit('/') && !digit(':') && !digit('\u{663}'));
}

#[test]
fn decimals() {
    for good in ["0", "12", "1.", ".5", "1.5", "1e5", "1e+5", "1e-50", "1.e5", ".5e-3", "007"] {
        assert!(decimal(&chars(good)), "{}", good);
    }
    for bad in [
        "", ".", "e5", ".e5", "1e", "1e+", "1e5x", "1e+-5", "+1", "1.2.3", "1 ", "1e5.", "inf",
        "1E5", "12a",
    ] {
        assert!(!decimal(&chars(bad)), "{}", bad);
    }
}

#[test]
fn number_examples() {
    for good in [
        "0", "-0", "+1", "3.14", "-3.14", "2.5E10", "2.5e-10", "5.", ".5", "0.5", "inf", "-inf",
        "+infinity", "NaN", "nan", "-nan", "INF", "Infinity", "1e0", "-.5E+3",
    ] {
        assert!(number(&chars(good)), "{}", good);
        assert!(good.parse::<f64>().is_ok(), "{}", good);
    }
    for bad in [
        "", "+", "-", ".", "e", "E5", "--1", "+-1", "1+", "1e", "1e-", "1,5", "0x1", "1f", "in",
        "infinit", "infinityy", "na", " 1", "1 ", "1_000", "\u{661}", "1e1.5", "-", "+.", "-.e1",
    ] {
        assert!(!number(&chars(bad)), "{:?}", bad);
        assert!(bad.parse::<f64>().is_err(), "{:?}", bad);
    }
}

#[test]
fn number_agrees_with_the_standard_library_on_short_texts() {
    let alphabet = ['0', '7', '+', '-', '.', 'e', 'E', 'i', 'n', 'f', 'a', 'N', ' ', 'x'];
    let mut texts: Vec<String> = vec![String::new()];
    let mut from = 0;
    for _ in 0..5 {
        let upto = texts.len();
        for i in from..upto {
            for c in alphabet {
                let mut next = texts[i].clone();
                next.push(c);
                texts.push(next);
            }
        }
        from = upto;
    }
    assert_eq!(texts.len(), 1 + 14 + 196 + 2744 + 38416 + 537824);
    for text in texts {
        assert_eq!(number(&chars(&text)), text.parse::<f64>().is_ok(), "{:?}", text);
    }
}

#[test]
fn number_agrees_with_the_standard_library_on_long_names() {
    let pieces = ["", "+", "-", "in", "inf", "infinit", "infinity", "infinityy", "nan", "nann", "na"];
    for sign in ["", "+", "-", "++"] {
        for piece in pieces {
            for tail in ["", "e", "1", " "] {
                for upper in [false, true] {
                    let mut text = format!("{}{}{}", sign, piece, tail);
                    if upper {
                        text = text.to_uppercase();
                    }
                    assert_eq!(number(&chars(&text)), text.parse::<f64>().is_ok(), "{:?}", text);
                }
            }
        }
    }
}
