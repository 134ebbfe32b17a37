use regression_data::{chars_of, split_fields, trim};

#[test]
fn chars_of_lists_every_character() {
    assert_eq!(chars_of(""), Vec::<char>::new());
    assert_eq!(chars_of("a,b"), vec!['a', ',', 'b']);
    assert_eq!(chars_of("4 \u{e9}\u{4e16}"), vec!['4', ' ', '\u{e9}', '\u{4e16}']);
}

#[test]
fn trim_removes_surrounding_whitespace_only() {
    assert_eq!(trim("  3 "), "3");
    assert_eq!(trim("\t12.5\r\n"), "12.5");
    assert_eq!(trim("1 000"), "1 000");
    assert_eq!(trim(" a  b "), "a  b");
    assert_eq!(trim("x"), "x");
}

#[test]
fn trim_of_blank_text_is_empty() {
    assert_eq!(trim(""), "");
    assert_eq!(trim(" "), "");
    assert_eq!(trim(" \t\n\r "), "");
    assert_eq!(trim("\u{a0}\u{3000}"), "");
}

#[test]
fn trim_knows_unicode_whitespace() {
    assert_eq!(trim("\u{a0}7\u{2003}"), "7");
    assert_eq!(trim("\u{3000}\u{4e16}\u{754c}\u{2028}"), "\u{4e16}\u{754c}");
    // A zero-width space is not whitespace.
    assert_eq!(trim("\u{200b}7"), "\u{200b}7");
}

#[test]
fn trim_agrees_with_the_standard_library() {
    let samples = [
        "",
        " ",
        "  leading",
        "trailing  ",
        "  both  ",
        "in side",
        "\n\tmixed \u{a0}text\u{1680} ",
        "\u{85}next line\u{85}",
        "\u{2000}\u{200a}thin\u{202f}\u{205f}",
        "\u{feff}bom ",
        "\u{e9}t\u{e9} ",
    ];
    for s in samples {
        assert_eq!(trim(s), s.trim(), "on {:?}", s);
    }
}

#[test]
fn trim_is_idempotent() {
    for s in ["  a b  ", "", "   ", "x", "\t\u{a0}9.5\n"] {
        assert_eq!(trim(trim(s)), trim(s));
    }
}

#[test]
fn split_fields_of_plain_rows() {
    assert_eq!(split_fields("a,b,c"), vec!["a", "b", "c"]);
    assert_eq!(split_fields("one"), vec!["one"]);
    assert_eq!(split_fields(" 1 , 2 "), vec![" 1 ", " 2 "]);
}

#[test]
fn split_fields_keeps_empty_fields() {
    assert_eq!(split_fields(""), vec![""]);
    assert_eq!(split_fields(","), vec!["", ""]);
    assert_eq!(split_fields(",,"), vec!["", "", ""]);
    assert_eq!(split_fields("a,"), vec!["a", ""]);
    assert_eq!(split_fields(",a"), vec!["", "a"]);
    assert_eq!(split_fields("a,,b"), vec!["a", "", "b"]);
}

#[test]
fn split_fields_counts_separators_plus_one() {
    for s in ["", "x", ",", "a,b", ",,,,", "1,2,3,4,5,6,7,8,9,10,11,12,13,14"] {
        let commas = s.chars().filter(|c| *c == ',').count();
        assert_eq!(split_fields(s).len(), commas + 1, "on {:?}", s);
    }
}

#[test]
fn split_fields_handles_multibyte_text() {
    assert_eq!(split_fields("\u{e9},\u{4e16}\u{754c},z"), vec!["\u{e9}", "\u{4e16}\u{754c}", "z"]);
    // A full-width comma is not a separator.
    assert_eq!(split_fields("a\u{ff0c}b"), vec!["a\u{ff0c}b"]);
}

#[test]
fn split_fields_agrees_with_the_standard_library() {
    let samples = [
        "",
        ",",
        "a",
        "a,b",
        ",a,,b,",
        "1, 2 ,3",
        "\u{e9}\u{e9},\u{1f600},,x",
        "id,date,price,bedrooms",
    ];
    for s in samples {
        let expected: Vec<&str> = s.split(',').collect();
        assert_eq!(split_fields(s), expected, "on {:?}", s);
    }
}

#[test]
fn joining_the_fields_restores_the_row() {
    for s in ["", ",", "a,b", ",a,,b,", "x", "1,2,3"] {
        assert_eq!(split_fields(s).join(","), s);
    }
}

#[test]
fn trim_agrees_with_the_standard_library_on_every_margin_character() {
    for code in 0u32..0x3100 {
        if let Some(c) = char::from_u32(code) {
            let mut s = String::new();
            s.push(c);
            s.push('7');
            s.push(c);
            assert_eq!(trim(&s), s.trim(), "on U+{:04X}", code);
        }
    }
}
