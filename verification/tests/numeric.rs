use regression_data::is_numeric;

fn parses(s: &str) -> bool {
    s.parse::<f64>().is_ok()
}

#[test]
fn plain_decimals_are_numeric() {
    for s in ["0", "3", "42", "007", "3.14", "5.", ".5", "0.5", "1234567890.0987654321"] {
        assert!(is_numeric(s), "{:?}", s);
    }
}

#[test]
fn signed_decimals_are_numeric() {
    for s in ["-3.14", "+3.14", "-0", "+.5", "-5.", "+7"] {
        assert!(is_numeric(s), "{:?}", s);
    }
}

#[test]
fn exponents_are_numeric() {
    for s in ["2.5E10", "2.5e10", "2.5E-10", "2.5e+10", "1e5", "1.e5", ".1e5", "-1E-0", "3e007"] {
        assert!(is_numeric(s), "{:?}", s);
    }
}

#[test]
fn special_values_are_numeric_in_either_case() {
    for s in [
        "inf", "-inf", "+inf", "infinity", "+infinity", "-infinity", "nan", "NaN", "NAN", "-nan",
        "+NaN", "Inf", "INF", "iNf", "Infinity", "INFINITY", "InFiNiTy",
    ] {
        assert!(is_numeric(s), "{:?}", s);
    }
}

#[test]
fn empty_and_bare_signs_are_not_numeric() {
    for s in ["", "+", "-", "+-", "--1", "+-1", "-+1", "++1"] {
        assert!(!is_numeric(s), "{:?}", s);
    }
}

#[test]
fn a_decimal_needs_a_digit() {
    for s in [".", "+.", "-.", ".e5", "e5", "E5", "-e5", ".e", "+.e1"] {
        assert!(!is_numeric(s), "{:?}", s);
    }
}

#[test]
fn a_decimal_has_one_point_at_most() {
    for s in ["1..2", "1.2.3", "..1", "1..", ".1.", "1.2e3.4"] {
        assert!(!is_numeric(s), "{:?}", s);
    }
}

#[test]
fn an_exponent_needs_a_digit() {
    for s in ["1e", "1E", "1e+", "1e-", "1.5e", "1e+-5", "1ee5", "1e5e5", "1e 5", "1e5 "] {
        assert!(!is_numeric(s), "{:?}", s);
    }
}

#[test]
fn surrounding_whitespace_is_not_numeric() {
    for s in [" 1", "1 ", " 1 ", "\t1", "1\n", "- 1", "1 .5", " inf", "nan "] {
        assert!(!is_numeric(s), "{:?}", s);
    }
}

#[test]
fn other_notations_are_not_numeric() {
    for s in [
        "abc", "three", "1,5", "1_000", "0x10", "1f", "1.0f64", "$5", "5%", "1/2", "1e5x", "x1",
        "N/A", "null", "none", "true",
    ] {
        assert!(!is_numeric(s), "{:?}", s);
    }
}

#[test]
fn near_misses_of_special_values_are_not_numeric() {
    for s in [
        "in", "infi", "infinit", "infinityy", "infinity1", "na", "nana", "nan1", "1nan", "i", "n",
        "inf.", ".inf", "ins", "nun", "infinitx", "+-inf", "inf inity",
    ] {
        assert!(!is_numeric(s), "{:?}", s);
    }
}

#[test]
fn digits_of_other_scripts_are_not_numeric() {
    // Arabic-Indic and full-width digits, and letters that only resemble
    // the ASCII ones.
    for s in [
        "\u{661}\u{662}\u{663}",
        "\u{ff11}\u{ff12}",
        "1\u{ff0e}5",
        "\u{212a}",
        "\u{130}nf",
        "\u{131}nf",
        "na\u{274}",
        "1\u{ff45}5",
        "\u{2212}1",
    ] {
        assert!(!is_numeric(s), "{:?}", s);
        assert!(!parses(s), "{:?}", s);
    }
}

#[test]
fn characters_next_to_letters_in_the_code_table_do_not_match() {
    // Each differs from a letter of a special value by one bit, or by the
    // distance between the two cases.
    for s in ["\u{9}nf", ")nf", "i\u{e}f", "in\u{6}", "in&", "INf\u{0}", "n!n", "naN\u{20}"] {
        assert!(!is_numeric(s), "{:?}", s);
        assert!(!parses(s), "{:?}", s);
    }
}

#[test]
fn long_literals_are_numeric() {
    let digits = "9".repeat(500);
    let texts = [
        digits.clone(),
        format!("-{}.{}e-{}", digits, digits, digits),
        format!("{}.{}.", digits, digits),
        format!("+.{}E+{}", digits, digits),
        format!("{}e", digits),
    ];
    let expected = [true, true, false, true, false];
    for (t, e) in texts.iter().zip(expected.iter()) {
        assert_eq!(is_numeric(t), *e);
        assert_eq!(parses(t), *e);
    }
}

#[test]
fn is_numeric_agrees_with_the_float_parser_on_samples() {
    let samples = [
        "", "0", "-0", "+0", "1", "1.", ".1", ".", "1e1", "1e", "e1", "1e+1", "1e-1", "1e+",
        "1.5e3", ".5e3", "5.e3", "+.5e-3", "inf", "Inf", "INFINITY", "infinit", "nan", "NaN",
        "-nan", "+nan", "nan0", " 1", "1 ", "1,0", "1_0", "0x1", "1e1.0", "--1", "+-1", "1-", "1+",
        "1e1e1", "1.1.1", "12345678901234567890123456789", "0.000000000000000000000000001",
        "1e400", "1e-400", "4", "221900", "3.5", "7.0e0", "bedrooms", "price",
    ];
    for s in samples {
        assert_eq!(is_numeric(s), parses(s), "on {:?}", s);
    }
}

fn agree_on_all_texts(alphabet: &[char], max_len: usize) {
    let mut texts: Vec<String> = vec![String::new()];
    let mut from = 0;
    for _ in 0..max_len {
        let upto = texts.len();
        for k in from..upto {
            for c in alphabet {
                let mut t = texts[k].clone();
                t.push(*c);
                texts.push(t);
            }
        }
        from = upto;
    }
    for t in &texts {
        assert_eq!(is_numeric(t), parses(t), "on {:?}", t);
    }
}

#[test]
fn is_numeric_agrees_with_the_float_parser_on_all_short_number_texts() {
    agree_on_all_texts(&['0', '7', '.', 'e', 'E', '+', '-', ' '], 5);
}

#[test]
fn is_numeric_agrees_with_the_float_parser_on_all_short_letter_texts() {
    agree_on_all_texts(&['i', 'N', 'f', 'a', 'n', 'I', '-', '1', 't', 'y'], 4);
}

#[test]
fn is_numeric_agrees_with_the_float_parser_on_spellings_of_infinity() {
    let word: Vec<char> = "infinity".chars().collect();
    for mask in 0u32..256 {
        let mut t = String::new();
        for (k, c) in word.iter().enumerate() {
            if mask & (1 << k) != 0 {
                t.push(c.to_ascii_uppercase());
            } else {
                t.push(*c);
            }
        }
        assert!(is_numeric(&t), "{:?}", t);
        assert!(parses(&t), "{:?}", t);
        let cut = &t[..7];
        assert_eq!(is_numeric(cut), parses(cut), "on {:?}", cut);
    }
}
