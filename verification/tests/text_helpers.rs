use wark::text::{compare, joined, contains_text, decimal, hexadecimal, string_of, trim, Sign};

#[test]
fn names_compare_by_code_point() {
    assert_eq!(compare("a", "b"), Sign::Less);
    assert_eq!(compare("b", "a"), Sign::Greater);
    assert_eq!(compare("web", "web"), Sign::Equal);
    assert_eq!(compare("", ""), Sign::Equal);
    assert_eq!(compare("", "a"), Sign::Less);
    assert_eq!(compare("web", "web-deploy"), Sign::Less);
    assert_eq!(compare("web-deploy", "web"), Sign::Greater);
    assert_eq!(compare("Z", "a"), Sign::Less);
    assert_eq!(compare("z", "\u{e9}"), Sign::Less);
    assert_eq!(compare("\u{10000}", "\u{ffff}"), Sign::Greater);
}

#[test]
fn name_order_agrees_with_string_order() {
    let names = ["", "a", "ab", "b", "web", "web-deploy", "Web", "\u{e9}", "\u{4e2d}", "z"];
    for a in names.iter() {
        for b in names.iter() {
            let expected = if a < b {
                Sign::Less
            } else if a > b {
                Sign::Greater
            } else {
                Sign::Equal
            };
            assert_eq!(compare(a, b), expected);
        }
    }
}

#[test]
fn trim_removes_white_space_at_both_ends() {
    assert_eq!(trim("  1.2.3\n"), "1.2.3");
    assert_eq!(trim("1.2.3"), "1.2.3");
    assert_eq!(trim("\t a b \r\n"), "a b");
    assert_eq!(trim(""), "");
    assert_eq!(trim(" \n\t"), "");
    assert_eq!(trim("\u{a0}v1\u{2003}"), "v1");
    assert_eq!(trim("\u{3000}x\u{85}"), "x");
}

#[test]
fn trim_agrees_with_the_standard_library() {
    let texts = ["", " ", "a", " a", "a ", " a b ", "\n\nv1.0\n", "\u{1680}x\u{202f}\u{205f}", "\u{200b}x"];
    for t in texts.iter() {
        assert_eq!(trim(t), t.trim());
    }
}

#[test]
fn decimal_numerals() {
    assert_eq!(decimal(0), "0");
    assert_eq!(decimal(7), "7");
    assert_eq!(decimal(10), "10");
    assert_eq!(decimal(1234567890), "1234567890");
    assert_eq!(decimal(u64::MAX), "18446744073709551615");
}

#[test]
fn hexadecimal_numerals() {
    assert_eq!(hexadecimal(0), "0");
    assert_eq!(hexadecimal(15), "f");
    assert_eq!(hexadecimal(16), "10");
    assert_eq!(hexadecimal(0x2764), "2764");
    assert_eq!(hexadecimal(u32::MAX), "ffffffff");
}

#[test]
fn text_search() {
    assert!(contains_text("describe: no reference found, sorry", "no reference found"));
    assert!(contains_text("no reference found", "no reference found"));
    assert!(!contains_text("no reference", "no reference found"));
    assert!(contains_text("abc", ""));
    assert!(contains_text("", ""));
    assert!(!contains_text("", "a"));
    assert!(contains_text("aab", "ab"));
}

#[test]
fn joined_and_string_of() {
    assert_eq!(joined("web", "-deploy"), "web-deploy");
    assert_eq!(joined("", ""), "");
    assert_eq!(string_of(&vec!['a', '\u{e9}', 'z']), "a\u{e9}z");
}
