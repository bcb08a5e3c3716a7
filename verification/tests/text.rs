use openshell_fractal::schema::{
    default_max_depth, default_max_memory, default_timeout, default_true, default_wasm_engine,
    CellType, ClassificationLevel, ClassificationMode, ViolationSeverity,
};
use openshell_fractal::text::{
    contains, decimal_text, holds_char, holds_text, is_blank, join, padded_hex_text, replace, same_text,
    split_lines, starts_with, strings, text_after_last, text_before_first,
};

#[test]
fn parts_of_texts() {
    assert!(contains("abc", "bc") && contains("abc", "") && !contains("abc", "ac"));
    assert!(!contains("", "a"));
    assert!(holds_char("a:b", ':') && !holds_char("ab", ':') && !holds_char("", ':'));
    assert!(starts_with("abc", "ab") && starts_with("abc", "") && !starts_with("a", "ab"));
    assert!(same_text("\u{e9}", "\u{e9}") && !same_text("a", "b") && !same_text("a", "aa"));
    assert_eq!(replace("aaa", "aa", "b"), "ba");
    assert_eq!(replace("xyx", "x", "xx"), "xxyxx");
    assert_eq!(text_before_first("a:b:c", ':'), "a");
    assert_eq!(text_before_first("abc", ':'), "abc");
    assert_eq!(text_after_last("a@b@c", '@'), "c");
    assert_eq!(text_after_last("abc", '@'), "abc");
    assert_eq!(text_after_last("abc@", '@'), "");
}

#[test]
fn lines_agree_with_the_standard_library() {
    for s in ["", "\n", "a", "a\n", "a\nb", "a\r\nb\r\n", "\r", "a\rb\r", "\n\n", "a\r\r\n"] {
        let expected: Vec<&str> = s.lines().collect();
        assert_eq!(split_lines(s), expected);
    }
}

#[test]
fn blanks_agree_with_the_standard_library() {
    for s in ["", " \t\r\n", "\u{a0}\u{2003}\u{3000}", "a", " a ", "\u{200b}", "\u{85}\u{1680}"] {
        assert_eq!(is_blank(s), s.trim().is_empty());
    }
    for c in '\u{0}'..='\u{ffff}' {
        assert_eq!(is_blank(&c.to_string()), c.is_whitespace());
    }
}

#[test]
fn numbers_are_written() {
    for n in [0u128, 7, 10, 255, 1_000_000, u64::MAX as u128, u128::MAX] {
        assert_eq!(decimal_text(n), n.to_string());
    }
    for n in [0u128, 15, 16, 0xabc, u128::MAX] {
        assert_eq!(padded_hex_text(n, 4), format!("{:04x}", n));
        assert_eq!(padded_hex_text(n, 16), format!("{:016x}", n));
    }
}

#[test]
fn lists_of_texts() {
    let list = strings(&["a", "b"]);
    assert!(holds_text(&list, "b") && !holds_text(&list, "c"));
    assert_eq!(join(&list, ", "), "a, b");
    assert_eq!(join(&vec![], ", "), "");
}

#[test]
fn dominance_is_an_order() {
    let levels = [
        ClassificationLevel::Public,
        ClassificationLevel::Internal,
        ClassificationLevel::Pii,
        ClassificationLevel::Secret,
    ];
    for (i, a) in levels.iter().enumerate() {
        assert_eq!(a.rank() as usize, i);
        assert_eq!(a.name(), format!("{:?}", a));
        assert_eq!(a.tag(), format!("<{}>", a.name().to_lowercase()));
        for (j, b) in levels.iter().enumerate() {
            assert_eq!(a.dominates(b), i >= j);
        }
    }
}

#[test]
fn names_and_defaults() {
    for t in [CellType::Transformer, CellType::Reactor, CellType::Keeper, CellType::Channel] {
        assert_eq!(t.name(), format!("{:?}", t));
        assert_eq!(t.tag(), t.name().to_lowercase());
    }
    assert_eq!(ViolationSeverity::Block.name(), "Block");
    assert_eq!(ViolationSeverity::Warn.name(), "Warn");
    assert_eq!(ClassificationMode::default(), ClassificationMode::Strict);
    assert!(default_true());
    assert_eq!(default_wasm_engine(), "wasmtime");
    assert_eq!((default_max_memory(), default_timeout(), default_max_depth()), (256, 300, 20));
}
