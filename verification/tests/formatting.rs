use debugger_sh::debug::formatters::cpp::string::{quote, StdStringFormatter, StringRep};
use debugger_sh::debug::formatters::ChildCounts;
use debugger_sh::debug::types::NamespaceHierarchy;
use debugger_sh::text::{
    concat3, ends_with, eq_ignore_ascii_case, i128_text, join_strings, replace, rfind_char,
    starts_with, str_eq, substring, u64_text,
};

#[test]
fn quote_plain_text() {
    assert_eq!(quote(b"hello"), "\"hello\"");
}

#[test]
fn quote_empty() {
    assert_eq!(quote(b""), "\"\"");
}

#[test]
fn quote_escapes_specials() {
    assert_eq!(quote(b"a\"b\\c\nd\re\tf"), "\"a\\\"b\\\\c\\nd\\re\\tf\"");
}

#[test]
fn quote_hex_escapes_other_bytes() {
    assert_eq!(quote(&[0x00, 0x7f, 0xff, 0x1b]), "\"\\x00\\x7f\\xff\\x1b\"");
}

#[test]
fn quote_keeps_printable_ascii() {
    assert_eq!(quote(b" ~{}"), "\" ~{}\"");
}

#[test]
fn string_read_long_mode() {
    assert_eq!(StdStringFormatter::read(0x80, Some(11)), Ok(StringRep::Long));
    assert_eq!(StdStringFormatter::read(0xff, None), Ok(StringRep::Long));
}

#[test]
fn string_read_short_mode() {
    assert_eq!(StdStringFormatter::read(5, Some(11)), Ok(StringRep::Short { len: 5 }));
    assert_eq!(StdStringFormatter::read(11, Some(11)), Ok(StringRep::Short { len: 11 }));
    assert_eq!(StdStringFormatter::read(0x7f, None), Ok(StringRep::Short { len: 127 }));
}

#[test]
fn string_read_short_size_over_capacity_is_refused() {
    assert_eq!(
        StdStringFormatter::read(12, Some(11)),
        Err("std::string short size 12 exceeds inline buffer 11".to_string())
    );
    assert_eq!(
        StdStringFormatter::read(20, Some(4294967296)),
        Ok(StringRep::Short { len: 20 })
    );
}

#[test]
fn string_has_no_children() {
    let c = StdStringFormatter::num_children();
    assert_eq!(c, ChildCounts { indexed: 0, named: 0 });
    assert!(c.is_empty());
}

#[test]
fn child_counts_total_and_default() {
    let c = ChildCounts { indexed: 3, named: 2 };
    assert_eq!(c.total(), 5);
    assert!(!c.is_empty());
    assert_eq!(ChildCounts::default(), ChildCounts::none());
}

#[test]
fn qualify_without_namespaces() {
    let ns = NamespaceHierarchy(Vec::new());
    assert_eq!(ns.qualify("int"), "int");
}

#[test]
fn qualify_joins_namespaces() {
    let ns = NamespaceHierarchy(vec!["a".to_string(), "b".to_string()]);
    assert_eq!(ns.qualify("Point"), "a::b::Point");
}

#[test]
fn qualify_drops_libcxx_inline_namespace() {
    let ns = NamespaceHierarchy(vec!["std".to_string(), "__2".to_string()]);
    assert_eq!(ns.qualify("string"), "std::string");
    let plain = NamespaceHierarchy(Vec::new());
    assert_eq!(plain.qualify("std::__2::vector<int, std::__2::allocator<int>>"), "std::vector<int, std::allocator<int>>");
}

#[test]
fn qualify_default_is_empty() {
    let ns = NamespaceHierarchy::default();
    assert_eq!(ns.qualify("x"), "x");
}

#[test]
fn text_numbers() {
    assert_eq!(u64_text(0), "0");
    assert_eq!(u64_text(18446744073709551615), "18446744073709551615");
    assert_eq!(i128_text(-42), "-42");
    assert_eq!(i128_text(170141183460469231731687303715884105727), "170141183460469231731687303715884105727");
}

#[test]
fn text_search_and_edit() {
    assert!(str_eq("abc", "abc"));
    assert!(!str_eq("abc", "abd"));
    assert!(starts_with("std::string", "std::"));
    assert!(!starts_with("st", "std"));
    assert!(ends_with("a.rcgu.o", ".rcgu.o"));
    assert_eq!(replace("aaa", "aa", "b"), "ba");
    assert_eq!(join_strings(&vec!["a".to_string(), "b".to_string(), "c".to_string()], "::"), "a::b::c");
    assert_eq!(join_strings(&Vec::new(), "::"), "");
    assert!(eq_ignore_ascii_case("CPP", "cpp"));
    assert!(!eq_ignore_ascii_case("cp", "cpp"));
    assert_eq!(rfind_char("/a/b.c", '/'), Some(2));
    assert_eq!(rfind_char("abc", '/'), None);
    assert_eq!(substring("hello", 1, 4), "ell");
    assert_eq!(concat3("a", "b", "c"), "abc");
}

#[test]
fn quote_is_decodable() {
    let bytes: Vec<u8> = (0u8..=255).collect();
    let q = quote(&bytes);
    let inner = &q.as_bytes()[1..q.len() - 1];
    let mut out = Vec::new();
    let mut i = 0;
    while i < inner.len() {
        if inner[i] == b'\\' {
            match inner[i + 1] {
                b'x' => {
                    let hex = std::str::from_utf8(&inner[i + 2..i + 4]).unwrap();
                    out.push(u8::from_str_radix(hex, 16).unwrap());
                    i += 4;
                }
                b'n' => { out.push(b'\n'); i += 2; }
                b'r' => { out.push(b'\r'); i += 2; }
                b't' => { out.push(b'\t'); i += 2; }
                c => { out.push(c); i += 2; }
            }
        } else {
            out.push(inner[i]);
            i += 1;
        }
    }
    assert_eq!(out, bytes);
}
