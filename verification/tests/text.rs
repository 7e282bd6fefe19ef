use loxrs::text::{chars_of, join, push_decimal, push_hexadecimal, same_text, string_of};

#[test]
fn decimal_digits() {
    for n in [0usize, 1, 9, 10, 11, 99, 100, 255, 256, 1000, 65535, usize::MAX] {
        let mut s = String::from("n=");
        push_decimal(&mut s, n);
        assert_eq!(s, format!("n={}", n));
    }
}

#[test]
fn texts() {
    assert_eq!(chars_of("a\u{e9}b"), vec!['a', '\u{e9}', 'b']);
    assert_eq!(string_of(&vec!['a', 'b', 'c', 'd'], 1, 3), "bc");
    assert_eq!(string_of(&vec!['a'], 1, 1), "");
    assert_eq!(join("ab", "cd"), "abcd");
    assert!(same_text("init", "init"));
    assert!(!same_text("init", "inits"));
}

#[test]
fn hexadecimal_numbers_are_written_in_lower_case() {
    let mut s = String::from("0x");
    push_hexadecimal(&mut s, 0);
    assert_eq!(s, "0x0");
    let mut s = String::new();
    push_hexadecimal(&mut s, 255);
    assert_eq!(s, "ff");
    let mut s = String::new();
    push_hexadecimal(&mut s, 0x1a2b);
    assert_eq!(s, "1a2b");
}
