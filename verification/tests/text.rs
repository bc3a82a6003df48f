use home_dns::decimal::{
    octets_to_text, parse_octet, parse_octets, parse_u32, push_decimal, read_digits,
};
use home_dns::dns_request::wire::{push_bytes, push_u16, push_u32, read_u16, tail};
use home_dns::text::{
    chars_of, clone_bytes, clone_names, is_blank, is_white_space, join_names, split_chars,
    string_of,
};

fn chars(text: &str) -> Vec<char> {
    text.chars().collect()
}

fn pieces(text: &str, sep: char) -> Vec<String> {
    split_chars(&chars(text), sep).iter().map(|p| p.iter().collect()).collect()
}

#[test]
fn characters_of_a_string_and_back() {
    assert_eq!(chars_of("a\u{e9}\u{1f600}"), vec!['a', '\u{e9}', '\u{1f600}']);
    assert_eq!(chars_of(""), Vec::<char>::new());
    assert_eq!(string_of(&vec!['h', 'i', '\u{2003}']), "hi\u{2003}");
    assert_eq!(string_of(&Vec::new()), "");
}

#[test]
fn split_gives_every_piece() {
    assert_eq!(pieces("a.b.c", '.'), vec!["a", "b", "c"]);
    assert_eq!(pieces("", '.'), vec![""]);
    assert_eq!(pieces(".", '.'), vec!["", ""]);
    assert_eq!(pieces("a..b.", '.'), vec!["a", "", "b", ""]);
    assert_eq!(pieces("a b", '.'), vec!["a b"]);
    assert_eq!(pieces("1 2  3", ' '), vec!["1", "2", "", "3"]);
}

#[test]
fn join_is_the_inverse_of_split() {
    for text in ["", ".", "a", "a.b", "..a..", "www.example.com."] {
        let parts = pieces(text, '.');
        assert_eq!(join_names(&parts, '.'), text);
    }
    let names = vec![String::from("x"), String::from(""), String::from("yz")];
    assert_eq!(join_names(&names, ':'), "x::yz");
    assert_eq!(join_names(&Vec::new(), ':'), "");
}

#[test]
fn copies_are_equal() {
    let names = vec![String::from("a"), String::from(""), String::from("\u{e9}")];
    assert_eq!(clone_names(&names), names);
    assert_eq!(clone_bytes(&vec![1, 2, 255]), vec![1, 2, 255]);
}

#[test]
fn numbers_in_decimal() {
    for (n, text) in [(0u32, "0"), (7, "7"), (10, "10"), (255, "255"), (1000, "1000"), (4294967295, "4294967295")] {
        let mut out = String::from(">");
        push_decimal(&mut out, n);
        assert_eq!(out, format!(">{}", text));
        assert_eq!(parse_u32(&chars(text)), Some(n));
    }
}

#[test]
fn unsigned_numbers_are_read_as_the_standard_library_reads_them() {
    for text in ["0", "007", "+5", "+0", "4294967295", "4294967296", "", "+", "-1", "1 ", " 1", "1_0", "0x1", "12a", "\u{661}", "99999999999999999999"] {
        assert_eq!(parse_u32(&chars(text)), text.parse::<u32>().ok(), "{:?}", text);
    }
}

#[test]
fn digits_are_read_up_to_a_bound() {
    assert_eq!(read_digits(&chars("x123"), 1, 200), Some(123));
    assert_eq!(read_digits(&chars("x123"), 1, 122), None);
    assert_eq!(read_digits(&chars("x123"), 4, 200), None);
    assert_eq!(read_digits(&chars("x123"), 0, 200), None);
    assert_eq!(read_digits(&chars("000"), 0, 0), Some(0));
    assert_eq!(read_digits(&chars("4294967295"), 0, 0xffff_ffff), Some(4294967295));
    assert_eq!(read_digits(&chars("4294967296"), 0, 0xffff_ffff), None);
}

#[test]
fn octets_are_read_without_leading_zeros() {
    for n in 0u32..=255 {
        assert_eq!(parse_octet(&chars(&n.to_string())), Some(n as u8));
    }
    for text in ["", "00", "01", "256", "1000", "+1", "-1", "1.", "a", " 1"] {
        assert_eq!(parse_octet(&chars(text)), None, "{:?}", text);
    }
}

#[test]
fn octets_as_text_and_back() {
    assert_eq!(octets_to_text(&vec![192, 168, 0, 1], '.'), "192.168.0.1");
    assert_eq!(octets_to_text(&vec![0], ':'), "0");
    assert_eq!(octets_to_text(&Vec::new(), ':'), "");
    assert_eq!(octets_to_text(&vec![1, 22, 255], ':'), "1:22:255");
    assert_eq!(parse_octets("192.168.0.1", '.', 4), Some(vec![192, 168, 0, 1]));
    assert_eq!(parse_octets("192.168.0.1", '.', 3), None);
    assert_eq!(parse_octets("192.168.0.1", ':', 4), None);
    assert_eq!(parse_octets("7", '.', 1), Some(vec![7]));
    assert_eq!(parse_octets("", '.', 0), None);
    assert_eq!(parse_octets("", '.', 1), None);
    assert_eq!(parse_octets("1.2.", '.', 3), None);
    for a in [0u8, 1, 9, 10, 99, 100, 255] {
        for b in [0u8, 5, 50, 250] {
            let text = octets_to_text(&vec![a, b, a, b], '.');
            assert_eq!(text, format!("{}.{}.{}.{}", a, b, a, b));
            assert_eq!(parse_octets(&text, '.', 4), Some(vec![a, b, a, b]));
        }
    }
}

#[test]
fn integers_on_the_wire() {
    let mut out = vec![9u8];
    push_u16(&mut out, 0x0102);
    push_u32(&mut out, 0x0a0b0c0d);
    push_bytes(&mut out, &vec![7, 8]);
    push_u16(&mut out, 0xffff);
    push_u32(&mut out, 0);
    assert_eq!(out, vec![9, 1, 2, 0x0a, 0x0b, 0x0c, 0x0d, 7, 8, 255, 255, 0, 0, 0, 0]);
    assert_eq!(read_u16(&out, 1), 0x0102);
    assert_eq!(read_u16(&out, 9), 0xffff);
    assert_eq!(read_u16(&out, 13), 0);
    assert_eq!(tail(&out, 13), vec![0, 0]);
    assert_eq!(tail(&out, 15), Vec::<u8>::new());
    assert_eq!(tail(&out, 0), out);
}

#[test]
fn white_space_is_what_the_standard_library_trims() {
    let mut count = 0;
    for n in 0u32..=0x10ffff {
        if let Some(c) = char::from_u32(n) {
            assert_eq!(is_white_space(c), c.is_whitespace(), "{:x}", n);
            if is_white_space(c) {
                count += 1;
            }
        }
    }
    assert_eq!(count, 25);
    for text in ["", " ", " \t\r\n", "\u{a0}\u{3000}", "a", " a", "a ", " \u{200b} ", "\u{180e}", "\u{feff}"] {
        assert_eq!(is_blank(&chars(text)), text.trim().is_empty(), "{:?}", text);
    }
}
