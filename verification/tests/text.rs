use hcnetsdk_rust_demo::text::{parse_i32_at, parse_u16_at, push_i32, push_nat, trim_str};

fn chars(s: &str) -> Vec<char> {
    s.chars().collect()
}

#[test]
fn trim_matches_std() {
    for s in ["", "  ", " a ", "\u{3000}x\u{2003}", "a b", "\t\r\n z \u{85}", "\u{200B}y", "\u{a0}q\u{1680}", "\u{180e}r\u{205f}"] {
        assert_eq!(trim_str(s), s.trim());
    }
}

#[test]
fn integers_read_like_from_str() {
    for s in ["0", "8000", "+8000", "65535", "65536", "-1", "", "+", "-", "12a", "0008", "99999999999"] {
        let v = chars(s);
        assert_eq!(parse_u16_at(&v, 0, v.len()), s.parse::<u16>().ok(), "u16 {:?}", s);
        assert_eq!(parse_i32_at(&v, 0, v.len()), s.parse::<i32>().ok(), "i32 {:?}", s);
    }
    for s in ["2147483647", "-2147483648", "2147483648", "-2147483649", "+-1", "--1"] {
        let v = chars(s);
        assert_eq!(parse_i32_at(&v, 0, v.len()), s.parse::<i32>().ok(), "i32 {:?}", s);
    }
}

#[test]
fn integers_write_like_display() {
    for n in [0i32, 7, -7, 10, 123456, i32::MAX, i32::MIN] {
        let mut s = String::from(">");
        push_i32(&mut s, n);
        assert_eq!(s, format!(">{}", n));
    }
    let mut s = String::new();
    push_nat(&mut s, u32::MAX);
    assert_eq!(s, u32::MAX.to_string());
}
