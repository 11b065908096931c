use agentns_launch::text::{parse_u32, trim_bounds, IntErrorKind};

fn kind_of(e: &std::num::ParseIntError) -> IntErrorKind {
    match e.kind() {
        std::num::IntErrorKind::Empty => IntErrorKind::Empty,
        std::num::IntErrorKind::InvalidDigit => IntErrorKind::InvalidDigit,
        std::num::IntErrorKind::PosOverflow => IntErrorKind::PosOverflow,
        other => panic!("unexpected kind {other:?}"),
    }
}

#[test]
fn parse_u32_agrees_with_std() {
    let cases = [
        "", "0", "7", "+7", "-7", "+", "-", "++1", "007", "4294967295", "4294967296",
        "99999999999999999999", "9999999999x", "x9999999999", "12 ", " 12", "1_000", "\u{663}",
        "42949672950", "+4294967295",
    ];
    for s in cases {
        let v: Vec<char> = s.chars().collect();
        let ours = parse_u32(&v, 0, v.len());
        let std = s.parse::<u32>().map_err(|e| kind_of(&e));
        assert_eq!(ours, std, "input {s:?}");
    }
}

#[test]
fn trim_agrees_with_std() {
    let cases = [
        "", "   ", "abc", "  abc  ", "\t\nabc\r\n", "\u{a0}x\u{3000}", "\u{2009}a b\u{85}",
        "\u{200b}zero-width\u{200b}", "\u{1680}\u{2028}\u{2029}\u{202f}\u{205f}q", "\u{b}\u{c}y",
    ];
    for s in cases {
        let v: Vec<char> = s.chars().collect();
        let (a, b) = trim_bounds(&v);
        let ours: String = v[a..b].iter().collect();
        assert_eq!(ours, s.trim(), "input {s:?}");
    }
}
