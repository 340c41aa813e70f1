use lose_net_stack::hexdump::hexdump;

fn reference(data: &[u8]) -> String {
    let mut out = String::new();
    out.push_str(&format!("{:-^1$}\n", " hexdump ", 70));
    for offset in (0..data.len()).step_by(16) {
        for i in 0..16 {
            if offset + i < data.len() {
                out.push_str(&format!("{:02x} ", data[offset + i]));
            } else {
                out.push_str(&format!("{:02} ", ""));
            }
        }
        out.push_str(&format!("{:>6}", ' '));
        for i in 0..16 {
            if offset + i < data.len() {
                let c = data[offset + i];
                if c >= 0x20 && c <= 0x7e {
                    out.push_str(&format!("{}", c as char));
                } else {
                    out.push_str(".");
                }
            } else {
                out.push_str(&format!("{:02} ", ""));
            }
        }
        out.push_str("\n");
    }
    out.push_str(&format!("{:-^1$}\n", " hexdump end ", 70));
    out
}

#[test]
fn hexdump_of_nothing() {
    let text = String::from_utf8(hexdump(&[])).unwrap();
    assert_eq!(
        text,
        "------------------------------ hexdump -------------------------------\n\
         ---------------------------- hexdump end -----------------------------\n"
    );
}

#[test]
fn hexdump_of_one_short_line() {
    let text = String::from_utf8(hexdump(b"AB\x00\xff~ ")).unwrap();
    let mut expected = String::new();
    expected.push_str("------------------------------ hexdump -------------------------------\n");
    expected.push_str("41 42 00 ff 7e 20 ");
    expected.push_str(&" ".repeat(30));
    expected.push_str(&" ".repeat(6));
    expected.push_str("AB..~ ");
    expected.push_str(&" ".repeat(30));
    expected.push_str("\n");
    expected.push_str("---------------------------- hexdump end -----------------------------\n");
    assert_eq!(text, expected);
}

#[test]
fn hexdump_of_a_full_line() {
    let text = String::from_utf8(hexdump(b"0123456789abcdef")).unwrap();
    let lines: Vec<&str> = text.lines().collect();
    assert_eq!(lines.len(), 3);
    assert_eq!(
        lines[1],
        "30 31 32 33 34 35 36 37 38 39 61 62 63 64 65 66       0123456789abcdef"
    );
}

#[test]
fn hexdump_matches_formatting() {
    let all: Vec<u8> = (0..=255u8).collect();
    for len in [0usize, 1, 15, 16, 17, 31, 32, 33, 60, 255, 256] {
        let data = &all[..len];
        assert_eq!(String::from_utf8(hexdump(data)).unwrap(), reference(data));
    }
}

#[test]
fn hexdump_line_count() {
    for (len, lines) in [(0usize, 2usize), (1, 3), (16, 3), (17, 4), (32, 4), (33, 5)] {
        let data = vec![0x41u8; len];
        let text = String::from_utf8(hexdump(&data)).unwrap();
        assert_eq!(text.lines().count(), lines);
    }
}
