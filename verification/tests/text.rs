//! Text helpers against what std does.

use bacak_compositor::text::{
    chars_of, decimal_of, extension_of, join_path, lines_of, signed, split_at_char, split_n,
    string_of, trimmed, unsigned, whitespace, words_of,
};

fn all(v: Vec<&[char]>) -> Vec<String> {
    v.into_iter().map(string_of).collect()
}

const SAMPLES: [&str; 12] = [
    "", " ", "a", " a  b\tc ", "a\nb", "a\r\nb\n", "\n\n", "x:y::z:", "\u{3000}ğ\u{a0}", "a\rb",
    "::", "\u{85}line\u{2028}",
];

#[test]
fn whitespace_is_unicodes() {
    for c in (0..=0x10FFFFu32).filter_map(char::from_u32) {
        assert_eq!(whitespace(c), c.is_whitespace(), "{c:?}");
    }
}

#[test]
fn texts_are_cut_as_std_cuts_them() {
    for s in SAMPLES {
        let c = chars_of(s);
        assert_eq!(string_of(&c), s);
        assert_eq!(all(words_of(&c)), s.split_whitespace().collect::<Vec<_>>(), "{s:?}");
        assert_eq!(all(lines_of(&c)), s.lines().collect::<Vec<_>>(), "{s:?}");
        assert_eq!(all(split_at_char(&c, ':')), s.split(':').collect::<Vec<_>>(), "{s:?}");
        assert_eq!(all(split_n(&c, ':', 2)), s.splitn(2, ':').collect::<Vec<_>>(), "{s:?}");
        assert_eq!(string_of(trimmed(&c)), s.trim(), "{s:?}");
    }
}

#[test]
fn numbers_are_read_as_std_reads_them() {
    for s in ["", "0", "7", "+7", "-7", "007", "255", "256", " 1", "1 ", "+", "-", "99999999999999999999", "-2147483648", "2147483648", "١"] {
        let c = chars_of(s);
        assert_eq!(unsigned(&c, 255), s.parse::<u8>().ok().map(u64::from), "{s:?}");
        assert_eq!(signed(&c), s.parse::<i32>().ok(), "{s:?}");
    }
    for n in [0, 1, 9, 10, 99, 12345, u64::MAX] {
        assert_eq!(string_of(&decimal_of(n)), n.to_string());
    }
}

#[test]
fn paths_are_taken_apart_as_std_does() {
    for p in [
        "", "a", "a.b", "/a.b/", "/a.b/.", "/a.b/..", ".a", ".a.b", "a.", "..", "/", "./x.y", "a/b.c.d",
        "x.png//", "...", "a./b",
    ] {
        let path: &std::path::Path = p.as_ref();
        let expected = path.extension().map(|e| e.to_str().unwrap().to_string());
        let got = extension_of(&chars_of(p)).map(|e| string_of(&e));
        assert_eq!(got, expected, "{p:?}");
    }
    for dir in ["", "/", "/a", "/a/", "b"] {
        let path: &std::path::Path = dir.as_ref();
        assert_eq!(join_path(dir, "x/y"), path.join("x/y").to_str().unwrap(), "{dir:?}");
    }
}
