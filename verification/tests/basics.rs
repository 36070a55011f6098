use saola_files::document::{read_document, TomlValue};
use saola_files::order::{is_less, order_of};
use saola_files::path::FsPath;
use saola_files::percent::{decode_percent, encode_percent};
use saola_files::text::{
    chars_of, decimal_padded, decode, lines_of, lossy, parse_unsigned, split_on, string_of, trim,
};
use saola_files::time::Timestamp;
use std::path::Path;

const SAMPLES: [&str; 30] = [
    "", "/", "//", "///", "a", "a/", "/a", "/a/", "//a", "/a//b", "/a/./b", "/a/../b", ".", "./",
    "./a", "./a/./b/", "..", "../a", "a/b/c.tar.gz", "/.hidden", "/a/.", "/a/b/", "a/.b.c",
    "/a/..", "x.", ".x", "a b", "//a/b", "///a/b", "/a/b/./",
];

fn bytes(p: &Path) -> Vec<u8> {
    p.as_os_str().as_encoded_bytes().to_vec()
}

#[test]
fn paths_agree_with_the_standard_ones() {
    for s in SAMPLES {
        let ours = FsPath::new(s);
        let theirs = Path::new(s);
        assert_eq!(ours.is_absolute(), theirs.is_absolute(), "{s}");
        assert_eq!(
            ours.file_name(),
            theirs.file_name().map(|n| n.as_encoded_bytes().to_vec()),
            "{s}"
        );
        assert_eq!(
            ours.extension(),
            theirs.extension().map(|n| n.as_encoded_bytes().to_vec()),
            "{s}"
        );
        assert_eq!(ours.parent().map(|p| p.to_bytes()), theirs.parent().map(bytes), "{s}");
        for t in SAMPLES {
            let other = FsPath::new(t);
            let their_other = Path::new(t);
            assert_eq!(ours == other, theirs == their_other, "{s} {t}");
            assert_eq!(ours.starts_with(&other), theirs.starts_with(their_other), "{s} {t}");
            assert_eq!(
                ours.join_bytes(t.as_bytes()).to_bytes(),
                bytes(&theirs.join(t)),
                "{s} {t}"
            );
            assert_eq!(
                ours.strip_prefix(&other).map(|p| p.to_bytes()),
                theirs.strip_prefix(their_other).ok().map(bytes),
                "{s} {t}"
            );
        }
    }
}

#[test]
fn absolute_paths_agree_with_the_standard_ones() {
    let here = FsPath::from_bytes(bytes(&std::path::absolute(".").unwrap()));
    for s in SAMPLES {
        let theirs = match std::path::absolute(s) {
            Ok(p) => bytes(&p),
            Err(_) => s.as_bytes().to_vec(),
        };
        assert_eq!(FsPath::new(s).absolute(Some(&here)).to_bytes(), theirs, "{s}");
    }
    assert_eq!(FsPath::new("a").absolute(None).to_bytes(), b"a".to_vec());
}

#[test]
fn escapes_are_undone() {
    let all: Vec<u8> = (0..=255).collect();
    let text = encode_percent(&all);
    assert!(text.is_ascii());
    assert_eq!(decode_percent(&text), all);
    assert_eq!(encode_percent(b"/a b%~"), "/a%20b%25~");
}

#[test]
fn bytes_that_are_no_text_are_replaced() {
    assert_eq!(lossy(b"caf\xe9"), "caf\u{FFFD}");
    assert_eq!(lossy("äß".as_bytes()), "äß");
    assert_eq!(decode(b"caf\xe9"), None);
    assert_eq!(decode("äß".as_bytes()), Some("äß".to_owned()));
}

#[test]
fn lines_agree_with_the_standard_ones() {
    for s in ["", "a", "a\n", "a\r\nb", "\n\n", "a\n\nb\r\n", "\r", "a\rb"] {
        let ours: Vec<String> =
            lines_of(&chars_of(s)).iter().map(|l| string_of(l)).collect();
        let theirs: Vec<String> = s.lines().map(|l| l.to_owned()).collect();
        assert_eq!(ours, theirs, "{s:?}");
    }
}

#[test]
fn trimming_agrees_with_the_standard_one() {
    for s in ["", "  ", " a ", "\t\na b\r\n", "\u{a0}x\u{2003}", "\u{200b}x"] {
        assert_eq!(string_of(trim(&chars_of(s))), s.trim(), "{s:?}");
    }
}

#[test]
fn splitting_agrees_with_the_standard_one() {
    for s in ["", ";", "a;b", ";a;;b;"] {
        let ours: Vec<String> =
            split_on(&chars_of(s), ';').iter().map(|p| string_of(p)).collect();
        let theirs: Vec<String> = s.split(';').map(|p| p.to_owned()).collect();
        assert_eq!(ours, theirs, "{s:?}");
    }
}

#[test]
fn numbers_agree_with_the_standard_ones() {
    for s in ["", "0", "+7", "-7", "65535", "65536", "00012", "1a", "+", "99999999999999999999"] {
        assert_eq!(
            parse_unsigned(&chars_of(s), u16::MAX as u64),
            s.parse::<u16>().ok().map(|n| n as u64),
            "{s:?}"
        );
    }
    assert_eq!(decimal_padded(7, 2), "07");
    assert_eq!(decimal_padded(1234, 2), "1234");
}

#[test]
fn an_order_names_every_key_once() {
    let keys = vec![b"b".to_vec(), b"a".to_vec(), b"b".to_vec(), b"".to_vec(), b"ab".to_vec()];
    assert_eq!(order_of(&keys), vec![3, 1, 4, 0, 2]);
    assert!(is_less(b"a", b"ab"));
    assert!(!is_less(b"a", b"a"));
}

#[test]
fn documents_keep_their_shape() {
    let table = match read_document("a = \"x\"\nb = [1, true]\n[c]\nd = 1.5") {
        Ok(t) => t,
        Err(e) => panic!("{e}"),
    };
    assert!(matches!(table.get("a"), Some(TomlValue::Str(s)) if s == "x"));
    match table.get("b") {
        Some(TomlValue::Array(list)) => {
            assert!(matches!(list[0], TomlValue::Int(1)));
            assert!(matches!(list[1], TomlValue::Bool(true)));
        }
        _ => panic!("no list"),
    }
    match table.get("c") {
        Some(TomlValue::Table(inner)) => assert!(matches!(inner.get("d"), Some(TomlValue::Other))),
        _ => panic!("no table"),
    }
    assert!(table.get("z").is_none());
    assert!(read_document("a = ").is_err());
}

#[test]
fn times_before_the_epoch_have_no_count_of_seconds() {
    assert_eq!(Timestamp::from_secs(9).seconds_since_epoch(), Some(9));
    assert_eq!(Timestamp::from_secs(-1).seconds_since_epoch(), None);
    let a = Timestamp { secs: 1, nanos: 1 };
    let b = Timestamp { secs: 1, nanos: 2 };
    assert!(a.is_before(&b));
    assert!(!b.is_before(&a));
}
