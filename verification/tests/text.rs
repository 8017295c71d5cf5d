use std::collections::BTreeMap;
use std::path::{Path, PathBuf};

use cosmic_greeter_daemon::path::{file_name_of, join, path_order, same_path, segments_of};
use cosmic_greeter_daemon::text::{
    chars_of, parse_u32, position_of, text_before, text_order, TextOrder,
};
use cosmic_greeter_daemon::PathMap;

const PATHS: [&str; 24] = [
    "",
    ".",
    "..",
    "/",
    "//",
    "a",
    "./a",
    ".//a",
    "a/",
    "a/.",
    "a/./b",
    "a//b",
    "a/b",
    "/a",
    "//a",
    "/./a",
    "/.",
    "/..",
    "a/..",
    "../a",
    ".a",
    "a.",
    "...",
    "\u{e9}/\u{4e16}",
];

#[test]
fn file_names_are_those_of_std() {
    for path in PATHS {
        let expected = Path::new(path).file_name().and_then(|x| x.to_str());
        let found: Option<String> = file_name_of(path).map(|v| v.into_iter().collect());
        assert_eq!(found.as_deref(), expected, "{path}");
    }
}

#[test]
fn same_paths_are_those_of_std() {
    for a in PATHS {
        for b in PATHS {
            assert_eq!(same_path(a, b), Path::new(a) == Path::new(b), "{a} {b}");
        }
    }
}

#[test]
fn paths_are_ordered_as_those_of_std() {
    for a in PATHS {
        for b in PATHS {
            let (x, y) = (Path::new(a), Path::new(b));
            let expected = if x < y {
                TextOrder::Before
            } else if x > y {
                TextOrder::After
            } else {
                TextOrder::Same
            };
            assert_eq!(path_order(a, b), expected, "{a} {b}");
        }
    }
    // Piece by piece, not character by character.
    assert_eq!(path_order("/a/b", "/a-b"), TextOrder::Before);
    assert_eq!(path_order("a/..", "a/-"), TextOrder::Before);
    assert_eq!(path_order("", "/"), TextOrder::Before);
    assert_eq!(path_order("/z", "./a"), TextOrder::Before);
    assert_eq!(path_order("./z", ".."), TextOrder::Before);
    assert_eq!(path_order("/a", "/a/"), TextOrder::Same);
}

#[test]
fn joined_paths_are_those_of_std() {
    for a in PATHS {
        for b in PATHS {
            assert_eq!(Some(join(a, b).as_str()), Path::new(a).join(b).to_str());
        }
    }
}

#[test]
fn segments_are_the_pieces_that_matter() {
    let found: Vec<String> = segments_of(&chars_of("/usr//./lib/../x/"))
        .into_iter()
        .map(|v| v.into_iter().collect())
        .collect();
    assert_eq!(found, ["usr", "lib", "..", "x"]);
}

#[test]
fn numbers_are_those_of_std() {
    for text in [
        "", "+", "-", "0", "-0", "+0", "007", "+12", "++1", "1 ", " 1", "1_0", "12a", "4294967295",
        "4294967296", "00000000000000000000001", "99999999999999999999", "\u{661}",
    ] {
        assert_eq!(parse_u32(text), text.parse::<u32>().ok(), "{text}");
    }
}

#[test]
fn texts_are_ordered_as_strings() {
    let texts = ["", "a", "B", "ab", "b", "\u{7f}", "\u{80}", "\u{ffff}", "\u{10000}", "a\u{10000}"];
    for a in texts {
        for b in texts {
            let expected = if a < b {
                TextOrder::Before
            } else if a == b {
                TextOrder::Same
            } else {
                TextOrder::After
            };
            assert_eq!(text_order(a, b), expected);
        }
    }
}

#[test]
fn text_before_a_separator() {
    assert_eq!(text_before("Ann Lee,Room 1,555", ','), "Ann Lee");
    assert_eq!(text_before("Ann", ','), "Ann");
    assert_eq!(text_before(",x", ','), "");
    assert_eq!(text_before("", ','), "");
    assert_eq!(text_before("\u{4e16}\u{754c},x", ','), "\u{4e16}\u{754c}");
    assert_eq!(position_of(&chars_of("abc"), 'c'), 2);
    assert_eq!(position_of(&chars_of("abc"), 'd'), 3);
}

#[test]
fn path_map_keeps_one_value_for_a_place() {
    let mut map = PathMap::new();
    assert!(!map.contains("/a"));
    map.insert("/a//b".to_string(), vec![1]);
    map.insert("/c".to_string(), vec![2]);
    assert_eq!(map.get("/a/b"), Some(&vec![1]));
    assert!(map.contains("/a/./b/"));
    assert!(!map.contains("a/b"));
    map.insert("/a/b".to_string(), vec![3]);
    assert_eq!(map.get("/a//b"), Some(&vec![3]));
    assert_eq!(map.entries().len(), 2);
    map.retain(&vec!["/c/".to_string(), "/d".to_string()]);
    assert_eq!(map.entries(), &vec![("/c".to_string(), vec![2])]);
}

#[test]
fn path_map_keeps_the_spelling_of_paths() {
    let mut map = PathMap::new();
    map.insert("/a//b".to_string(), vec![1]);
    map.insert("/c/./d".to_string(), vec![2]);
    assert_eq!(
        map.entries(),
        &vec![
            ("/a//b".to_string(), vec![1]),
            ("/c/./d".to_string(), vec![2])
        ]
    );
    let copy = map.clone();
    map.retain(&vec!["/c/d".to_string()]);
    assert_eq!(map.entries(), &vec![("/c/./d".to_string(), vec![2])]);
    map.insert("/c/d/".to_string(), vec![3]);
    assert_eq!(map.entries(), &vec![("/c/./d".to_string(), vec![3])]);
    assert_eq!(copy.get("/a/b"), Some(&vec![1]));
    assert_eq!(copy.entries().len(), 2);
}

#[test]
fn path_map_is_as_one_of_std() {
    let mut map = PathMap::new();
    let mut expected: BTreeMap<PathBuf, Vec<u8>> = BTreeMap::new();
    let mut n: u8 = 0;
    for path in PATHS.iter().rev().chain(PATHS.iter()) {
        map.insert(path.to_string(), vec![n]);
        expected.insert(PathBuf::from(path), vec![n]);
        n += 1;
        let list: Vec<(String, Vec<u8>)> = expected
            .iter()
            .map(|(key, bytes)| (key.to_string_lossy().into_owned(), bytes.clone()))
            .collect();
        assert_eq!(map.entries(), &list);
    }
    map.retain(&vec!["a".to_string(), "/".to_string(), "..".to_string()]);
    let left: Vec<&str> = map.entries().iter().map(|(path, _)| path.as_str()).collect();
    assert_eq!(left, vec!["/.", "..", "a/."]);
}
