//! File names: cleaning, splitting and numbering.

use std::collections::HashSet;
use std::path::Path;

use wormhole_core::error::{IoErrorKind, IoFailure};
use wormhole_core::file_name::file_name;
use wormhole_core::unique_name::MAX_ATTEMPTS;
use wormhole_core::{
    candidate_name, create_unique, sanitize_file_name, split_name, CreateUnique, Error,
    OpenOutcome, UniqueStep,
};

#[test]
fn sanitize_strips_path_components_and_empties() {
    assert_eq!(sanitize_file_name("normal.jpg"), "normal.jpg");
    assert_eq!(sanitize_file_name("../../etc/passwd"), "passwd");
    assert_eq!(sanitize_file_name("/abs/path/file.txt"), "file.txt");
    assert_eq!(sanitize_file_name(""), "received.bin");
    assert_eq!(sanitize_file_name(".."), "received.bin");
    assert_eq!(sanitize_file_name("."), "received.bin");
}

const PATHS: [&str; 30] = [
    "", ".", "..", "/", "//", "///", "./", "../", "a", "a/", "a//", "a/.", "a/./", "a/..", "a/../",
    "a/../b", "./a", "/a", "//a", "a/b.c", "a//b", "...", ".a", "a.", ". ", " ", "..a", "a\\b",
    "\u{fc}/\u{e9}\u{1f600}", "./.",
];

#[test]
fn file_names_are_those_of_the_platform() {
    for path in PATHS {
        let expected = Path::new(path).file_name().map(|n| n.to_string_lossy().into_owned());
        assert_eq!(file_name(path), expected, "{path:?}");
        let saved = sanitize_file_name(path);
        assert_eq!(saved, expected.unwrap_or_else(|| "received.bin".to_string()), "{path:?}");
    }
}

#[test]
fn every_short_path_is_read_as_the_platform_reads_it() {
    let letters = ['/', '.', 'a'];
    let mut paths = vec![String::new()];
    let mut first = 0;
    for _ in 0..7 {
        let last = paths.len();
        for i in first..last {
            for c in letters {
                let mut longer = paths[i].clone();
                longer.push(c);
                paths.push(longer);
            }
        }
        first = last;
    }
    for path in paths {
        let expected = Path::new(&path).file_name().map(|n| n.to_string_lossy().into_owned());
        assert_eq!(file_name(&path), expected, "{path:?}");
    }
}

#[test]
fn sanitized_names_are_plain_and_stay_as_they_are() {
    for path in PATHS {
        let name = sanitize_file_name(path);
        assert!(!name.is_empty() && !name.contains('/') && name != "." && name != "..");
        assert_eq!(sanitize_file_name(&name), name);
    }
    assert_eq!(sanitize_file_name("any/dirs/../at/all/photo.png"), "photo.png");
    for path in ["a/b", "a/", "a/..", "./a/.", "x/y/"] {
        for dir in ["", "/", "..", "d", "d/..", "d//e/."] {
            assert_eq!(sanitize_file_name(&format!("{dir}/{path}")), sanitize_file_name(path));
        }
    }
}

#[test]
fn names_are_split_at_the_last_dot() {
    let split = |name: &str| {
        let (stem, ext) = split_name(name);
        assert_eq!(format!("{stem}{ext}"), name);
        (stem, ext)
    };
    assert_eq!(split("a.txt"), ("a".to_string(), ".txt".to_string()));
    assert_eq!(split("archive.tar.gz"), ("archive.tar".to_string(), ".gz".to_string()));
    assert_eq!(split("noext"), ("noext".to_string(), String::new()));
    assert_eq!(split(".bashrc"), (".bashrc".to_string(), String::new()));
    assert_eq!(split("a."), ("a".to_string(), ".".to_string()));
    assert_eq!(split(""), (String::new(), String::new()));
    assert_eq!(split("\u{e9}.\u{fc}"), ("\u{e9}".to_string(), ".\u{fc}".to_string()));
}

#[test]
fn candidates_carry_a_number() {
    assert_eq!(candidate_name("a.txt", 0), "a.txt");
    assert_eq!(candidate_name("a.txt", 1), "a (1).txt");
    assert_eq!(candidate_name("a.txt", 10), "a (10).txt");
    assert_eq!(candidate_name("a.tar.gz", 999), "a.tar (999).gz");
    assert_eq!(candidate_name("noext", 7), "noext (7)");
    assert_eq!(candidate_name(".hidden", 2), ".hidden (2)");
    assert_eq!(candidate_name("x", u32::MAX), "x (4294967295)");
}

#[test]
fn candidates_differ() {
    let mut seen = HashSet::new();
    for n in 0..MAX_ATTEMPTS {
        let name = candidate_name("a (1).txt", n);
        assert!(name.ends_with(".txt"));
        assert!(seen.insert(name));
    }
    assert_eq!(seen.len(), 1000);
}

fn refusal() -> OpenOutcome {
    OpenOutcome::Failed {
        kind: IoErrorKind::AlreadyExists,
        error: std::io::Error::new(std::io::ErrorKind::AlreadyExists, "there"),
    }
}

/// Creates a file in a directory that is a set of names.
fn create_in(dir: &mut HashSet<String>, name: &str) -> Result<String, Error> {
    let mut search: CreateUnique = create_unique(name);
    loop {
        let outcome = if dir.insert(search.wanted()) { OpenOutcome::Opened } else { refusal() };
        match search.after(outcome) {
            UniqueStep::Chosen(name) => return Ok(name),
            UniqueStep::TryNext(next) => search = next,
            UniqueStep::Failed(e) => return Err(e),
        }
    }
}

#[test]
fn create_unique_never_clobbers() {
    let mut dir = HashSet::new();
    let p1 = create_in(&mut dir, "a.txt").unwrap();
    let p2 = create_in(&mut dir, "a.txt").unwrap();
    let p3 = create_in(&mut dir, "a.txt").unwrap();
    assert_eq!(p1, "a.txt");
    assert_eq!(p2, "a (1).txt");
    assert_eq!(p3, "a (2).txt");
    // extensionless names get plain " (n)" suffixes too
    let q1 = create_in(&mut dir, "noext").unwrap();
    let q2 = create_in(&mut dir, "noext").unwrap();
    assert_eq!(q1, "noext");
    assert_eq!(q2, "noext (1)");
}

#[test]
fn the_first_gap_is_filled() {
    let mut dir: HashSet<String> = ["a", "a (1)", "a (3)"].iter().map(|s| s.to_string()).collect();
    assert_eq!(create_in(&mut dir, "a").unwrap(), "a (2)");
    assert_eq!(create_in(&mut dir, "a").unwrap(), "a (4)");
}

#[test]
fn the_search_is_given_up_where_all_names_are_taken() {
    let mut dir: HashSet<String> = (0..MAX_ATTEMPTS).map(|n| candidate_name("f.x", n)).collect();
    let e = create_in(&mut dir, "f.x").unwrap_err();
    assert_eq!(e.message(), "could not find a free file name");
    match e {
        Error::Io(IoFailure::Raised { kind, .. }) => assert_eq!(kind, IoErrorKind::AlreadyExists),
        other => panic!("{other:?}"),
    }
    dir.remove("f (999).x");
    assert_eq!(create_in(&mut dir, "f.x").unwrap(), "f (999).x");
}

#[test]
fn other_errors_end_the_search() {
    let denied = OpenOutcome::Failed {
        kind: IoErrorKind::Other,
        error: std::io::Error::new(std::io::ErrorKind::PermissionDenied, "denied"),
    };
    match create_unique("a").after(denied) {
        UniqueStep::Failed(e) => {
            assert_eq!(e.message(), "denied");
            assert!(matches!(e, Error::Io(IoFailure::System(_))));
        },
        other => panic!("{other:?}"),
    }
}
