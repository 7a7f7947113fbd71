use change_detection::{
    ChangeDetection, ChangeDetectionBuilder, Fs, FsChild, FsNode, FsRoot, Matcher,
};

fn assert_change_detection(builder: ChangeDetectionBuilder, fs: &Fs, expected: &[&str]) {
    let mut result = builder.generate_extended(fs);
    let mut expected: Vec<String> = expected.iter().map(|s| s.to_string()).collect();
    expected.sort();
    result.sort();
    assert_eq!(result, expected);
}

fn file(name: &str) -> FsChild {
    FsChild {
        name: name.to_string(),
        node: FsNode::File,
    }
}

fn flat_dir_root(path: &str, names: &[&str]) -> FsRoot {
    FsRoot {
        path: path.to_string(),
        node: FsNode::Dir(names.iter().map(|n| file(n)).collect()),
    }
}

fn fixtures_01() -> FsRoot {
    flat_dir_root("fixtures-01", &["a", "ab", "b", "bc", "c", "cd"])
}

fn fixtures_02() -> FsRoot {
    flat_dir_root("fixtures-02", &["abc", "def", "ghk"])
}

fn fixtures_03() -> FsRoot {
    flat_dir_root("fixtures-03", &["hello", "hello.c", "hello.js"])
}

fn all_fixture_roots() -> Fs {
    Fs {
        roots: vec![fixtures_01(), fixtures_02(), fixtures_03()],
    }
}

#[test]
fn single_file() {
    let fs = Fs {
        roots: vec![FsRoot {
            path: "src/lib.rs".to_string(),
            node: FsNode::File,
        }],
    };
    assert_change_detection(ChangeDetection::path("src/lib.rs"), &fs, &["src/lib.rs"]);
}

#[test]
fn single_path() {
    let fs = Fs {
        roots: vec![flat_dir_root("src", &["lib.rs"])],
    };
    assert_change_detection(ChangeDetection::path("src"), &fs, &["src", "src/lib.rs"]);
}

#[test]
fn fixture_01() {
    let fs = Fs {
        roots: vec![fixtures_01()],
    };
    assert_change_detection(
        ChangeDetection::path("fixtures-01"),
        &fs,
        &[
            "fixtures-01",
            "fixtures-01/a",
            "fixtures-01/ab",
            "fixtures-01/b",
            "fixtures-01/bc",
            "fixtures-01/c",
            "fixtures-01/cd",
        ],
    );
}

#[test]
fn fixture_01_global_include() {
    let fs = Fs {
        roots: vec![fixtures_01()],
    };
    assert_change_detection(
        ChangeDetection::include_filter(Matcher::file_name_ends_with("b")).path("fixtures-01"),
        &fs,
        &["fixtures-01", "fixtures-01/ab", "fixtures-01/b"],
    );
}

#[test]
fn fixture_01_global_exclude() {
    let fs = Fs {
        roots: vec![fixtures_01()],
    };
    assert_change_detection(
        ChangeDetection::exclude(Matcher::file_name_ends_with("b")).path("fixtures-01"),
        &fs,
        &[
            "fixtures-01",
            "fixtures-01/a",
            "fixtures-01/bc",
            "fixtures-01/c",
            "fixtures-01/cd",
        ],
    );
}

#[test]
fn fixture_01_global_filter() {
    let fs = Fs {
        roots: vec![fixtures_01()],
    };
    assert_change_detection(
        ChangeDetection::filter(
            Matcher::file_name_ends_with("b"),
            Matcher::file_name_starts_with("a"),
        )
        .path("fixtures-01"),
        &fs,
        &["fixtures-01", "fixtures-01/b"],
    );
}

#[test]
fn fixture_02() {
    let fs = Fs {
        roots: vec![fixtures_02()],
    };
    assert_change_detection(
        ChangeDetection::path("fixtures-02"),
        &fs,
        &[
            "fixtures-02",
            "fixtures-02/abc",
            "fixtures-02/def",
            "fixtures-02/ghk",
        ],
    );
}

#[test]
fn fixture_03() {
    let fs = Fs {
        roots: vec![fixtures_03()],
    };
    assert_change_detection(
        ChangeDetection::path("fixtures-03"),
        &fs,
        &[
            "fixtures-03",
            "fixtures-03/hello",
            "fixtures-03/hello.c",
            "fixtures-03/hello.js",
        ],
    );
}

#[test]
fn all_fixtures() {
    let fs = all_fixture_roots();
    assert_change_detection(
        ChangeDetection::path("fixtures-01")
            .path("fixtures-02")
            .path("fixtures-03"),
        &fs,
        &[
            "fixtures-01",
            "fixtures-01/a",
            "fixtures-01/ab",
            "fixtures-01/b",
            "fixtures-01/bc",
            "fixtures-01/c",
            "fixtures-01/cd",
            "fixtures-02",
            "fixtures-02/abc",
            "fixtures-02/def",
            "fixtures-02/ghk",
            "fixtures-03",
            "fixtures-03/hello",
            "fixtures-03/hello.c",
            "fixtures-03/hello.js",
        ],
    );
}

#[test]
fn path_matchers() {
    let fs = all_fixture_roots();
    assert_change_detection(
        ChangeDetection::include_filter(Matcher::glob("**/a*").unwrap())
            .path("fixtures-01")
            .path("fixtures-02")
            .path("fixtures-03"),
        &fs,
        &[
            "fixtures-01",
            "fixtures-01/a",
            "fixtures-01/ab",
            "fixtures-02",
            "fixtures-02/abc",
            "fixtures-03",
        ],
    );
}

#[test]
fn declared_path_absent_yields_nothing() {
    let fs = Fs { roots: vec![] };
    assert_change_detection(ChangeDetection::path("missing"), &fs, &[]);
}

#[test]
fn root_survives_exclude_everything() {
    let fs = Fs {
        roots: vec![fixtures_01()],
    };
    // An empty suffix matches every file name, so this excludes every child.
    assert_change_detection(
        ChangeDetection::path_exclude("fixtures-01", Matcher::file_name_ends_with("")),
        &fs,
        &["fixtures-01"],
    );
}

#[test]
fn excluded_directory_is_pruned() {
    let fs = Fs {
        roots: vec![FsRoot {
            path: "top".to_string(),
            node: FsNode::Dir(vec![
                FsChild {
                    name: "skip".to_string(),
                    node: FsNode::Dir(vec![file("inner")]),
                },
                file("keep"),
            ]),
        }],
    };
    assert_change_detection(
        ChangeDetection::exclude(Matcher::equal("top/skip")).path("top"),
        &fs,
        &["top", "top/keep"],
    );
}

#[test]
fn directory_child_listed_before_and_after_its_contents() {
    let fs = Fs {
        roots: vec![FsRoot {
            path: "top".to_string(),
            node: FsNode::Dir(vec![FsChild {
                name: "sub".to_string(),
                node: FsNode::Dir(vec![file("f")]),
            }]),
        }],
    };
    let result = ChangeDetection::path("top").generate_extended(&fs);
    assert_eq!(
        result,
        vec![
            "top".to_string(),
            "top/sub".to_string(),
            "top/sub/f".to_string(),
            "top/sub".to_string(),
        ]
    );
}

#[test]
fn local_and_global_filters_combine_conjunctively() {
    let fs = Fs {
        roots: vec![fixtures_01()],
    };
    // Global include admits names ending in "b" ("ab", "b"); the local
    // include then also requires the name to start with "a", leaving "ab".
    assert_change_detection(
        ChangeDetection::include_filter(Matcher::file_name_ends_with("b"))
            .path_include("fixtures-01", Matcher::file_name_starts_with("a")),
        &fs,
        &["fixtures-01", "fixtures-01/ab"],
    );
}

#[test]
fn exclude_wins_over_include() {
    let fs = Fs {
        roots: vec![fixtures_01()],
    };
    // "ab" passes the include but the exclude still rejects it.
    assert_change_detection(
        ChangeDetection::path_filter(
            "fixtures-01",
            Matcher::file_name_ends_with("b"),
            Matcher::file_name_starts_with("a"),
        ),
        &fs,
        &["fixtures-01", "fixtures-01/b"],
    );
}

#[test]
fn generation_is_idempotent() {
    let fs = all_fixture_roots();
    let make = || {
        ChangeDetection::include_filter(Matcher::file_name_ends_with("b"))
            .path("fixtures-01")
            .path("fixtures-02")
            .path("fixtures-03")
    };
    let first = make().generate_extended(&fs);
    let second = make().generate_extended(&fs);
    assert_eq!(first, second);
}

#[test]
fn independent_trees_yield_their_union() {
    let fs = all_fixture_roots();
    let combined = ChangeDetection::path("fixtures-01")
        .path("fixtures-02")
        .path("fixtures-03")
        .generate_extended(&fs);
    let mut union: Vec<String> = Vec::new();
    union.extend(ChangeDetection::path("fixtures-01").generate_extended(&fs));
    union.extend(ChangeDetection::path("fixtures-02").generate_extended(&fs));
    union.extend(ChangeDetection::path("fixtures-03").generate_extended(&fs));
    let mut combined_sorted = combined;
    combined_sorted.sort();
    union.sort();
    assert_eq!(combined_sorted, union);
}

#[test]
fn generate_renders_instruction_lines() {
    let fs = Fs {
        roots: vec![FsRoot {
            path: "build.rs".to_string(),
            node: FsNode::File,
        }],
    };
    let lines = ChangeDetection::path("build.rs").generate(&fs);
    assert_eq!(lines, vec!["cargo:rerun-if-changed=build.rs".to_string()]);
}

#[test]
fn matcher_equal_matches_exact_path() {
    let fs = Fs {
        roots: vec![fixtures_01()],
    };
    assert_change_detection(
        ChangeDetection::path_include("fixtures-01", Matcher::equal("fixtures-01/a")),
        &fs,
        &["fixtures-01", "fixtures-01/a"],
    );
}

#[test]
fn matcher_combinators() {
    let fs = Fs {
        roots: vec![fixtures_01()],
    };
    // starts with "a" AND ends with "b": only "ab".
    assert_change_detection(
        ChangeDetection::include_filter(
            Matcher::file_name_starts_with("a").and(Matcher::file_name_ends_with("b")),
        )
        .path("fixtures-01"),
        &fs,
        &["fixtures-01", "fixtures-01/ab"],
    );
    let fs = Fs {
        roots: vec![fixtures_01()],
    };
    // starts with "a" OR starts with "b": "a", "ab", "b", "bc".
    assert_change_detection(
        ChangeDetection::include_filter(
            Matcher::file_name_starts_with("a").or(Matcher::file_name_starts_with("b")),
        )
        .path("fixtures-01"),
        &fs,
        &[
            "fixtures-01",
            "fixtures-01/a",
            "fixtures-01/ab",
            "fixtures-01/b",
            "fixtures-01/bc",
        ],
    );
    let fs = Fs {
        roots: vec![fixtures_01()],
    };
    // NOT (ends with "b") keeps exactly what the matching exclude drops.
    assert_change_detection(
        ChangeDetection::include_filter(Matcher::file_name_ends_with("b").not())
            .path("fixtures-01"),
        &fs,
        &[
            "fixtures-01",
            "fixtures-01/a",
            "fixtures-01/bc",
            "fixtures-01/c",
            "fixtures-01/cd",
        ],
    );
}

#[test]
fn global_filter_evaluation() {
    let b = ChangeDetection::filter(
        Matcher::file_name_ends_with("b"),
        Matcher::file_name_starts_with("a"),
    );
    // Passes the include, untouched by the exclude.
    assert!(b.filter_include_exclude(&"dir/b".to_string()));
    // Passes the include but the exclude wins.
    assert!(!b.filter_include_exclude(&"dir/ab".to_string()));
    // Fails the include.
    assert!(!b.filter_include_exclude(&"dir/c".to_string()));
}

#[test]
fn invalid_glob_pattern_is_rejected() {
    assert!(Matcher::glob("[").is_none());
    assert!(Matcher::glob("**/a*").is_some());
}
