use acp_harness::path::{
    lexical_normalise, path_components, render_path, resolve_safe_path, PathComponent,
};

fn names(path: &str) -> Vec<PathComponent> {
    path_components(path)
}

fn normal(name: &str) -> PathComponent {
    PathComponent::Normal(name.to_string())
}

#[test]
fn components_are_those_of_std_path() {
    let cases = vec![
        "", "/", "//", ".", "..", "/.", "/..", "./", "./.", "a", "a/", "a//b", "a/./b", "./a",
        "/a/../b/", "../a", ".a", "a.", "...", "/a/b/./../c//d", "\u{e9}/\u{4e16}",
    ];
    for case in cases {
        let expected: Vec<PathComponent> = std::path::Path::new(case)
            .components()
            .map(|c| match c {
                std::path::Component::RootDir => PathComponent::RootDir,
                std::path::Component::CurDir => PathComponent::CurDir,
                std::path::Component::ParentDir => PathComponent::ParentDir,
                std::path::Component::Normal(s) => {
                    PathComponent::Normal(s.to_str().unwrap().to_string())
                }
                std::path::Component::Prefix(_) => unreachable!(),
            })
            .collect();
        assert_eq!(path_components(case), expected, "components of {case:?}");
    }
}

#[test]
fn a_leading_dot_is_a_component() {
    assert_eq!(names("./a/./b"), vec![PathComponent::CurDir, normal("a"), normal("b")]);
    assert_eq!(names("/./a"), vec![PathComponent::RootDir, normal("a")]);
}

#[test]
fn dots_are_carried_out() {
    assert_eq!(lexical_normalise("/a/b/../c/./d"), "/a/c/d");
    assert_eq!(lexical_normalise("/../../a"), "/a");
    assert_eq!(lexical_normalise("a/../../b"), "b");
    assert_eq!(lexical_normalise("./a//b/"), "a/b");
    assert_eq!(lexical_normalise("/"), "/");
    assert_eq!(lexical_normalise(""), "");
    assert_eq!(lexical_normalise("a/.."), "");
}

#[test]
fn normalising_again_changes_nothing() {
    for path in vec!["/a/b/../c/./d", "a/../../b", "/..", "x//y/./z/..", ""] {
        let once = lexical_normalise(path);
        assert_eq!(lexical_normalise(&once), once);
        assert_eq!(render_path(&path_components(&once)), once);
    }
}

#[test]
fn relative_paths_are_taken_from_the_working_directory() {
    assert_eq!(resolve_safe_path("src/main.rs", "/work").unwrap(), "/work/src/main.rs");
    assert_eq!(resolve_safe_path("./a", "/work/").unwrap(), "/work/a");
    assert_eq!(resolve_safe_path("a/../b", "/work").unwrap(), "/work/b");
    assert_eq!(resolve_safe_path("", "/work").unwrap(), "/work");
    assert_eq!(resolve_safe_path(".", "/work").unwrap(), "/work");
    assert_eq!(resolve_safe_path("x", "/").unwrap(), "/x");
    assert_eq!(resolve_safe_path("../x", "/").unwrap(), "/x");
}

#[test]
fn absolute_paths_must_be_inside() {
    assert_eq!(resolve_safe_path("/work/a", "/work").unwrap(), "/work/a");
    assert_eq!(resolve_safe_path("/work", "/work").unwrap(), "/work");
    assert!(resolve_safe_path("/etc/passwd", "/work").is_err());
    assert!(resolve_safe_path("/workshop/a", "/work").is_err());
    assert!(resolve_safe_path("/work/../etc/passwd", "/work").is_err());
}

#[test]
fn escaping_paths_are_refused_with_what_they_resolve_to() {
    let e = resolve_safe_path("../../etc/passwd", "/work/dir").unwrap_err();
    assert_eq!(
        e.message,
        "Path '../../etc/passwd' escapes the working directory (resolved to '/etc/passwd')"
    );
    assert!(resolve_safe_path("..", "/work").is_err());
    assert!(resolve_safe_path("a/../..", "/work").is_err());
    assert_eq!(resolve_safe_path("../work/a", "/work").unwrap(), "/work/a");
}

#[test]
fn dots_in_the_working_directory_are_carried_out() {
    assert_eq!(resolve_safe_path("a.txt", "/srv/tmp/../w").unwrap(), "/srv/w/a.txt");
    assert_eq!(resolve_safe_path("/srv/w/a", "/srv/./tmp/../w/").unwrap(), "/srv/w/a");
    assert_eq!(resolve_safe_path("../w/a", "/srv/tmp/../w").unwrap(), "/srv/w/a");
    assert!(resolve_safe_path("../a", "/srv/tmp/../w").is_err());
    assert!(resolve_safe_path("/srv/tmp/a", "/srv/tmp/../w").is_err());
    assert_eq!(resolve_safe_path("a", ".").unwrap(), "a");
    assert_eq!(resolve_safe_path("a", "../proj").unwrap(), "../proj/a");
    assert_eq!(resolve_safe_path("a", "..").unwrap(), "../a");
    assert_eq!(resolve_safe_path("", "../proj/./x/..").unwrap(), "../proj");
    assert_eq!(resolve_safe_path(".", "").unwrap(), "");
}

#[test]
fn the_spelling_of_the_working_directory_does_not_matter() {
    for (dir, plain) in vec![
        ("/srv/tmp/../w", "/srv/w"),
        (".", ""),
        ("./w//", "w"),
        ("x/../../proj", "../proj"),
        ("/..", "/"),
    ] {
        for path in vec!["a", "./a/../b", "", "..", "../w/x", "../proj/x", "/srv/w/a", "/"] {
            assert_eq!(
                resolve_safe_path(path, dir).ok(),
                resolve_safe_path(path, plain).ok(),
                "{path:?} from {dir:?}"
            );
        }
    }
}

#[test]
fn climbing_out_of_a_relative_working_directory_is_refused() {
    let e = resolve_safe_path("../../w/x", "w").unwrap_err();
    assert_eq!(
        e.message,
        "Path '../../w/x' escapes the working directory (resolved to '../w/x')"
    );
    assert!(resolve_safe_path("..", "w").is_err());
    assert!(resolve_safe_path("../a", "").is_err());
    assert!(resolve_safe_path("../a", ".").is_err());
    assert!(resolve_safe_path("a/../../b", ".").is_err());
    assert!(resolve_safe_path("..", "..").is_err());
    assert!(resolve_safe_path("../../proj/a", "../proj").is_err());
    assert_eq!(resolve_safe_path("../w/x", "w").unwrap(), "w/x");
    assert_eq!(resolve_safe_path("../proj/a", "../proj").unwrap(), "../proj/a");
}

#[test]
fn ending_above_the_working_directory_is_refused() {
    for (path, dir) in vec![("..", "/work"), ("a/../../..", "/x/y"), ("../..", "a/b/c"), ("..", ".")] {
        assert!(resolve_safe_path(path, dir).is_err(), "{path:?} from {dir:?}");
    }
    assert_eq!(resolve_safe_path("..", "/").unwrap(), "/");
}

#[test]
fn absolute_paths_are_outside_a_relative_working_directory() {
    for dir in vec!["", ".", "w", "..", "w/.."] {
        assert!(resolve_safe_path("/etc/passwd", dir).is_err(), "from {dir:?}");
        assert!(resolve_safe_path("/", dir).is_err(), "from {dir:?}");
    }
}

#[test]
fn resolving_normalises_what_is_absolute() {
    for path in vec!["a/../b", "./x//y/.", "../work/z", "/work/./q"] {
        let joined = std::path::Path::new("/tmp/../work").join(path);
        assert_eq!(
            resolve_safe_path(path, "/tmp/../work").unwrap(),
            lexical_normalise(joined.to_str().unwrap())
        );
    }
}

#[test]
fn resolving_twice_is_resolving_once() {
    for path in vec!["a/b", "./x/../y", "/work/z/.", ""] {
        let once = resolve_safe_path(path, "/work").unwrap();
        assert!(std::path::Path::new(&once).starts_with("/work"));
        assert_eq!(resolve_safe_path(&once, "/work").unwrap(), once);
    }
    for path in vec!["a/b", "./x/../y", ""] {
        let once = resolve_safe_path(path, ".").unwrap();
        assert_eq!(resolve_safe_path(&once, ".").unwrap(), once);
    }
}
