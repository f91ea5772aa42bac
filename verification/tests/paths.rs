use static_server::config::ServerConfig;
use static_server::path::{push_segment, same_text, split_segments, tokenize};
use static_server::resolve::{resolve_against, url_to_path};
use static_server::text::{chars_of, string_of};
use std::path::{Path, PathBuf};

fn config(root: &str) -> ServerConfig {
    ServerConfig { root_directory: root.to_string(), port: 8080 }
}

fn chars(text: &str) -> Vec<char> {
    text.chars().collect()
}

fn strings(parts: Vec<Vec<char>>) -> Vec<String> {
    parts.iter().map(|part| part.iter().collect()).collect()
}

fn pushed_by_std(root: &str, url: &str) -> String {
    let mut path = PathBuf::from(root);
    for token in url.split('/') {
        path.push(token);
    }
    path.to_str().unwrap().to_string()
}

fn tokens_by_std(path: &str) -> Vec<String> {
    Path::new(path).iter().map(|token| token.to_str().unwrap().to_string()).collect()
}

const SAMPLE_URLS: [&str; 14] = [
    "",
    "/",
    "//",
    "/a",
    "/a/",
    "/a//b",
    "/a/b/c.txt",
    "a/b",
    "/../etc/passwd",
    "/./a/./b",
    "/.",
    "/..",
    "/a b/ü.txt",
    "///x///",
];

#[test]
fn chars_and_strings_convert_both_ways() {
    assert_eq!(chars_of("a/ü"), vec!['a', '/', 'ü']);
    assert_eq!(chars_of(""), Vec::<char>::new());
    assert_eq!(string_of(&vec!['a', '/', 'ü']), "a/ü");
    assert_eq!(string_of(&Vec::new()), "");
}

#[test]
fn same_text_compares_contents() {
    assert!(same_text(&chars("abc"), &chars("abc")));
    assert!(same_text(&chars(""), &chars("")));
    assert!(!same_text(&chars("abc"), &chars("abd")));
    assert!(!same_text(&chars("abc"), &chars("ab")));
    assert!(!same_text(&chars(""), &chars("a")));
}

#[test]
fn split_keeps_empty_segments() {
    assert_eq!(strings(split_segments(&chars("/a//b"))), vec!["", "a", "", "b"]);
    assert_eq!(strings(split_segments(&chars(""))), vec![""]);
    assert_eq!(strings(split_segments(&chars("/"))), vec!["", ""]);
    assert_eq!(strings(split_segments(&chars("a"))), vec!["a"]);
    assert_eq!(strings(split_segments(&chars("a/"))), vec!["a", ""]);
}

#[test]
fn split_agrees_with_std() {
    for url in SAMPLE_URLS {
        let expected: Vec<String> = url.split('/').map(|part| part.to_string()).collect();
        assert_eq!(strings(split_segments(&chars(url))), expected, "{}", url);
    }
}

#[test]
fn push_segment_puts_one_separator_between() {
    let mut path = chars("/srv");
    push_segment(&mut path, &chars("a"));
    assert_eq!(string_of(&path), "/srv/a");
    push_segment(&mut path, &chars(""));
    assert_eq!(string_of(&path), "/srv/a/");
    push_segment(&mut path, &chars(""));
    assert_eq!(string_of(&path), "/srv/a/");
    push_segment(&mut path, &chars("b"));
    assert_eq!(string_of(&path), "/srv/a/b");
}

#[test]
fn push_segment_onto_empty_path_adds_no_separator() {
    let mut path = Vec::new();
    push_segment(&mut path, &chars(""));
    assert_eq!(string_of(&path), "");
    push_segment(&mut path, &chars("a"));
    assert_eq!(string_of(&path), "a");
}

#[test]
fn url_is_joined_to_root_segment_by_segment() {
    assert_eq!(url_to_path(&config("/srv"), "/a//b"), "/srv/a/b");
}

#[test]
fn url_of_root_resolves_to_root_with_separator() {
    assert_eq!(url_to_path(&config("/srv"), "/"), "/srv/");
    assert_eq!(url_to_path(&config("/srv"), ""), "/srv/");
    assert_eq!(url_to_path(&config("/srv/"), "/"), "/srv/");
    assert_eq!(url_to_path(&config("/"), "/"), "/");
}

#[test]
fn trailing_separator_of_url_is_kept_once() {
    assert_eq!(url_to_path(&config("/srv"), "/a/"), "/srv/a/");
    assert_eq!(url_to_path(&config("/srv"), "/a///"), "/srv/a/");
}

#[test]
fn parent_segments_are_not_rejected() {
    assert_eq!(url_to_path(&config("/srv/www"), "/../../etc/passwd"), "/srv/www/../../etc/passwd");
    assert_eq!(url_to_path(&config("/srv"), "/./a"), "/srv/./a");
}

#[test]
fn doubled_separator_resolves_like_single() {
    let config = config("/srv");
    assert_eq!(url_to_path(&config, "/a//b"), url_to_path(&config, "/a/b"));
    assert_eq!(url_to_path(&config, "//a"), url_to_path(&config, "/a"));
}

#[test]
fn empty_root_takes_first_segment_as_it_is() {
    assert_eq!(url_to_path(&config(""), "/a/b"), "a/b");
    assert_eq!(resolve_against("", "a"), "a");
}

#[test]
fn resolve_against_extends_any_base() {
    assert_eq!(resolve_against("/home/user", "/www/site"), "/home/user/www/site");
    assert_eq!(resolve_against("relative", "x"), "relative/x");
}

#[test]
fn resolution_agrees_with_std_push() {
    for root in ["/srv", "/srv/", "/", "/srv/www", "rel", "./rel", "", "."] {
        for url in SAMPLE_URLS {
            assert_eq!(url_to_path(&config(root), url), pushed_by_std(root, url), "{} {}", root, url);
        }
    }
}

#[test]
fn tokens_of_absolute_path_start_with_separator() {
    assert_eq!(strings(tokenize(&chars("/srv/a/b.txt"))), vec!["/", "srv", "a", "b.txt"]);
    assert_eq!(strings(tokenize(&chars("/"))), vec!["/"]);
    assert_eq!(strings(tokenize(&chars("//"))), vec!["/"]);
}

#[test]
fn tokens_skip_empty_segments_and_inner_dots() {
    assert_eq!(strings(tokenize(&chars("/srv//a/./b/"))), vec!["/", "srv", "a", "b"]);
    assert_eq!(strings(tokenize(&chars("a/./b/."))), vec!["a", "b"]);
    assert_eq!(strings(tokenize(&chars("/."))), vec!["/"]);
}

#[test]
fn tokens_keep_leading_dot_and_parent_segments() {
    assert_eq!(strings(tokenize(&chars("."))), vec!["."]);
    assert_eq!(strings(tokenize(&chars("./a/b"))), vec![".", "a", "b"]);
    assert_eq!(strings(tokenize(&chars("a/../b"))), vec!["a", "..", "b"]);
    assert_eq!(strings(tokenize(&chars(".hidden/x"))), vec![".hidden", "x"]);
}

#[test]
fn tokens_of_empty_path_are_none() {
    assert_eq!(strings(tokenize(&chars(""))), Vec::<String>::new());
}

#[test]
fn tokens_agree_with_std_components() {
    let samples = [
        "", "/", "//", ".", "./", "./.", "..", "/.", "/..", "a", "a/", "/a", "/a//b", "./a/./b/",
        "a/../b", "/srv/www/../x", ".hidden", "/srv/a b/ü.txt", "///x///y",
    ];
    for path in samples {
        assert_eq!(strings(tokenize(&chars(path))), tokens_by_std(path), "{}", path);
    }
}

#[test]
fn tokens_of_resolved_path_extend_those_of_root() {
    let resolved = url_to_path(&config("/srv/www"), "/a//./b/");
    assert_eq!(strings(tokenize(&chars(&resolved))), vec!["/", "srv", "www", "a", "b"]);
}

#[test]
fn leading_separator_of_url_changes_nothing() {
    for root in ["/srv", "/srv/", "/", ""] {
        for url in SAMPLE_URLS {
            let with_separator = format!("/{}", url);
            assert_eq!(
                url_to_path(&config(root), &with_separator),
                url_to_path(&config(root), url),
                "{} {}",
                root,
                url
            );
        }
    }
}

#[test]
fn url_of_names_resolves_to_root_and_names() {
    assert_eq!(url_to_path(&config("/srv"), "a/b/c.txt"), "/srv/a/b/c.txt");
    assert_eq!(url_to_path(&config("/srv"), "/a/b/c.txt"), "/srv/a/b/c.txt");
    assert_eq!(url_to_path(&config("www"), "/a"), "www/a");
}

#[test]
fn tokens_of_resolved_path_start_with_those_of_root() {
    for root in ["/srv", "/srv/www/", "/", "rel", "./rel"] {
        let root_tokens = strings(tokenize(&chars(root)));
        for url in SAMPLE_URLS {
            let resolved = url_to_path(&config(root), url);
            let tokens = strings(tokenize(&chars(&resolved)));
            assert_eq!(&tokens[..root_tokens.len()], &root_tokens[..], "{} {}", root, url);
            let has_parent = url.split('/').any(|segment| segment == "..");
            let strays = tokens[root_tokens.len()..].iter().any(|token| token == "..");
            assert_eq!(strays, has_parent, "{} {}", root, url);
        }
    }
}
