use static_server::classify::Metadata;
use static_server::config::ServerConfig;
use static_server::listing::{
    dir_entry_to_html, dir_entry_to_link, dir_entry_to_relative_url, render_listing, DirEntry,
    PAGE_HEAD, PAGE_TAIL,
};
use static_server::resolve::url_to_path;

fn srv() -> ServerConfig {
    ServerConfig { root_directory: "/srv".to_string(), port: 8080 }
}

fn relative_url_of(config: &ServerConfig, path: &str) -> String {
    dir_entry_to_relative_url(config, &entry(path, "name", Some(false)))
}

fn entry(path: &str, name: &str, is_dir: Option<bool>) -> DirEntry {
    DirEntry {
        path: path.to_string(),
        file_name: name.to_string(),
        metadata: is_dir.map(|is_dir| Metadata { is_dir }),
    }
}

#[test]
fn relative_url_is_trailing_tokens_behind_separators() {
    assert_eq!(dir_entry_to_relative_url(&srv(), &entry("/srv/a/b.txt", "b.txt", Some(false))), "/a/b.txt");
}

#[test]
fn link_target_is_dot_and_relative_url() {
    assert_eq!(
        dir_entry_to_link(&srv(), &entry("/srv/a/b.txt", "b.txt", Some(false))),
        "<a href=\"./a/b.txt\">b.txt</a>"
    );
}

#[test]
fn relative_url_of_direct_child() {
    assert_eq!(relative_url_of(&srv(), "/srv/readme"), "/readme");
    assert_eq!(relative_url_of(&srv(), "/srv/"), "");
    assert_eq!(relative_url_of(&srv(), "/srv"), "");
}

#[test]
fn relative_url_ignores_doubled_and_trailing_separators() {
    assert_eq!(relative_url_of(&srv(), "/srv//a/./b/"), "/a/b");
    let root_with_separator = ServerConfig { root_directory: "/srv/".to_string(), port: 8080 };
    assert_eq!(relative_url_of(&root_with_separator, "/srv/a"), "/a");
}

#[test]
fn relative_url_keeps_parent_segments() {
    let config = ServerConfig { root_directory: "/srv/www".to_string(), port: 8080 };
    assert_eq!(relative_url_of(&config, "/srv/www/../x"), "/../x");
}

#[test]
fn relative_url_without_shared_prefix_is_whole_entry_path() {
    let config = ServerConfig { root_directory: "srv".to_string(), port: 8080 };
    assert_eq!(relative_url_of(&config, "other/x"), "/other/x");
    assert_eq!(relative_url_of(&config, "/x/y"), "///x/y");
}

#[test]
fn relative_url_stops_at_first_difference() {
    let config = ServerConfig { root_directory: "/srv/www".to_string(), port: 8080 };
    assert_eq!(relative_url_of(&config, "/srv/other/www/x"), "/other/www/x");
}

#[test]
fn relative_url_of_path_shorter_than_root_is_empty() {
    let config = ServerConfig { root_directory: "/srv/www".to_string(), port: 8080 };
    assert_eq!(relative_url_of(&config, "/srv"), "");
}

#[test]
fn link_of_child_of_resolved_directory_follows_url() {
    let config = srv();
    let directory = url_to_path(&config, "/a//b/");
    let child = format!("{}{}", directory, "c.txt");
    assert_eq!(child, "/srv/a/b/c.txt");
    assert_eq!(relative_url_of(&config, &child), "/a/b/c.txt");
}

#[test]
fn directory_item_is_bold() {
    assert_eq!(
        dir_entry_to_html(&srv(), &entry("/srv/sub", "sub", Some(true))),
        "<li style=\"font-weight: bold;\"><a href=\"./sub\">sub</a></li>"
    );
}

#[test]
fn file_item_is_plain() {
    assert_eq!(
        dir_entry_to_html(&srv(), &entry("/srv/a.txt", "a.txt", Some(false))),
        "<li><a href=\"./a.txt\">a.txt</a></li>"
    );
}

#[test]
fn entry_without_metadata_gives_no_item() {
    assert_eq!(dir_entry_to_html(&srv(), &entry("/srv/a.txt", "a.txt", None)), "");
}

#[test]
fn names_are_not_escaped() {
    assert_eq!(
        dir_entry_to_html(&srv(), &entry("/srv/a<b", "a<b", Some(false))),
        "<li><a href=\"./a<b\">a<b</a></li>"
    );
}

#[test]
fn page_frame_is_fixed() {
    assert_eq!(PAGE_HEAD, "<!DOCTYPE html><html><title>rust static server</title></head><body><ul>");
    assert_eq!(PAGE_TAIL, "</ul></body></html>");
}

#[test]
fn unlistable_directory_gives_empty_list() {
    assert_eq!(
        render_listing(&srv(), &None),
        "<!DOCTYPE html><html><title>rust static server</title></head><body><ul></ul></body></html>"
    );
}

#[test]
fn empty_directory_gives_empty_list() {
    assert_eq!(render_listing(&srv(), &Some(Vec::new())), format!("{}{}", PAGE_HEAD, PAGE_TAIL));
}

#[test]
fn listing_has_one_item_per_child_in_given_order() {
    let children = Some(vec![
        Some(entry("/srv/zeta", "zeta", Some(true))),
        Some(entry("/srv/alpha.txt", "alpha.txt", Some(false))),
    ]);
    assert_eq!(
        render_listing(&srv(), &children),
        "<!DOCTYPE html><html><title>rust static server</title></head><body><ul>\
         <li style=\"font-weight: bold;\"><a href=\"./zeta\">zeta</a></li>\
         <li><a href=\"./alpha.txt\">alpha.txt</a></li>\
         </ul></body></html>"
    );
}

#[test]
fn unreadable_children_are_left_out() {
    let with_unreadable = Some(vec![
        Some(entry("/srv/a", "a", Some(false))),
        Some(entry("/srv/broken", "broken", None)),
        None,
        Some(entry("/srv/b", "b", Some(true))),
    ]);
    let without = Some(vec![
        Some(entry("/srv/a", "a", Some(false))),
        Some(entry("/srv/b", "b", Some(true))),
    ]);
    assert_eq!(render_listing(&srv(), &with_unreadable), render_listing(&srv(), &without));
    assert_eq!(
        render_listing(&srv(), &with_unreadable),
        "<!DOCTYPE html><html><title>rust static server</title></head><body><ul>\
         <li><a href=\"./a\">a</a></li>\
         <li style=\"font-weight: bold;\"><a href=\"./b\">b</a></li>\
         </ul></body></html>"
    );
}

#[test]
fn listing_of_subdirectory_links_through_it() {
    let children = Some(vec![Some(entry("/srv/docs/guide.md", "guide.md", Some(false)))]);
    assert_eq!(
        render_listing(&srv(), &children),
        format!("{}<li><a href=\"./docs/guide.md\">guide.md</a></li>{}", PAGE_HEAD, PAGE_TAIL)
    );
}

#[test]
fn descendant_by_names_is_linked_by_those_names() {
    for root in ["/srv", "/srv/", "/", "/srv/www", "rel", "."] {
        let config = ServerConfig { root_directory: root.to_string(), port: 8080 };
        let mut path = std::path::PathBuf::from(root);
        let mut expected = String::new();
        for name in ["a", "..", "b c", "d.txt"] {
            path.push(name);
            expected.push('/');
            expected.push_str(name);
            assert_eq!(relative_url_of(&config, path.to_str().unwrap()), expected, "{}", root);
        }
    }
}

#[test]
fn child_of_requested_directory_is_linked_by_cleaned_url() {
    let config = srv();
    for (url, expected) in [
        ("/", "/c.txt"),
        ("", "/c.txt"),
        ("/a", "/a/c.txt"),
        ("/a/", "/a/c.txt"),
        ("//a//./b/", "/a/b/c.txt"),
        ("/a/../b", "/a/../b/c.txt"),
    ] {
        let mut child = std::path::PathBuf::from(url_to_path(&config, url));
        child.push("c.txt");
        assert_eq!(relative_url_of(&config, child.to_str().unwrap()), expected, "{}", url);
    }
}

#[test]
fn relative_url_is_what_entry_path_adds_to_root() {
    for root in ["/srv", "/srv/", "/", "/srv/www", "rel", ".", "./rel/"] {
        let config = ServerConfig { root_directory: root.to_string(), port: 8080 };
        let path = format!("{}{}", root, "/a/b.txt");
        assert_eq!(relative_url_of(&config, &path), "/a/b.txt", "{}", root);
        assert_eq!(
            dir_entry_to_link(&config, &entry(&path, "b.txt", Some(false))),
            "<a href=\"./a/b.txt\">b.txt</a>",
            "{}",
            root
        );
        assert_eq!(relative_url_of(&config, root), "", "{}", root);
    }
}

#[test]
fn empty_root_shares_no_token_with_absolute_entry() {
    let config = ServerConfig { root_directory: String::new(), port: 8080 };
    assert_eq!(relative_url_of(&config, "/a"), "///a");
    assert_eq!(relative_url_of(&config, "a/b"), "/a/b");
}
