//! From a request URL to a path below the root directory.

use vstd::prelude::*;
use crate::config::ServerConfig;
use crate::path::{
    interleaved, is_parent_dir, joined, joined_all, lemma_empty_segment_skipped,
    lemma_joined_all_of_names, lemma_named_are_parts, lemma_segments_concat,
    lemma_segments_nonempty, lemma_segments_of_interleaved, lemma_segments_separator_free,
    lemma_tokens_joined_all, named, path_tokens, push_segment, segments, separator_free,
    split_segments, texts, SEPARATOR,
};
use crate::text::{chars_of, string_of};

verus! {

/// The path that `url` names below `root`: `root` extended by every segment of
/// `url` in order. No segment is rejected or rewritten, so `..` stays in the
/// path and may lead out of `root`.
pub open spec fn resolved(root: Seq<char>, url: Seq<char>) -> Seq<char> {
    joined_all(root, segments(url))
}

/// Resolves a request URL against the configured root directory.
pub fn url_to_path(config: &ServerConfig, url: &str) -> (path: String)
    ensures
        path@ == resolved(config.root_directory@, url@),
{
    resolve_against(config.root_directory.as_str(), url)
}

/// Extends `base` by every segment of `relative` in order.
pub fn resolve_against(base: &str, relative: &str) -> (path: String)
    ensures
        path@ == resolved(base@, relative@),
{
    let parts = split_segments(&chars_of(relative));
    let mut path = chars_of(base);
    let mut i: usize = 0;
    while i < parts.len()
        invariant
            i <= parts.len(),
            texts(parts@) == segments(relative@),
            path@ == joined_all(base@, segments(relative@).take(i as int)),
        decreases parts.len() - i,
    {
        assert(segments(relative@).take(i + 1).drop_last() == segments(relative@).take(i as int));
        push_segment(&mut path, &parts[i]);
        i += 1;
    }
    assert(segments(relative@).take(i as int) == segments(relative@));
    string_of(&path)
}

/// The tokens of a resolved path are those of the root and then the named
/// segments of the URL: empty segments and `.` leave no trace in them.
pub proof fn lemma_tokens_resolved(root: Seq<char>, url: Seq<char>)
    requires
        root.len() > 0,
    ensures
        resolved(root, url).len() > 0,
        path_tokens(resolved(root, url)) == path_tokens(root) + named(segments(url)),
{
    lemma_segments_separator_free(url);
    lemma_tokens_joined_all(root, segments(url));
}

/// A URL resolves the same with and without a separator at its start.
pub proof fn lemma_leading_separator(root: Seq<char>, url: Seq<char>)
    ensures
        resolved(root, seq![SEPARATOR] + url) == resolved(root, url),
{
    let nothing = Seq::<char>::empty();
    lemma_segments_concat(nothing, url);
    lemma_segments_nonempty(url);
    lemma_empty_segment_skipped(root, Seq::empty(), segments(url));
}

/// A URL made of names with separators between them resolves to the root
/// extended by the URL as a whole: the root, a separator unless the root is
/// empty or ends in one, and the URL without the separator at its start.
pub proof fn lemma_resolved_names(root: Seq<char>, names: Seq<Seq<char>>)
    requires
        names.len() > 0,
        forall|i: int|
            0 <= i < names.len() ==> (#[trigger] names[i]).len() > 0 && separator_free(names[i]),
    ensures
        resolved(root, interleaved(names)) == joined(root, interleaved(names)),
        resolved(root, seq![SEPARATOR] + interleaved(names)) == joined(root, interleaved(names)),
{
    lemma_segments_of_interleaved(names);
    lemma_joined_all_of_names(root, names);
    lemma_leading_separator(root, interleaved(names));
}

/// A doubled separator in a URL resolves like a single one.
pub proof fn lemma_doubled_separator(root: Seq<char>, before: Seq<char>, after: Seq<char>)
    ensures
        resolved(root, before.push(SEPARATOR).push(SEPARATOR) + after) == resolved(
            root,
            before.push(SEPARATOR) + after,
        ),
{
    lemma_segments_concat(before.push(SEPARATOR), after);
    lemma_segments_concat(before, after);
    lemma_segments_concat(before, Seq::empty());
    assert(segments(before) + seq![Seq::<char>::empty()] == segments(before).push(Seq::empty()));
    lemma_segments_nonempty(after);
    lemma_empty_segment_skipped(root, segments(before), segments(after));
}

/// How far a resolved path can stray from the root. Its tokens always start
/// with those of the root, and only a `..` in the URL can put a `..` behind
/// them. A URL with a `..` may thus lead out of the root, as no segment is
/// ever rejected.
pub proof fn lemma_resolved_below_root(root: Seq<char>, url: Seq<char>)
    requires
        root.len() > 0,
    ensures
        path_tokens(root).is_prefix_of(path_tokens(resolved(root, url))),
        (forall|i: int| 0 <= i < segments(url).len() ==> !is_parent_dir(#[trigger] segments(url)[i]))
            ==> forall|j: int|
            path_tokens(root).len() <= j < path_tokens(resolved(root, url)).len()
                ==> !is_parent_dir(#[trigger] path_tokens(resolved(root, url))[j]),
{
    lemma_tokens_resolved(root, url);
    lemma_named_are_parts(segments(url));
    let root_tokens = path_tokens(root);
    let added = named(segments(url));
    if forall|i: int| 0 <= i < segments(url).len() ==> !is_parent_dir(#[trigger] segments(url)[i]) {
        assert forall|j: int|
            root_tokens.len() <= j < (root_tokens + added).len() implies !is_parent_dir(
            #[trigger] (root_tokens + added)[j],
        ) by {
            let k = j - root_tokens.len();
            let i = choose|i: int| 0 <= i < segments(url).len() && segments(url)[i] == added[k];
            assert(!is_parent_dir(segments(url)[i]));
        }
    }
}

} // verus!
