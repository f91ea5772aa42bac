//! Directory listings as HTML pages.
//!
//! Each child of the listed directory that can be described becomes one list
//! item with a link. The link's target is found by stripping from the child's
//! path the tokens it shares with the root directory, so that it reads
//! relative to the request.

use vstd::prelude::*;
use vstd::string::StringExecFns;
use crate::classify::Metadata;
use crate::config::ServerConfig;
use crate::path::{
    interleaved, is_named, joined, lemma_named_of_named, lemma_segments_of_interleaved,
    lemma_slash_joined_interleaved, lemma_tokens_concat, lemma_tokens_joined, named, path_tokens,
    same_text, segments, separator_free, slash_joined, texts, tokenize, SEPARATOR,
};
use crate::resolve::{lemma_tokens_resolved, resolved};
use crate::text::chars_of;

verus! {

/// What opens every listing.
pub const PAGE_HEAD: &'static str =
    "<!DOCTYPE html><html><title>rust static server</title></head><body><ul>";

/// What closes every listing.
pub const PAGE_TAIL: &'static str = "</ul></body></html>";

/// What opens a list item.
pub const ITEM_OPEN: &'static str = "<li";

/// The attribute that sets a directory's item in bold.
pub const ITEM_BOLD: &'static str = " style=\"font-weight: bold;\"";

/// What ends an item's opening tag.
pub const TAG_END: &'static str = ">";

/// What closes a list item.
pub const ITEM_CLOSE: &'static str = "</li>";

/// What opens a link, up to its target.
pub const LINK_OPEN: &'static str = "<a href=\"";

/// What stands between a link's target and its text.
pub const LINK_MIDDLE: &'static str = "\">";

/// What closes a link.
pub const LINK_CLOSE: &'static str = "</a>";

/// One child of a listed directory.
#[derive(Clone, Debug, PartialEq, Eq)]
pub struct DirEntry {
    /// The child's full path: the listed directory's path and the child's
    /// name.
    pub path: String,
    /// The child's bare name.
    pub file_name: String,
    /// The child's metadata, or `None` if it could not be read.
    pub metadata: Option<Metadata>,
}

impl DirEntry {
    /// Whether this entry is what a listing of `directory` gives for one of
    /// its children: the name is a single named segment, and the path is the
    /// directory extended by it.
    pub open spec fn is_child_of(self, directory: Seq<char>) -> bool {
        &&& is_named(self.file_name@)
        &&& separator_free(self.file_name@)
        &&& self.path@ == joined(directory, self.file_name@)
    }
}

/// How many tokens `left` and `right` share at their start.
pub open spec fn shared_prefix_len(left: Seq<Seq<char>>, right: Seq<Seq<char>>) -> nat
    decreases left.len(),
{
    if left.len() > 0 && right.len() > 0 && left[0] == right[0] {
        1 + shared_prefix_len(left.drop_first(), right.drop_first())
    } else {
        0
    }
}

/// The URL of the entry at `entry_path` relative to `root`: the entry's
/// tokens after those that it shares with the root, each behind a separator.
/// An entry that shares no token with the root keeps all of its own, and one
/// whose tokens all open the root's has the empty URL.
pub open spec fn relative_url(root: Seq<char>, entry_path: Seq<char>) -> Seq<char> {
    let root_tokens = path_tokens(root);
    let entry_tokens = path_tokens(entry_path);
    slash_joined(entry_tokens.skip(shared_prefix_len(root_tokens, entry_tokens) as int))
}

/// The target of the link to the entry at `entry_path`: a dot and the
/// relative URL, so that the link is followed from the current request.
pub open spec fn href(root: Seq<char>, entry_path: Seq<char>) -> Seq<char> {
    seq!['.'] + relative_url(root, entry_path)
}

/// The link to an entry, with the entry's name as its text.
pub open spec fn link_html(root: Seq<char>, entry: DirEntry) -> Seq<char> {
    LINK_OPEN@ + href(root, entry.path@) + LINK_MIDDLE@ + entry.file_name@ + LINK_CLOSE@
}

/// The list item of an entry: bold for a directory, plain for anything else.
pub open spec fn item_html(root: Seq<char>, entry: DirEntry) -> Seq<char> {
    ITEM_OPEN@ + (if entry.metadata matches Some(found) && found.is_dir {
        ITEM_BOLD@
    } else {
        Seq::empty()
    }) + TAG_END@ + link_html(root, entry) + ITEM_CLOSE@
}

/// What an entry adds to a listing: its item, or nothing at all if its
/// metadata could not be read.
pub open spec fn entry_html(root: Seq<char>, entry: DirEntry) -> Seq<char> {
    if entry.metadata is Some {
        item_html(root, entry)
    } else {
        Seq::empty()
    }
}

/// Whether a child makes it into the listing: it could be read, and so could
/// its metadata.
pub open spec fn is_listed(child: Option<DirEntry>) -> bool {
    child matches Some(entry) && entry.metadata is Some
}

/// The children that make it into the listing, in the order in which the
/// directory gave them.
pub open spec fn listed_entries(children: Seq<Option<DirEntry>>) -> Seq<DirEntry>
    decreases children.len(),
{
    if children.len() == 0 {
        Seq::empty()
    } else if is_listed(children.last()) {
        listed_entries(children.drop_last()).push(children.last()->0)
    } else {
        listed_entries(children.drop_last())
    }
}

/// The items of a listing: one for each listed entry.
pub open spec fn items(root: Seq<char>, children: Seq<Option<DirEntry>>) -> Seq<Seq<char>> {
    listed_entries(children).map_values(|entry: DirEntry| item_html(root, entry))
}

/// The children of a directory as they are rendered: none if the directory
/// could not be listed.
pub open spec fn listed(children: Option<Vec<Option<DirEntry>>>) -> Seq<Option<DirEntry>> {
    match children {
        Some(found) => found@,
        None => Seq::empty(),
    }
}

/// The whole page for a directory with these children: the fixed frame
/// around the items.
pub open spec fn listing_html(root: Seq<char>, children: Seq<Option<DirEntry>>) -> Seq<char> {
    PAGE_HEAD@ + items(root, children).flatten() + PAGE_TAIL@
}

/// The first `count` tokens agree, and the next ones, if both are there,
/// differ: then `count` is the length of the shared prefix.
pub proof fn lemma_shared_prefix_len(left: Seq<Seq<char>>, right: Seq<Seq<char>>, count: int)
    requires
        0 <= count <= left.len(),
        count <= right.len(),
        forall|i: int| 0 <= i < count ==> left[i] == right[i],
        count < left.len() && count < right.len() ==> left[count] != right[count],
    ensures
        shared_prefix_len(left, right) == count,
    decreases left.len(),
{
    if count > 0 {
        lemma_shared_prefix_len(left.drop_first(), right.drop_first(), count - 1);
    }
}

/// What the shared prefix is: the two sequences agree on that many tokens,
/// and then one of them ends or they differ.
pub proof fn lemma_shared_prefix(left: Seq<Seq<char>>, right: Seq<Seq<char>>)
    ensures
        shared_prefix_len(left, right) <= left.len(),
        shared_prefix_len(left, right) <= right.len(),
        left.take(shared_prefix_len(left, right) as int) == right.take(
            shared_prefix_len(left, right) as int,
        ),
        shared_prefix_len(left, right) < left.len() && shared_prefix_len(left, right)
            < right.len() ==> left[shared_prefix_len(left, right) as int]
            != right[shared_prefix_len(left, right) as int],
    decreases left.len(),
{
    if left.len() > 0 && right.len() > 0 && left[0] == right[0] {
        let count = shared_prefix_len(left, right) as int;
        lemma_shared_prefix(left.drop_first(), right.drop_first());
        assert(left.take(count) == seq![left[0]] + left.drop_first().take(count - 1));
        assert(right.take(count) == seq![right[0]] + right.drop_first().take(count - 1));
    }
}

/// An entry whose path starts unlike the root is linked by its whole path:
/// every one of its tokens, each behind a separator.
pub proof fn lemma_relative_url_without_shared_prefix(root: Seq<char>, entry_path: Seq<char>)
    requires
        path_tokens(root).len() == 0 || path_tokens(entry_path).len() == 0 || path_tokens(root)[0]
            != path_tokens(entry_path)[0],
    ensures
        relative_url(root, entry_path) == slash_joined(path_tokens(entry_path)),
{
    assert(path_tokens(entry_path).skip(0) == path_tokens(entry_path));
}

/// An entry whose tokens are those of the root and then some more is linked
/// by exactly those further tokens: its relative URL is each of them behind a
/// separator, and its link's target is a dot and that URL.
pub proof fn lemma_relative_url_below_root(
    root: Seq<char>,
    entry_path: Seq<char>,
    trailing: Seq<Seq<char>>,
)
    requires
        path_tokens(entry_path) == path_tokens(root) + trailing,
    ensures
        relative_url(root, entry_path) == slash_joined(trailing),
        href(root, entry_path) == seq!['.'] + slash_joined(trailing),
{
    let root_tokens = path_tokens(root);
    lemma_shared_prefix_len(root_tokens, root_tokens + trailing, root_tokens.len() as int);
    assert((root_tokens + trailing).skip(root_tokens.len() as int) == trailing);
}

/// An entry whose path is the root, a separator and a remainder is linked by
/// the named segments of that remainder, each behind a separator.
pub proof fn lemma_relative_url_of_remainder(root: Seq<char>, rest: Seq<char>)
    requires
        root.len() > 0,
    ensures
        relative_url(root, root.push(SEPARATOR) + rest) == slash_joined(named(segments(rest))),
{
    lemma_tokens_concat(root, rest);
    lemma_relative_url_below_root(root, root.push(SEPARATOR) + rest, named(segments(rest)));
}

/// The relative URL of an entry below the root is what the entry's path adds
/// to the root: for an entry that differs from the root only by names that
/// follow it, each behind a separator, the relative URL is those names behind
/// their separators, and the link's target is a dot and that.
pub proof fn lemma_relative_url_is_suffix(root: Seq<char>, trailing: Seq<Seq<char>>)
    requires
        root.len() > 0,
        forall|i: int|
            0 <= i < trailing.len() ==> is_named(#[trigger] trailing[i]) && separator_free(
                trailing[i],
            ),
    ensures
        relative_url(root, root + slash_joined(trailing)) == slash_joined(trailing),
        href(root, root + slash_joined(trailing)) == seq!['.'] + slash_joined(trailing),
{
    if trailing.len() == 0 {
        assert(root + slash_joined(trailing) == root);
        assert(path_tokens(root) + trailing == path_tokens(root));
        lemma_relative_url_below_root(root, root, trailing);
    } else {
        lemma_slash_joined_interleaved(trailing);
        lemma_segments_of_interleaved(trailing);
        lemma_named_of_named(trailing);
        assert(root + (seq![SEPARATOR] + interleaved(trailing)) == root.push(SEPARATOR)
            + interleaved(trailing));
        lemma_relative_url_of_remainder(root, interleaved(trailing));
    }
}

/// In the listing of the directory that `url` resolves to, each child is
/// linked by the named segments of `url` and then its own name, whatever the
/// root directory is.
pub proof fn lemma_link_of_child(root: Seq<char>, url: Seq<char>, entry: DirEntry)
    requires
        root.len() > 0,
        entry.is_child_of(resolved(root, url)),
    ensures
        relative_url(root, entry.path@) == slash_joined(
            named(segments(url)).push(entry.file_name@),
        ),
        link_html(root, entry) == LINK_OPEN@ + (seq!['.'] + slash_joined(
            named(segments(url)).push(entry.file_name@),
        )) + LINK_MIDDLE@ + entry.file_name@ + LINK_CLOSE@,
{
    let trailing = named(segments(url)).push(entry.file_name@);
    lemma_tokens_resolved(root, url);
    lemma_tokens_joined(resolved(root, url), entry.file_name@);
    lemma_relative_url_below_root(root, entry.path@, trailing);
}

/// What one more child adds to the items of a listing: its item if it is
/// listed, nothing if it is not.
pub proof fn lemma_items_push(
    root: Seq<char>,
    children: Seq<Option<DirEntry>>,
    child: Option<DirEntry>,
)
    ensures
        items(root, children.push(child)).flatten() == items(root, children).flatten() + (
        match child {
            Some(entry) => entry_html(root, entry),
            None => Seq::empty(),
        }),
{
    assert(children.push(child).drop_last() == children);
    if is_listed(child) {
        let entry = child->0;
        assert(items(root, children.push(child)) == items(root, children).push(
            item_html(root, entry),
        ));
        items(root, children).lemma_flatten_push(item_html(root, entry));
    }
}

/// The listed entries of two runs of children are those of the first run and
/// then those of the second.
pub proof fn lemma_listed_entries_concat(
    first: Seq<Option<DirEntry>>,
    second: Seq<Option<DirEntry>>,
)
    ensures
        listed_entries(first + second) == listed_entries(first) + listed_entries(second),
    decreases second.len(),
{
    if second.len() > 0 {
        lemma_listed_entries_concat(first, second.drop_last());
        assert((first + second).drop_last() == first + second.drop_last());
    }
}

/// A listing has exactly one item for each child that could be read with its
/// metadata, and the item is bold if and only if the child is a directory.
pub proof fn lemma_one_item_per_listed_entry(root: Seq<char>, children: Seq<Option<DirEntry>>)
    ensures
        items(root, children).len() == listed_entries(children).len(),
        listed_entries(children).len() <= children.len(),
        forall|i: int|
            0 <= i < listed_entries(children).len() ==> {
                let entry = #[trigger] listed_entries(children)[i];
                &&& entry.metadata is Some
                &&& items(root, children)[i] == ITEM_OPEN@ + (if entry.metadata->0.is_dir {
                    ITEM_BOLD@
                } else {
                    Seq::empty()
                }) + TAG_END@ + link_html(root, entry) + ITEM_CLOSE@
            },
        (forall|i: int| 0 <= i < children.len() ==> is_listed(#[trigger] children[i]))
            ==> listed_entries(children) == children.map_values(|child: Option<DirEntry>| child->0),
    decreases children.len(),
{
    if children.len() > 0 {
        let shorter = children.drop_last();
        lemma_one_item_per_listed_entry(root, shorter);
        if forall|i: int| 0 <= i < children.len() ==> is_listed(#[trigger] children[i]) {
            assert forall|i: int| 0 <= i < shorter.len() implies is_listed(
                #[trigger] shorter[i],
            ) by {
                assert(shorter[i] == children[i]);
            }
        }
    }
}

/// A child that could not be read, or whose metadata could not be, is left
/// out of the listing, and every other child stays in it.
pub proof fn lemma_unreadable_child_omitted(
    root: Seq<char>,
    before: Seq<Option<DirEntry>>,
    child: Option<DirEntry>,
    after: Seq<Option<DirEntry>>,
)
    requires
        !is_listed(child),
    ensures
        listed_entries(before.push(child) + after) == listed_entries(before + after),
        listing_html(root, before.push(child) + after) == listing_html(root, before + after),
{
    lemma_listed_entries_concat(before.push(child), after);
    lemma_listed_entries_concat(before, after);
    assert(before.push(child).drop_last() == before);
}

/// The URL of a directory entry relative to the root directory.
pub fn dir_entry_to_relative_url(config: &ServerConfig, entry: &DirEntry) -> (url: String)
    ensures
        url@ == relative_url(config.root_directory@, entry.path@),
{
    let root_tokens = tokenize(&chars_of(config.root_directory.as_str()));
    let entry_tokens = tokenize(&chars_of(entry.path.as_str()));
    let mut shared: usize = 0;
    while shared < root_tokens.len() && shared < entry_tokens.len() && same_text(
        &root_tokens[shared],
        &entry_tokens[shared],
    )
        invariant
            shared <= root_tokens.len(),
            shared <= entry_tokens.len(),
            forall|i: int| 0 <= i < shared ==> texts(root_tokens@)[i] == texts(entry_tokens@)[i],
        decreases root_tokens.len() - shared,
    {
        shared += 1;
    }
    proof {
        lemma_shared_prefix_len(texts(root_tokens@), texts(entry_tokens@), shared as int);
    }
    let ghost rest = texts(entry_tokens@).skip(shared as int);
    let mut url = String::new();
    let mut i: usize = shared;
    while i < entry_tokens.len()
        invariant
            shared <= i <= entry_tokens.len(),
            rest == texts(entry_tokens@).skip(shared as int),
            url@ == slash_joined(rest.take(i - shared)),
        decreases entry_tokens.len() - i,
    {
        let token = &entry_tokens[i];
        let ghost before = url@;
        assert(rest.take(i - shared + 1).drop_last() == rest.take(i - shared));
        url.push(SEPARATOR);
        let mut j: usize = 0;
        while j < token.len()
            invariant
                j <= token.len(),
                url@ == before.push(SEPARATOR) + token@.take(j as int),
            decreases token.len() - j,
        {
            url.push(token[j]);
            j += 1;
        }
        i += 1;
    }
    assert(rest.take(i - shared) == rest);
    url
}

/// The link to a directory entry.
pub fn dir_entry_to_link(config: &ServerConfig, entry: &DirEntry) -> (html: String)
    ensures
        html@ == link_html(config.root_directory@, *entry),
{
    let url = dir_entry_to_relative_url(config, entry);
    let mut html = String::new();
    html.append(LINK_OPEN);
    html.push('.');
    html.append(url.as_str());
    html.append(LINK_MIDDLE);
    html.append(entry.file_name.as_str());
    html.append(LINK_CLOSE);
    html
}

/// The list item of a directory entry; the empty text for an entry whose
/// metadata could not be read.
pub fn dir_entry_to_html(config: &ServerConfig, entry: &DirEntry) -> (html: String)
    ensures
        html@ == entry_html(config.root_directory@, *entry),
{
    let mut html = String::new();
    match entry.metadata {
        Some(found) => {
            html.append(ITEM_OPEN);
            if found.is_dir {
                html.append(ITEM_BOLD);
            }
            html.append(TAG_END);
            let link = dir_entry_to_link(config, entry);
            html.append(link.as_str());
            html.append(ITEM_CLOSE);
        },
        None => {},
    }
    html
}

/// Renders the page that lists a directory's children, in the order given.
/// A directory that could not be listed gives a page without items, and so
/// does every child that could not be read.
pub fn render_listing(config: &ServerConfig, children: &Option<Vec<Option<DirEntry>>>) -> (page:
    String)
    ensures
        page@ == listing_html(config.root_directory@, listed(*children)),
{
    let ghost root = config.root_directory@;
    let mut page = String::new();
    page.append(PAGE_HEAD);
    match children {
        Some(found) => {
            let mut i: usize = 0;
            while i < found.len()
                invariant
                    i <= found.len(),
                    root == config.root_directory@,
                    page@ == PAGE_HEAD@ + items(root, found@.take(i as int)).flatten(),
                decreases found.len() - i,
            {
                let ghost done = found@.take(i as int);
                proof {
                    lemma_items_push(root, done, found@[i as int]);
                }
                match &found[i] {
                    Some(entry) => {
                        let item = dir_entry_to_html(config, entry);
                        page.append(item.as_str());
                    },
                    None => {},
                }
                assert(done.push(found@[i as int]) == found@.take(i + 1));
                i += 1;
            }
            assert(found@.take(i as int) == found@);
        },
        None => {},
    }
    page.append(PAGE_TAIL);
    page
}

} // verus!
