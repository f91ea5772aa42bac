//! Paths as sequences of characters separated by `/`, as on Unix-like
//! systems and in URLs.
//!
//! A path is cut in two ways. Its *segments* are the pieces between
//! separators, empty ones included; joining them again gives back the path.
//! Its *tokens* are what is left once the path is normalised: a leading
//! separator stands as a token of its own, empty segments vanish, and so does
//! `.` anywhere but at the very start of a relative path.

use vstd::prelude::*;

verus! {

/// The character that separates the segments of a path and of a URL.
pub const SEPARATOR: char = '/';

/// The pieces of `text` between separators, in order. There is always at
/// least one; a leading, trailing or doubled separator gives an empty piece.
pub open spec fn segments(text: Seq<char>) -> Seq<Seq<char>>
    decreases text.len(),
{
    if text.len() == 0 {
        seq![Seq::empty()]
    } else {
        let before = segments(text.drop_last());
        if text.last() == SEPARATOR {
            before.push(Seq::empty())
        } else {
            before.drop_last().push(before.last().push(text.last()))
        }
    }
}

/// `parts` with one separator between each two neighbours.
pub open spec fn interleaved(parts: Seq<Seq<char>>) -> Seq<char>
    decreases parts.len(),
{
    if parts.len() == 0 {
        Seq::empty()
    } else if parts.len() == 1 {
        parts[0]
    } else {
        interleaved(parts.drop_last()).push(SEPARATOR) + parts.last()
    }
}

/// No character of `text` is a separator.
pub open spec fn separator_free(text: Seq<char>) -> bool {
    forall|i: int| 0 <= i < text.len() ==> text[i] != SEPARATOR
}

/// The contents of each part.
pub open spec fn texts(parts: Seq<Vec<char>>) -> Seq<Seq<char>> {
    parts.map_values(|part: Vec<char>| part@)
}

/// `path` extended by one segment: a separator is put between the two unless
/// `path` is empty or already ends in one. An empty segment therefore adds at
/// most a trailing separator.
pub open spec fn joined(path: Seq<char>, segment: Seq<char>) -> Seq<char> {
    if path.len() > 0 && path.last() != SEPARATOR {
        path.push(SEPARATOR) + segment
    } else {
        path + segment
    }
}

/// `path` extended by each of `parts` in turn.
pub open spec fn joined_all(path: Seq<char>, parts: Seq<Seq<char>>) -> Seq<char>
    decreases parts.len(),
{
    if parts.len() == 0 {
        path
    } else {
        joined(joined_all(path, parts.drop_last()), parts.last())
    }
}

/// The parts, each with a separator before it.
pub open spec fn slash_joined(parts: Seq<Seq<char>>) -> Seq<char>
    decreases parts.len(),
{
    if parts.len() == 0 {
        Seq::empty()
    } else {
        slash_joined(parts.drop_last()).push(SEPARATOR) + parts.last()
    }
}

/// A segment that is the single character `.`.
pub open spec fn is_current_dir(segment: Seq<char>) -> bool {
    segment.len() == 1 && segment[0] == '.'
}

/// A segment that is `..`, which names the directory above.
pub open spec fn is_parent_dir(segment: Seq<char>) -> bool {
    segment.len() == 2 && segment[0] == '.' && segment[1] == '.'
}

/// A segment that survives normalisation: neither empty nor `.`.
pub open spec fn is_named(segment: Seq<char>) -> bool {
    segment.len() > 0 && !is_current_dir(segment)
}

/// The named ones among `parts`, in order.
pub open spec fn named(parts: Seq<Seq<char>>) -> Seq<Seq<char>>
    decreases parts.len(),
{
    if parts.len() == 0 {
        Seq::empty()
    } else if is_named(parts.last()) {
        named(parts.drop_last()).push(parts.last())
    } else {
        named(parts.drop_last())
    }
}

/// The token that opens `path`, if any: the separator itself for a path that
/// starts with one, `.` for a relative path whose first segment is `.`.
pub open spec fn leading_token(path: Seq<char>) -> Option<Seq<char>> {
    if path.len() > 0 && path[0] == SEPARATOR {
        Some(seq![SEPARATOR])
    } else if is_current_dir(segments(path)[0]) {
        Some(seq!['.'])
    } else {
        None
    }
}

/// The tokens of `path`: its leading token, then its named segments.
/// Repeated and trailing separators leave no trace, and neither does a `.`
/// after the start; `..` is a token like any other name.
pub open spec fn path_tokens(path: Seq<char>) -> Seq<Seq<char>> {
    match leading_token(path) {
        Some(token) => seq![token] + named(segments(path)),
        None => named(segments(path)),
    }
}

/// There is always a first segment.
pub proof fn lemma_segments_nonempty(text: Seq<char>)
    ensures
        segments(text).len() >= 1,
    decreases text.len(),
{
    if text.len() > 0 {
        lemma_segments_nonempty(text.drop_last());
    }
}

/// No segment holds a separator.
pub proof fn lemma_segments_separator_free(text: Seq<char>)
    ensures
        forall|i: int| 0 <= i < segments(text).len() ==> separator_free(#[trigger] segments(text)[i]),
    decreases text.len(),
{
    if text.len() > 0 {
        lemma_segments_nonempty(text.drop_last());
        lemma_segments_separator_free(text.drop_last());
    }
}

/// Putting the separators back between the segments gives the text again.
pub proof fn lemma_segments_interleaved(text: Seq<char>)
    ensures
        interleaved(segments(text)) == text,
    decreases text.len(),
{
    if text.len() > 0 {
        let shorter = text.drop_last();
        let before = segments(shorter);
        lemma_segments_nonempty(shorter);
        lemma_segments_interleaved(shorter);
        if text.last() == SEPARATOR {
            assert(before.push(Seq::empty()).drop_last() == before);
        } else {
            let grown = before.drop_last().push(before.last().push(text.last()));
            assert(grown.drop_last() == before.drop_last());
            if before.len() > 1 {
                let head = interleaved(before.drop_last()).push(SEPARATOR);
                assert(head + before.last().push(text.last()) == (head + before.last()).push(
                    text.last(),
                ));
            }
        }
    }
}

/// A text without separators is its own single segment.
pub proof fn lemma_segments_of_separator_free(text: Seq<char>)
    requires
        separator_free(text),
    ensures
        segments(text) == seq![text],
    decreases text.len(),
{
    if text.len() > 0 {
        lemma_segments_of_separator_free(text.drop_last());
        assert(seq![text.drop_last()].drop_last().push(text.drop_last().push(text.last())) == seq![
            text,
        ]) by {
            assert(text.drop_last().push(text.last()) == text);
        }
    } else {
        assert(text == Seq::<char>::empty());
    }
}

/// Cutting a text at a separator cuts its segments there too.
pub proof fn lemma_segments_concat(left: Seq<char>, right: Seq<char>)
    ensures
        segments(left.push(SEPARATOR) + right) == segments(left) + segments(right),
    decreases right.len(),
{
    let whole = left.push(SEPARATOR) + right;
    if right.len() == 0 {
        assert(whole.drop_last() == left);
    } else {
        let shorter = right.drop_last();
        lemma_segments_concat(left, shorter);
        lemma_segments_nonempty(left);
        lemma_segments_nonempty(shorter);
        assert(whole.drop_last() == left.push(SEPARATOR) + shorter);
    }
}

/// Parts without separators are the segments of what they give with
/// separators between them: cutting undoes interleaving.
pub proof fn lemma_segments_of_interleaved(parts: Seq<Seq<char>>)
    requires
        parts.len() > 0,
        forall|i: int| 0 <= i < parts.len() ==> separator_free(#[trigger] parts[i]),
    ensures
        segments(interleaved(parts)) == parts,
    decreases parts.len(),
{
    lemma_segments_of_separator_free(parts.last());
    if parts.len() > 1 {
        lemma_segments_of_interleaved(parts.drop_last());
        lemma_segments_concat(interleaved(parts.drop_last()), parts.last());
    }
}

/// The segments of a path that was extended by one segment.
pub proof fn lemma_segments_joined(path: Seq<char>, segment: Seq<char>)
    requires
        separator_free(segment),
    ensures
        segments(joined(path, segment)) == if path.len() == 0 {
            seq![segment]
        } else if path.last() == SEPARATOR {
            segments(path).drop_last().push(segment)
        } else {
            segments(path).push(segment)
        },
{
    lemma_segments_of_separator_free(segment);
    if path.len() > 0 {
        if path.last() == SEPARATOR {
            assert(path == path.drop_last().push(SEPARATOR));
            lemma_segments_concat(path.drop_last(), segment);
        } else {
            lemma_segments_concat(path, segment);
        }
    }
}

/// Extending by several segments at once or in two runs gives the same path.
pub proof fn lemma_joined_all_concat(path: Seq<char>, first: Seq<Seq<char>>, second: Seq<Seq<char>>)
    ensures
        joined_all(path, first + second) == joined_all(joined_all(path, first), second),
    decreases second.len(),
{
    if second.len() > 0 {
        lemma_joined_all_concat(path, first, second.drop_last());
        assert((first + second).drop_last() == first + second.drop_last());
    }
}

/// Extending a path by names one after the other gives what extending it
/// once by the names with separators between them gives.
pub proof fn lemma_joined_all_of_names(path: Seq<char>, names: Seq<Seq<char>>)
    requires
        names.len() > 0,
        forall|i: int|
            0 <= i < names.len() ==> (#[trigger] names[i]).len() > 0 && separator_free(names[i]),
    ensures
        joined_all(path, names) == joined(path, interleaved(names)),
        joined_all(path, names).len() > 0,
        joined_all(path, names).last() != SEPARATOR,
    decreases names.len(),
{
    let last = names.last();
    assert(last.len() > 0 && separator_free(last));
    if names.len() > 1 {
        let shorter = names.drop_last();
        lemma_joined_all_of_names(path, shorter);
        if path.len() > 0 && path.last() != SEPARATOR {
            assert((path.push(SEPARATOR) + interleaved(shorter)).push(SEPARATOR) + last
                == path.push(SEPARATOR) + (interleaved(shorter).push(SEPARATOR) + last));
        } else {
            assert((path + interleaved(shorter)).push(SEPARATOR) + last == path + (interleaved(
                shorter,
            ).push(SEPARATOR) + last));
        }
    } else {
        reveal_with_fuel(joined_all, 2);
        assert(names.drop_last() == Seq::<Seq<char>>::empty());
    }
    assert(joined_all(path, names).last() == last.last());
}

/// An empty segment does not change what the next segment gives.
pub proof fn lemma_empty_segment_then_segment(path: Seq<char>, segment: Seq<char>)
    ensures
        joined(joined(path, Seq::empty()), segment) == joined(path, segment),
{
}

/// An empty segment that is not the last one can be left out.
pub proof fn lemma_empty_segment_skipped(
    path: Seq<char>,
    before: Seq<Seq<char>>,
    after: Seq<Seq<char>>,
)
    requires
        after.len() > 0,
    ensures
        joined_all(path, before.push(Seq::empty()) + after) == joined_all(path, before + after),
{
    let first = seq![after.first()];
    let rest = after.drop_first();
    let reached = joined_all(path, before);
    assert(before.push(Seq::empty()).drop_last() == before);
    lemma_empty_segment_then_segment(reached, after.first());
    assert(joined_all(joined(reached, Seq::empty()), first) == joined_all(reached, first)) by {
        reveal_with_fuel(joined_all, 2);
    }
    lemma_joined_all_concat(path, before.push(Seq::empty()), first);
    lemma_joined_all_concat(path, before, first);
    lemma_joined_all_concat(path, before.push(Seq::empty()) + first, rest);
    lemma_joined_all_concat(path, before + first, rest);
    assert(before.push(Seq::empty()) + after == (before.push(Seq::empty()) + first) + rest);
    assert(before + after == (before + first) + rest);
}

/// The tokens of a path that was extended by one segment: a named segment
/// becomes the last token, an empty one or `.` leaves the tokens as they are.
/// Only `.` pushed onto the empty path is different: it becomes the leading
/// token.
pub proof fn lemma_tokens_joined(path: Seq<char>, segment: Seq<char>)
    requires
        separator_free(segment),
        path.len() > 0 || !is_current_dir(segment),
    ensures
        path_tokens(joined(path, segment)) == if is_named(segment) {
            path_tokens(path).push(segment)
        } else {
            path_tokens(path)
        },
{
    let parts = segments(path);
    lemma_segments_joined(path, segment);
    lemma_segments_nonempty(path);
    if path.len() == 0 {
        assert(seq![segment].drop_last() == Seq::<Seq<char>>::empty());
        assert(named(seq![segment]) == if is_named(segment) {
            seq![segment]
        } else {
            Seq::empty()
        }) by {
            reveal_with_fuel(named, 2);
        }
        assert(named(parts) == Seq::<Seq<char>>::empty()) by {
            assert(parts.drop_last() == Seq::<Seq<char>>::empty());
        }
    } else if path.last() == SEPARATOR {
        assert(parts.drop_last().push(segment).drop_last() == parts.drop_last());
        assert(parts == segments(path.drop_last()).push(Seq::empty()));
    } else {
        assert(parts.push(segment).drop_last() == parts);
    }
}

/// Named parts are all kept.
pub proof fn lemma_named_of_named(parts: Seq<Seq<char>>)
    requires
        forall|i: int| 0 <= i < parts.len() ==> is_named(#[trigger] parts[i]),
    ensures
        named(parts) == parts,
    decreases parts.len(),
{
    if parts.len() > 0 {
        lemma_named_of_named(parts.drop_last());
    }
}

/// The named parts of two runs are those of the first and then those of the
/// second.
pub proof fn lemma_named_concat(first: Seq<Seq<char>>, second: Seq<Seq<char>>)
    ensures
        named(first + second) == named(first) + named(second),
    decreases second.len(),
{
    if second.len() > 0 {
        lemma_named_concat(first, second.drop_last());
        assert((first + second).drop_last() == first + second.drop_last());
    } else {
        assert(first + second == first);
    }
}

/// The parts behind separators are a separator and then the parts with
/// separators between them.
pub proof fn lemma_slash_joined_interleaved(parts: Seq<Seq<char>>)
    requires
        parts.len() > 0,
    ensures
        slash_joined(parts) == seq![SEPARATOR] + interleaved(parts),
    decreases parts.len(),
{
    if parts.len() > 1 {
        lemma_slash_joined_interleaved(parts.drop_last());
        let head = seq![SEPARATOR] + interleaved(parts.drop_last());
        assert(head.push(SEPARATOR) + parts.last() == seq![SEPARATOR] + (interleaved(
            parts.drop_last(),
        ).push(SEPARATOR) + parts.last()));
    } else {
        reveal_with_fuel(slash_joined, 2);
        assert(Seq::<char>::empty().push(SEPARATOR) + parts.last() == seq![SEPARATOR] + parts[0]);
    }
}

/// The tokens of a path and a remainder behind a separator are the tokens of
/// the path and then the named segments of the remainder.
pub proof fn lemma_tokens_concat(path: Seq<char>, rest: Seq<char>)
    requires
        path.len() > 0,
    ensures
        path_tokens(path.push(SEPARATOR) + rest) == path_tokens(path) + named(segments(rest)),
{
    let whole = path.push(SEPARATOR) + rest;
    lemma_segments_concat(path, rest);
    lemma_segments_nonempty(path);
    lemma_named_concat(segments(path), segments(rest));
    assert(whole[0] == path[0]);
    assert(segments(whole)[0] == segments(path)[0]);
    match leading_token(path) {
        Some(token) => {
            assert(seq![token] + (named(segments(path)) + named(segments(rest))) == (seq![token]
                + named(segments(path))) + named(segments(rest)));
        },
        None => {},
    }
}

/// Every named part is one of the parts.
pub proof fn lemma_named_are_parts(parts: Seq<Seq<char>>)
    ensures
        forall|j: int|
            0 <= j < named(parts).len() ==> exists|i: int|
                0 <= i < parts.len() && parts[i] == #[trigger] named(parts)[j],
    decreases parts.len(),
{
    if parts.len() > 0 {
        let shorter = parts.drop_last();
        lemma_named_are_parts(shorter);
        assert forall|j: int| 0 <= j < named(parts).len() implies exists|i: int|
            0 <= i < parts.len() && parts[i] == #[trigger] named(parts)[j] by {
            if j < named(shorter).len() {
                let i = choose|i: int| 0 <= i < shorter.len() && shorter[i] == named(shorter)[j];
                assert(parts[i] == named(parts)[j]);
            } else {
                assert(parts.last() == named(parts)[j]);
            }
        }
    }
}

/// The tokens of a path that was extended by several segments: those it had
/// and then the named ones among the segments. The empty path extended by a
/// `.` is left out, as that `.` becomes the leading token.
pub proof fn lemma_tokens_joined_all(path: Seq<char>, parts: Seq<Seq<char>>)
    requires
        forall|i: int| 0 <= i < parts.len() ==> separator_free(#[trigger] parts[i]),
        path.len() > 0 || forall|i: int| 0 <= i < parts.len() ==> !is_current_dir(#[trigger] parts[i]),
    ensures
        joined_all(path, parts).len() >= path.len(),
        path_tokens(joined_all(path, parts)) == path_tokens(path) + named(parts),
    decreases parts.len(),
{
    if parts.len() > 0 {
        let shorter = parts.drop_last();
        lemma_tokens_joined_all(path, shorter);
        lemma_tokens_joined(joined_all(path, shorter), parts.last());
    }
}

/// Whether two texts hold the same characters.
pub fn same_text(left: &Vec<char>, right: &Vec<char>) -> (same: bool)
    ensures
        same == (left@ == right@),
{
    if left.len() != right.len() {
        return false;
    }
    let mut i: usize = 0;
    while i < left.len()
        invariant
            left.len() == right.len(),
            i <= left.len(),
            left@.take(i as int) == right@.take(i as int),
        decreases left.len() - i,
    {
        if left[i] != right[i] {
            return false;
        }
        i += 1;
    }
    assert(left@ == left@.take(i as int));
    assert(right@ == right@.take(i as int));
    true
}

/// Cuts `text` at every separator.
pub fn split_segments(text: &Vec<char>) -> (parts: Vec<Vec<char>>)
    ensures
        texts(parts@) == segments(text@),
{
    let mut parts: Vec<Vec<char>> = Vec::new();
    let mut current: Vec<char> = Vec::new();
    let mut i: usize = 0;
    while i < text.len()
        invariant
            i <= text.len(),
            texts(parts@).push(current@) == segments(text@.take(i as int)),
        decreases text.len() - i,
    {
        assert(text@.take(i + 1).drop_last() == text@.take(i as int));
        if text[i] == SEPARATOR {
            parts.push(current);
            current = Vec::new();
        } else {
            current.push(text[i]);
        }
        i += 1;
    }
    assert(text@.take(i as int) == text@);
    parts.push(current);
    parts
}

/// Appends one segment to `path`, with a separator before it where one is
/// needed.
pub fn push_segment(path: &mut Vec<char>, segment: &Vec<char>)
    ensures
        final(path)@ == joined(old(path)@, segment@),
{
    if path.len() > 0 && path[path.len() - 1] != SEPARATOR {
        path.push(SEPARATOR);
    }
    let ghost start = path@;
    let mut i: usize = 0;
    while i < segment.len()
        invariant
            i <= segment.len(),
            path@ == start + segment@.take(i as int),
        decreases segment.len() - i,
    {
        path.push(segment[i]);
        i += 1;
    }
}

/// Splits `path` into its tokens.
pub fn tokenize(path: &Vec<char>) -> (tokens: Vec<Vec<char>>)
    ensures
        texts(tokens@) == path_tokens(path@),
{
    let parts = split_segments(path);
    proof {
        lemma_segments_nonempty(path@);
    }
    let mut tokens: Vec<Vec<char>> = Vec::new();
    if path.len() > 0 && path[0] == SEPARATOR {
        let mut root: Vec<char> = Vec::new();
        root.push(SEPARATOR);
        tokens.push(root);
    } else if parts[0].len() == 1 && parts[0][0] == '.' {
        let mut here: Vec<char> = Vec::new();
        here.push('.');
        tokens.push(here);
    }
    let ghost lead = texts(tokens@);
    let mut i: usize = 0;
    while i < parts.len()
        invariant
            i <= parts.len(),
            texts(parts@) == segments(path@),
            texts(tokens@) == lead + named(segments(path@).take(i as int)),
        decreases parts.len() - i,
    {
        let part = &parts[i];
        let ghost before = texts(tokens@);
        assert(segments(path@).take(i + 1).drop_last() == segments(path@).take(i as int));
        if part.len() > 0 && !(part.len() == 1 && part[0] == '.') {
            tokens.push(part.clone());
            assert(texts(tokens@) == before.push(part@));
        }
        i += 1;
    }
    assert(segments(path@).take(i as int) == segments(path@));
    tokens
}

} // verus!
