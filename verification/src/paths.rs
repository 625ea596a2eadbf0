//! Paths as texts: directories, separators and leading segments.

use vstd::prelude::*;
use crate::text::chars_of;
use crate::text::text_of;

verus! {

/// Whether `c` separates the segments of an include target. A target may
/// be written with either kind of slash.
pub open spec fn is_separator(c: char) -> bool {
    c == '/' || c == '\\'
}

/// The index of the last `c` in `text`, or -1 when `text` holds none.
pub open spec fn last_index_of(text: Seq<char>, c: char) -> int
    decreases text.len(),
{
    if text.len() == 0 {
        -1
    } else if text.last() == c {
        text.len() - 1
    } else {
        last_index_of(text.drop_last(), c)
    }
}

/// `text` without the slashes that it begins with.
pub open spec fn without_leading_slashes(text: Seq<char>) -> Seq<char>
    decreases text.len(),
{
    if text.len() > 0 && text[0] == '/' {
        without_leading_slashes(text.drop_first())
    } else {
        text
    }
}

/// `text` with every backslash replaced by a slash.
pub open spec fn normalized(text: Seq<char>) -> Seq<char> {
    text.map_values(|c: char| if c == '\\' { '/' } else { c })
}

/// `text` as a path from the root of the file system: separators are
/// slashes, and none stands in front.
pub open spec fn relative_path(text: Seq<char>) -> Seq<char> {
    without_leading_slashes(normalized(text))
}

/// `path` without what does not count at its end: slashes, and components
/// that are a single dot. A dot that is the whole first component stays.
pub open spec fn trimmed(path: Seq<char>) -> Seq<char>
    decreases path.len(),
{
    if path.len() > 0 && path.last() == '/' {
        trimmed(path.drop_last())
    } else if path.len() >= 2 && path.last() == '.' && path[path.len() - 2] == '/' {
        trimmed(path.drop_last())
    } else {
        path
    }
}

/// The last component of `path`: what follows the last slash, once the end
/// of the path is trimmed. It is empty for a path without components.
pub open spec fn last_component(path: Seq<char>) -> Seq<char> {
    let whole = trimmed(path);
    whole.skip(last_index_of(whole, '/') + 1)
}

/// The directory that holds the file at `path`, as a path from the root:
/// what stands before the last component of `path`, trimmed at its end and
/// without leading slashes. It is empty when nothing stands before the last
/// component.
pub open spec fn containing_dir(path: Seq<char>) -> Seq<char> {
    let whole = trimmed(path);
    let slash = last_index_of(whole, '/');
    if slash < 0 {
        Seq::empty()
    } else {
        without_leading_slashes(trimmed(whole.take(slash)))
    }
}

/// The first index at or after `from` at which `text` holds a separator,
/// or the length of `text` when no separator follows.
pub open spec fn segment_end(text: Seq<char>, from: int) -> int
    decreases text.len() - from,
{
    if from < 0 || from >= text.len() || is_separator(text[from]) {
        from
    } else {
        segment_end(text, from + 1)
    }
}

/// Whether `target` is written from the virtual root: it begins with a
/// separator.
pub open spec fn is_rooted(target: Seq<char>) -> bool {
    target.len() > 0 && is_separator(target[0])
}

/// The leading segment of a rooted target: what stands between its first
/// separator and the next one.
pub open spec fn leading_segment(target: Seq<char>) -> Seq<char> {
    target.subrange(1, segment_end(target, 1))
}

/// What follows the leading segment of a rooted target. A target that is
/// not rooted has no leading segment, and is returned whole.
pub open spec fn after_leading_segment(target: Seq<char>) -> Seq<char> {
    if is_rooted(target) {
        target.skip(segment_end(target, 1))
    } else {
        target
    }
}

/// Whether `prefix` is the whole leading segment of `target`.
pub open spec fn prefix_matches(prefix: Seq<char>, target: Seq<char>) -> bool {
    is_rooted(target) && leading_segment(target) == prefix
}

/// The extension of the file at `path`: what follows the last dot of its
/// last component. A component without a dot has none, nor has one whose
/// only dot is its first character, nor the component `..`.
pub open spec fn extension(path: Seq<char>) -> Option<Seq<char>> {
    let name = last_component(path);
    let dot = last_index_of(name, '.');
    if dot <= 0 || name == seq!['.', '.'] {
        None
    } else {
        Some(name.skip(dot + 1))
    }
}

/// Trimming takes from the end of a path only, and leaves a path that ends
/// neither in a slash nor in a component that is a single dot.
pub proof fn law_trimmed(path: Seq<char>)
    ensures
        trimmed(path).len() <= path.len(),
        trimmed(path) == path.take(trimmed(path).len() as int),
        trimmed(path).len() > 0 ==> trimmed(path).last() != '/',
        trimmed(path).len() >= 2 && trimmed(path).last() == '.' ==> trimmed(path)[trimmed(
            path,
        ).len() - 2] != '/',
        trimmed(trimmed(path)) == trimmed(path),
    decreases path.len(),
{
    if path.len() > 0 && (path.last() == '/' || (path.len() >= 2 && path.last() == '.'
        && path[path.len() - 2] == '/')) {
        law_trimmed(path.drop_last());
        let rest = trimmed(path.drop_last());
        assert(path.drop_last().take(rest.len() as int) =~= path.take(rest.len() as int));
    } else {
        assert(path.take(path.len() as int) =~= path);
    }
}

/// At most one text is the leading segment of a target: a prefix that is
/// only the beginning of the segment, or that goes on after it, does not
/// match.
pub proof fn law_match_is_exact(first: Seq<char>, second: Seq<char>, target: Seq<char>)
    requires
        prefix_matches(first, target),
        prefix_matches(second, target),
    ensures
        first == second,
{
}

/// The segment that begins at `from` holds no separator, and ends at one or
/// at the end of the text.
proof fn lemma_segment_end(text: Seq<char>, from: int)
    requires
        0 <= from <= text.len(),
    ensures
        from <= segment_end(text, from) <= text.len(),
        segment_end(text, from) < text.len() ==> is_separator(text[segment_end(text, from)]),
        forall|i: int| from <= i < segment_end(text, from) ==> !is_separator(#[trigger] text[i]),
    decreases text.len() - from,
{
    if from < text.len() && !is_separator(text[from]) {
        lemma_segment_end(text, from + 1);
    }
}

/// The leading segment of a rooted target is a whole segment: it holds no
/// separator, and what follows it is empty or begins with one.
pub proof fn law_leading_segment_is_whole(target: Seq<char>)
    requires
        is_rooted(target),
    ensures
        forall|i: int|
            0 <= i < leading_segment(target).len() ==> !is_separator(
                #[trigger] leading_segment(target)[i],
            ),
        after_leading_segment(target).len() > 0 ==> is_separator(after_leading_segment(target)[0]),
        target == seq![target[0]] + leading_segment(target) + after_leading_segment(target),
{
    lemma_segment_end(target, 1);
    assert(target =~= seq![target[0]] + leading_segment(target) + after_leading_segment(target));
}

/// The last occurrence of a character is an occurrence, and none follows
/// it; -1 stands for a text without any.
pub proof fn law_last_index_of(text: Seq<char>, c: char)
    ensures
        -1 <= last_index_of(text, c) < text.len(),
        last_index_of(text, c) >= 0 ==> text[last_index_of(text, c)] == c,
        forall|i: int| last_index_of(text, c) < i < text.len() ==> #[trigger] text[i] != c,
    decreases text.len(),
{
    if text.len() > 0 && text.last() != c {
        law_last_index_of(text.drop_last(), c);
        assert forall|i: int| last_index_of(text, c) < i < text.len() implies #[trigger] text[i]
            != c by {
            if i < text.len() - 1 {
                assert(text.drop_last()[i] == text[i]);
            }
        }
    }
}

/// Removing leading slashes leaves the end of the text.
proof fn lemma_without_leading_slashes(text: Seq<char>)
    ensures
        without_leading_slashes(text).len() <= text.len(),
        without_leading_slashes(text) == text.skip(
            text.len() - without_leading_slashes(text).len(),
        ),
        without_leading_slashes(text).len() > 0 ==> without_leading_slashes(text)[0] != '/',
    decreases text.len(),
{
    if text.len() > 0 && text[0] == '/' {
        lemma_without_leading_slashes(text.drop_first());
        let rest = without_leading_slashes(text.drop_first());
        assert(text.drop_first().skip(text.drop_first().len() - rest.len()) =~= text.skip(
            text.len() - rest.len(),
        ));
    } else {
        assert(text.skip(0) =~= text);
    }
}

/// A path from the root is written in the convention of the file system:
/// it holds no backslash, and no slash stands in front.
pub proof fn law_relative_path_is_normal(text: Seq<char>)
    ensures
        forall|i: int| 0 <= i < relative_path(text).len() ==> relative_path(text)[i] != '\\',
        relative_path(text).len() > 0 ==> relative_path(text)[0] != '/',
        relative_path(relative_path(text)) == relative_path(text),
{
    let slashed = normalized(text);
    let path = relative_path(text);
    lemma_without_leading_slashes(slashed);
    assert forall|i: int| 0 <= i < path.len() implies path[i] != '\\' by {
        assert(path[i] == slashed[i + (slashed.len() - path.len())]);
    }
    assert(normalized(path) =~= path);
    lemma_without_leading_slashes(path);
}

/// The index of the last `c` in `chars[..end]`, if there is one.
fn find_last(chars: &Vec<char>, end: usize, c: char) -> (found: Option<usize>)
    requires
        end <= chars.len(),
    ensures
        match found {
            Some(at) => at < end && at == last_index_of(chars@.take(end as int), c),
            None => last_index_of(chars@.take(end as int), c) == -1,
        },
{
    let mut at: usize = end;
    while at > 0
        invariant
            at <= end <= chars.len(),
            last_index_of(chars@.take(end as int), c) == last_index_of(chars@.take(at as int), c),
        decreases at,
    {
        if chars[at - 1] == c {
            return Some(at - 1);
        }
        assert(chars@.take(at as int).drop_last() =~= chars@.take(at - 1));
        at -= 1;
    }
    None
}

/// The length of `chars[..end]` once its end is trimmed.
fn trim_end(chars: &Vec<char>, end: usize) -> (kept: usize)
    requires
        end <= chars.len(),
    ensures
        kept <= end,
        trimmed(chars@.take(end as int)) == chars@.take(kept as int),
{
    let mut kept: usize = end;
    while kept > 0 && (chars[kept - 1] == '/' || (kept >= 2 && chars[kept - 1] == '.' && chars[kept
        - 2] == '/'))
        invariant
            kept <= end <= chars.len(),
            trimmed(chars@.take(end as int)) == trimmed(chars@.take(kept as int)),
        decreases kept,
    {
        assert(chars@.take(kept as int).drop_last() =~= chars@.take(kept - 1));
        kept -= 1;
    }
    kept
}

/// The number of slashes that `chars[from..]` begins with, added to `from`.
fn skip_slashes(chars: &Vec<char>, from: usize, end: usize) -> (at: usize)
    requires
        from <= end <= chars.len(),
    ensures
        from <= at <= end,
        without_leading_slashes(chars@.subrange(from as int, end as int)) == chars@.subrange(
            at as int,
            end as int,
        ),
{
    let mut at: usize = from;
    while at < end && chars[at] == '/'
        invariant
            from <= at <= end <= chars.len(),
            without_leading_slashes(chars@.subrange(from as int, end as int))
                == without_leading_slashes(chars@.subrange(at as int, end as int)),
        decreases end - at,
    {
        assert(chars@.subrange(at as int, end as int).drop_first() =~= chars@.subrange(
            at + 1,
            end as int,
        ));
        at += 1;
    }
    at
}

/// The end of the segment of `chars` that begins at `from`.
fn find_segment_end(chars: &Vec<char>, from: usize) -> (end: usize)
    requires
        from <= chars.len(),
    ensures
        from <= end <= chars.len(),
        end == segment_end(chars@, from as int),
{
    let mut end: usize = from;
    while end < chars.len() && chars[end] != '/' && chars[end] != '\\'
        invariant
            from <= end <= chars.len(),
            segment_end(chars@, from as int) == segment_end(chars@, end as int),
        decreases chars.len() - end,
    {
        end += 1;
    }
    end
}

/// The characters `chars[from..to]`.
fn part_of(chars: &Vec<char>, from: usize, to: usize) -> (part: Vec<char>)
    requires
        from <= to <= chars.len(),
    ensures
        part@ == chars@.subrange(from as int, to as int),
{
    let mut part: Vec<char> = Vec::new();
    let mut at: usize = from;
    while at < to
        invariant
            from <= at <= to <= chars.len(),
            part@ == chars@.subrange(from as int, at as int),
        decreases to - at,
    {
        part.push(chars[at]);
        at += 1;
    }
    part
}

/// The characters of `chars` with every backslash replaced by a slash.
fn normalize(chars: &Vec<char>) -> (out: Vec<char>)
    ensures
        out@ == normalized(chars@),
{
    let mut out: Vec<char> = Vec::new();
    let mut at: usize = 0;
    while at < chars.len()
        invariant
            at <= chars.len(),
            out@ == normalized(chars@.take(at as int)),
        decreases chars.len() - at,
    {
        let c = chars[at];
        out.push(if c == '\\' { '/' } else { c });
        at += 1;
        assert(normalized(chars@.take(at as int)) =~= normalized(chars@.take(at - 1)).push(
            if c == '\\' { '/' } else { c },
        ));
    }
    assert(chars@.take(chars.len() as int) =~= chars@);
    out
}

/// Rewrites `text` as a path from the root of the file system.
pub fn to_relative(text: &str) -> (path: String)
    ensures
        path@ == relative_path(text@),
{
    let chars = normalize(&chars_of(text));
    assert(chars@.subrange(0, chars.len() as int) =~= chars@);
    let at: usize = skip_slashes(&chars, 0, chars.len());
    text_of(&chars, at, chars.len())
}

/// The directory that holds the file at `path`, as a path from the root.
pub fn parent_of(path: &str) -> (dir: String)
    ensures
        dir@ == containing_dir(path@),
{
    let chars = chars_of(path);
    let end: usize = trim_end(&chars, chars.len());
    assert(chars@.take(chars.len() as int) =~= chars@);
    match find_last(&chars, end, '/') {
        Some(slash) => {
            assert(chars@.take(end as int).take(slash as int) =~= chars@.take(slash as int));
            let kept: usize = trim_end(&chars, slash);
            assert(chars@.subrange(0, kept as int) =~= chars@.take(kept as int));
            let at: usize = skip_slashes(&chars, 0, kept);
            text_of(&chars, at, kept)
        },
        None => String::new(),
    }
}

/// The extension of the file at `path`, if it has one.
pub fn extension_of(path: &str) -> (found: Option<String>)
    ensures
        match extension(path@) {
            Some(text) => found matches Some(ext) && ext@ == text,
            None => found is None,
        },
{
    let chars = chars_of(path);
    let end: usize = trim_end(&chars, chars.len());
    assert(chars@.take(chars.len() as int) =~= chars@);
    let start: usize = match find_last(&chars, end, '/') {
        Some(slash) => slash + 1,
        None => 0,
    };
    let name = part_of(&chars, start, end);
    assert(name@ =~= last_component(path@));
    assert(name@.take(name.len() as int) =~= name@);
    if name.len() == 2 && name[0] == '.' && name[1] == '.' {
        assert(name@ =~= seq!['.', '.']);
        return None;
    }
    match find_last(&name, name.len(), '.') {
        Some(dot) => {
            if dot == 0 {
                None
            } else {
                assert(name@.subrange(dot + 1, name.len() as int) =~= name@.skip(dot + 1));
                Some(text_of(&name, dot + 1, name.len()))
            }
        },
        None => None,
    }
}

/// Whether `prefix` is the whole leading segment of `target`: a prefix that
/// is only the beginning of that segment does not match.
pub fn matches_prefix(prefix: &str, target: &str) -> (matches: bool)
    ensures
        matches == prefix_matches(prefix@, target@),
{
    let chars = chars_of(target);
    if chars.len() == 0 || (chars[0] != '/' && chars[0] != '\\') {
        return false;
    }
    let end: usize = find_segment_end(&chars, 1);
    let wanted = chars_of(prefix);
    if wanted.len() != end - 1 {
        assert(leading_segment(target@).len() != prefix@.len());
        return false;
    }
    let mut at: usize = 0;
    while at < wanted.len()
        invariant
            at <= wanted.len(),
            wanted.len() == end - 1,
            1 <= end <= chars.len(),
            end == segment_end(chars@, 1),
            chars@ == target@,
            wanted@ == prefix@,
            forall|i: int| 0 <= i < at ==> wanted@[i] == chars@[i + 1],
        decreases wanted.len() - at,
    {
        if wanted[at] != chars[at + 1] {
            assert(leading_segment(target@)[at as int] != prefix@[at as int]);
            return false;
        }
        at += 1;
    }
    assert(leading_segment(target@) =~= prefix@);
    true
}

/// What follows the leading segment of a rooted target, as a path from the
/// directory that the segment stands for.
pub fn rest_of(target: &str) -> (rest: String)
    ensures
        rest@ == relative_path(after_leading_segment(target@)),
{
    let chars = chars_of(target);
    if chars.len() == 0 || (chars[0] != '/' && chars[0] != '\\') {
        return to_relative(target);
    }
    let end: usize = find_segment_end(&chars, 1);
    let tail = text_of(&chars, end, chars.len());
    assert(chars@.subrange(end as int, chars.len() as int) =~= chars@.skip(end as int));
    to_relative(tail.as_str())
}

} // verus!
