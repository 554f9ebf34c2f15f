//! File paths as text, read by their components.
//!
//! Separators are slashes. Repeated separators and `.` components carry no
//! meaning, except for a `.` that the path starts with.

use vstd::prelude::*;

use crate::split::{
    just, lemma_span_before, lemma_split_at_separator, lemma_split_by_nonempty, span_before,
    split_by, split_text, texts,
};
use crate::text::{chars_of, concat2, concat3, same_text};

verus! {

/// `path` starts at the root directory.
pub open spec fn is_absolute(path: Seq<char>) -> bool {
    path.len() > 0 && path[0] == '/'
}

/// Whether `path` starts at the root directory.
pub fn path_is_absolute(path: &str) -> (absolute: bool)
    ensures
        absolute == is_absolute(path@),
{
    let characters = chars_of(path);
    characters.len() > 0 && characters[0] == '/'
}

/// The piece at `index` between separators is a component.
pub open spec fn is_component(pieces: Seq<Seq<char>>, index: int) -> bool {
    pieces[index].len() > 0 && (index == 0 || pieces[index] != "."@)
}

/// The components among the first `count` pieces.
pub open spec fn components_of(pieces: Seq<Seq<char>>, count: int) -> Seq<Seq<char>>
    decreases count,
{
    if count <= 0 {
        seq![]
    } else if is_component(pieces, count - 1) {
        components_of(pieces, count - 1).push(pieces[count - 1])
    } else {
        components_of(pieces, count - 1)
    }
}

/// The components of `path`. The root directory of an absolute path is its
/// first component and is written `/`.
pub open spec fn components(path: Seq<char>) -> Seq<Seq<char>> {
    let pieces = split_by(path, '/');
    let names = components_of(pieces, pieces.len() as int);
    if is_absolute(path) {
        seq!["/"@] + names
    } else {
        names
    }
}

/// The component names an entry: it is none of `/`, `.` and `..`.
pub open spec fn is_normal(component: Seq<char>) -> bool {
    component != "/"@ && component != "."@ && component != ".."@
}

fn component_at(pieces: &Vec<String>, index: usize) -> (found: bool)
    requires
        index < pieces@.len(),
    ensures
        found == is_component(texts(pieces@), index as int),
{
    assert(texts(pieces@)[index as int] == pieces@[index as int]@);
    !pieces[index].as_str().is_empty() && (index == 0 || !same_text(pieces[index].as_str(), "."))
}

/// The components of `path`.
pub fn path_components(path: &str) -> (parts: Vec<String>)
    ensures
        texts(parts@) == components(path@),
{
    let pieces = split_text(path, '/');
    let mut parts: Vec<String> = Vec::new();
    let absolute = path_is_absolute(path);
    let ghost lead = if absolute {
        seq!["/"@]
    } else {
        Seq::<Seq<char>>::empty()
    };
    if absolute {
        parts.push("/".to_owned());
    }
    assert(texts(parts@) =~= lead + components_of(texts(pieces@), 0));
    let mut index: usize = 0;
    while index < pieces.len()
        invariant
            index <= pieces@.len(),
            texts(parts@) == lead + components_of(texts(pieces@), index as int),
        decreases pieces@.len() - index,
    {
        if component_at(&pieces, index) {
            let ghost before = parts@;
            parts.push(pieces[index].clone());
            assert(texts(parts@) =~= texts(before).push(pieces@[index as int]@));
            assert(texts(parts@) =~= lead + components_of(texts(pieces@), index + 1));
        }
        index = index + 1;
    }
    assert(Seq::<Seq<char>>::empty() + components_of(texts(pieces@), pieces@.len() as int)
        =~= components_of(texts(pieces@), pieces@.len() as int));
    parts
}

/// The components of `prefix` are the first components of `path`.
pub open spec fn begins_with(path: Seq<char>, prefix: Seq<char>) -> bool {
    let all = components(path);
    let first = components(prefix);
    first.len() <= all.len() && all.take(first.len() as int) == first
}

fn same_prefix(parts: &Vec<String>, prefix: &Vec<String>) -> (found: bool)
    ensures
        found <==> prefix@.len() <= parts@.len() && texts(parts@).take(prefix@.len() as int)
            == texts(prefix@),
{
    if prefix.len() > parts.len() {
        return false;
    }
    let mut index: usize = 0;
    while index < prefix.len()
        invariant
            prefix@.len() <= parts@.len(),
            index <= prefix@.len(),
            forall|i: int| 0 <= i < index ==> texts(parts@)[i] == texts(prefix@)[i],
        decreases prefix@.len() - index,
    {
        if !same_text(parts[index].as_str(), prefix[index].as_str()) {
            proof {
                assert(texts(parts@).take(prefix@.len() as int)[index as int]
                    == parts@[index as int]@);
                assert(texts(prefix@)[index as int] == prefix@[index as int]@);
            }
            return false;
        }
        index = index + 1;
    }
    assert(texts(parts@).take(prefix@.len() as int) =~= texts(prefix@));
    true
}

/// Whether the components of `path` begin with those of `prefix`.
pub fn path_starts_with(path: &str, prefix: &str) -> (found: bool)
    ensures
        found == begins_with(path@, prefix@),
{
    let parts = path_components(path);
    let first = path_components(prefix);
    assert(texts(parts@).len() == parts@.len());
    assert(texts(first@).len() == first@.len());
    same_prefix(&parts, &first)
}

/// Two paths with the same components.
pub open spec fn same_path(left: Seq<char>, right: Seq<char>) -> bool {
    components(left) == components(right)
}

/// Whether two paths have the same components.
pub fn paths_equal(left: &str, right: &str) -> (same: bool)
    ensures
        same == same_path(left@, right@),
{
    let a = path_components(left);
    let b = path_components(right);
    assert(texts(a@).len() == a@.len());
    assert(texts(b@).len() == b@.len());
    let same = a.len() == b.len() && same_prefix(&a, &b);
    proof {
        if a@.len() == b@.len() {
            assert(texts(a@).take(b@.len() as int) =~= texts(a@));
        }
    }
    same
}

/// Every component names an entry below the place that the path starts from.
pub open spec fn all_normal(path: Seq<char>) -> bool {
    forall|i: int| 0 <= i < components(path).len() ==> is_normal(#[trigger] components(path)[i])
}

/// Whether every component of `path` names an entry.
pub fn path_is_normal(path: &str) -> (normal: bool)
    ensures
        normal == all_normal(path@),
{
    let parts = path_components(path);
    let mut index: usize = 0;
    while index < parts.len()
        invariant
            texts(parts@) == components(path@),
            index <= parts@.len(),
            forall|i: int| 0 <= i < index ==> is_normal(#[trigger] components(path@)[i]),
        decreases parts@.len() - index,
    {
        let part = parts[index].as_str();
        assert(components(path@)[index as int] == part@);
        if same_text(part, "/") || same_text(part, ".") || same_text(part, "..") {
            return false;
        }
        index = index + 1;
    }
    assert(texts(parts@).len() == parts@.len());
    true
}

/// Some component of `path` is `..`.
pub open spec fn climbs(path: Seq<char>) -> bool {
    exists|i: int| 0 <= i < components(path).len() && #[trigger] components(path)[i] == ".."@
}

/// Whether some component of `path` is `..`.
pub fn path_climbs(path: &str) -> (found: bool)
    ensures
        found == climbs(path@),
{
    let parts = path_components(path);
    let mut index: usize = 0;
    while index < parts.len()
        invariant
            texts(parts@) == components(path@),
            index <= parts@.len(),
            forall|i: int| 0 <= i < index ==> #[trigger] components(path@)[i] != ".."@,
        decreases parts@.len() - index,
    {
        assert(components(path@)[index as int] == parts@[index as int]@);
        if same_text(parts[index].as_str(), "..") {
            return true;
        }
        index = index + 1;
    }
    assert(texts(parts@).len() == parts@.len());
    false
}

/// `segment` below `base`.
pub open spec fn joined(base: Seq<char>, segment: Seq<char>) -> Seq<char> {
    if is_absolute(segment) {
        segment
    } else if base.len() == 0 || base.last() == '/' {
        base + segment
    } else {
        base + "/"@ + segment
    }
}

/// `segment` below `base`.
pub fn join_path(base: &str, segment: &str) -> (path: String)
    ensures
        path@ == joined(base@, segment@),
{
    if path_is_absolute(segment) {
        return segment.to_owned();
    }
    let characters = chars_of(base);
    if characters.len() == 0 || characters[characters.len() - 1] == '/' {
        concat2(base, segment)
    } else {
        concat3(base, "/", segment)
    }
}

proof fn lemma_components_of_prefix(pieces: Seq<Seq<char>>, more: Seq<Seq<char>>, count: int)
    requires
        0 <= count <= pieces.len(),
    ensures
        components_of(pieces + more, count) == components_of(pieces, count),
    decreases count,
{
    if count > 0 {
        lemma_components_of_prefix(pieces, more, count - 1);
        assert((pieces + more)[count - 1] == pieces[count - 1]);
    }
}

proof fn lemma_components_of_concat(pieces: Seq<Seq<char>>, more: Seq<Seq<char>>, count: int)
    requires
        pieces.len() > 0,
        0 <= count <= more.len(),
        more.len() > 0 ==> more[0] != "."@,
    ensures
        components_of(pieces + more, pieces.len() + count) == components_of(
            pieces,
            pieces.len() as int,
        ) + components_of(more, count),
    decreases count,
{
    if count == 0 {
        lemma_components_of_prefix(pieces, more, pieces.len() as int);
        assert(components_of(pieces, pieces.len() as int) + components_of(more, 0)
            =~= components_of(pieces, pieces.len() as int));
    } else {
        lemma_components_of_concat(pieces, more, count - 1);
        assert((pieces + more)[pieces.len() + count - 1] == more[count - 1]);
        assert(components_of(pieces + more, pieces.len() + count) =~= components_of(
            pieces,
            pieces.len() as int,
        ) + components_of(more, count));
    }
}

proof fn lemma_leading_dot_stays(pieces: Seq<Seq<char>>, count: int)
    requires
        1 <= count <= pieces.len(),
        pieces[0] == "."@,
    ensures
        components_of(pieces, count).len() > 0,
        components_of(pieces, count)[0] == "."@,
    decreases count,
{
    reveal_strlit(".");
    if count > 1 {
        lemma_leading_dot_stays(pieces, count - 1);
    } else {
        reveal_with_fuel(components_of, 2);
    }
}

/// A single entry below a path adds its one component to those of the path.
pub proof fn lemma_components_joined(base: Seq<char>, segment: Seq<char>)
    requires
        components(segment).len() == 1,
        is_normal(components(segment)[0]),
    ensures
        components(joined(base, segment)) == components(base) + components(segment),
{
    let more = split_by(segment, '/');
    lemma_split_by_nonempty(segment, '/');
    assert(!is_absolute(segment)) by {
        if is_absolute(segment) {
            assert(components(segment)[0] == "/"@);
        }
    }
    assert(more[0] != "."@) by {
        if more[0] == "."@ {
            lemma_leading_dot_stays(more, more.len() as int);
        }
    }
    reveal_strlit("/");
    let path = joined(base, segment);
    if base.len() == 0 {
        lemma_no_components();
        assert(base =~= Seq::<char>::empty());
        assert(path =~= segment);
        assert(components(base) + components(segment) =~= components(segment));
    } else {
        let ends = base.last() == '/';
        let before = if ends {
            base.drop_last()
        } else {
            base
        };
        assert(path =~= before + seq!['/'] + segment);
        lemma_split_at_separator(before, segment, '/');
        let pieces = split_by(before, '/');
        lemma_split_by_nonempty(before, '/');
        lemma_components_of_concat(pieces, more, more.len() as int);
        assert(path[0] == base[0]);
        assert(components_of(split_by(base, '/'), split_by(base, '/').len() as int)
            == components_of(pieces, pieces.len() as int)) by {
            if ends {
                let empty = Seq::<char>::empty();
                assert(base =~= before + seq!['/'] + empty);
                lemma_split_at_separator(before, empty, '/');
                assert(split_by(empty, '/') =~= seq![empty]);
                reveal_strlit(".");
                lemma_components_of_concat(pieces, seq![empty], 1);
                assert(components_of(seq![empty], 1) =~= seq![]) by {
                    reveal_with_fuel(components_of, 2);
                }
                assert(components_of(pieces, pieces.len() as int) + Seq::<Seq<char>>::empty()
                    =~= components_of(pieces, pieces.len() as int));
            }
        }
        assert(components(path) =~= components(base) + components(segment));
    }
}

/// The empty path has no components.
proof fn lemma_no_components()
    ensures
        components(Seq::<char>::empty()) == Seq::<Seq<char>>::empty(),
{
    let empty = Seq::<char>::empty();
    assert(split_by(empty, '/') =~= seq![empty]);
    reveal_with_fuel(components_of, 2);
}

/// The last component among the first `count` pieces, or -1.
pub open spec fn last_component(pieces: Seq<Seq<char>>, count: int) -> int
    decreases count,
{
    if count <= 0 {
        -1
    } else if is_component(pieces, count - 1) {
        count - 1
    } else {
        last_component(pieces, count - 1)
    }
}

/// The pieces with separators between them.
pub open spec fn rejoined(pieces: Seq<Seq<char>>) -> Seq<char>
    decreases pieces.len(),
{
    if pieces.len() == 0 {
        seq![]
    } else if pieces.len() == 1 {
        pieces[0]
    } else {
        rejoined(pieces.drop_last()) + "/"@ + pieces.last()
    }
}

/// The path without its last component. The root directory and the empty path
/// have no parent.
pub open spec fn parent(path: Seq<char>) -> Option<Seq<char>> {
    let pieces = split_by(path, '/');
    let last = last_component(pieces, pieces.len() as int);
    if last < 0 {
        None
    } else {
        let before = last_component(pieces, last);
        if before >= 0 {
            Some(rejoined(pieces.take(before + 1)))
        } else if is_absolute(path) {
            Some("/"@)
        } else {
            Some(Seq::empty())
        }
    }
}

fn find_last_component(pieces: &Vec<String>, count: usize) -> (found: Option<usize>)
    requires
        count <= pieces@.len(),
    ensures
        match found {
            Some(index) => index == last_component(texts(pieces@), count as int) && index < count,
            None => last_component(texts(pieces@), count as int) == -1,
        },
{
    let mut left: usize = count;
    while left > 0
        invariant
            left <= count <= pieces@.len(),
            last_component(texts(pieces@), left as int) == last_component(
                texts(pieces@),
                count as int,
            ),
        decreases left,
    {
        if component_at(pieces, left - 1) {
            return Some(left - 1);
        }
        left = left - 1;
    }
    None
}

fn rejoin(pieces: &Vec<String>, count: usize) -> (path: String)
    requires
        1 <= count <= pieces@.len(),
    ensures
        path@ == rejoined(texts(pieces@).take(count as int)),
{
    let mut path = pieces[0].clone();
    let mut index: usize = 1;
    assert(path@ == rejoined(texts(pieces@).take(1)));
    while index < count
        invariant
            1 <= index <= count <= pieces@.len(),
            path@ == rejoined(texts(pieces@).take(index as int)),
        decreases count - index,
    {
        path.append("/");
        path.append(pieces[index].as_str());
        proof {
            let next = texts(pieces@).take(index + 1);
            assert(next.drop_last() =~= texts(pieces@).take(index as int));
            assert(next.last() == pieces@[index as int]@);
        }
        index = index + 1;
    }
    path
}

/// The path without its last component.
pub fn path_parent(path: &str) -> (result: Option<String>)
    ensures
        match (result, parent(path@)) {
            (Some(text), Some(expected)) => text@ == expected,
            (None, None) => true,
            _ => false,
        },
{
    let pieces = split_text(path, '/');
    assert(texts(pieces@).len() == pieces@.len());
    match find_last_component(&pieces, pieces.len()) {
        None => None,
        Some(last) => match find_last_component(&pieces, last) {
            Some(before) => Some(rejoin(&pieces, before + 1)),
            None => {
                if path_is_absolute(path) {
                    Some("/".to_owned())
                } else {
                    Some(String::new())
                }
            },
        },
    }
}

proof fn lemma_pieces_hold_no_separator(text: Seq<char>)
    ensures
        forall|i: int|
            0 <= i < split_by(text, '/').len() ==> !(#[trigger] split_by(text, '/')[i]).contains(
                '/',
            ),
    decreases text.len(),
{
    let at = span_before(text, just('/')) as int;
    lemma_span_before(text, just('/'));
    if at < text.len() {
        let rest = split_by(text.skip(at + 1), '/');
        lemma_pieces_hold_no_separator(text.skip(at + 1));
        assert forall|i: int| 0 <= i < split_by(text, '/').len() implies !(#[trigger] split_by(
            text,
            '/',
        )[i]).contains('/') by {
            if i == 0 {
                assert(split_by(text, '/')[0] == text.take(at));
                assert forall|k: int| 0 <= k < at implies #[trigger] text.take(at)[k] != '/' by {
                    assert(!just('/')(text[k]));
                }
            } else {
                assert(split_by(text, '/')[i] == rest[i - 1]);
            }
        }
    } else {
        assert forall|k: int| 0 <= k < text.len() implies #[trigger] text[k] != '/' by {
            assert(!just('/')(text[k]));
        }
    }
}

proof fn lemma_rejoined_splits(pieces: Seq<Seq<char>>)
    requires
        pieces.len() > 0,
        forall|i: int| 0 <= i < pieces.len() ==> !(#[trigger] pieces[i]).contains('/'),
    ensures
        split_by(rejoined(pieces), '/') == pieces,
    decreases pieces.len(),
{
    let last = pieces.last();
    assert(!pieces[pieces.len() - 1].contains('/'));
    assert(split_by(last, '/') =~= seq![last]) by {
        lemma_span_before(last, just('/'));
        let at = span_before(last, just('/')) as int;
        if at < last.len() {
            assert(last[at] == '/');
        }
    }
    if pieces.len() == 1 {
        assert(pieces =~= seq![last]);
    } else {
        let before = pieces.drop_last();
        assert forall|i: int| 0 <= i < before.len() implies !(#[trigger] before[i]).contains(
            '/',
        ) by {
            assert(before[i] == pieces[i]);
        }
        lemma_rejoined_splits(before);
        reveal_strlit("/");
        assert("/"@ =~= seq!['/']);
        lemma_split_at_separator(rejoined(before), last, '/');
        assert(before + seq![last] =~= pieces);
    }
}

proof fn lemma_no_component_after(pieces: Seq<Seq<char>>, count: int)
    requires
        0 <= count <= pieces.len(),
    ensures
        -1 <= last_component(pieces, count) < count,
        components_of(pieces, last_component(pieces, count) + 1) == components_of(pieces, count),
        last_component(pieces, count) >= 0 ==> is_component(pieces, last_component(pieces, count)),
        last_component(pieces, count) < 0 ==> components_of(pieces, count).len() == 0,
    decreases count,
{
    if count > 0 && !is_component(pieces, count - 1) {
        lemma_no_component_after(pieces, count - 1);
    }
}

/// The parent has the components of the path but the last one.
pub proof fn lemma_parent_components(path: Seq<char>)
    requires
        parent(path) is Some,
    ensures
        components(path).len() > 0,
        components(parent(path)->0) == components(path).drop_last(),
{
    let pieces = split_by(path, '/');
    let count = pieces.len() as int;
    let last = last_component(pieces, count);
    let before = last_component(pieces, last);
    lemma_split_by_nonempty(path, '/');
    lemma_no_component_after(pieces, count);
    lemma_no_component_after(pieces, last);
    let names = components_of(pieces, last);
    assert(components_of(pieces, count) == names.push(pieces[last]));
    let lead: Seq<Seq<char>> = if is_absolute(path) {
        seq!["/"@]
    } else {
        seq![]
    };
    assert(components(path) =~= lead + names.push(pieces[last]));
    assert(components(path).drop_last() =~= lead + names);
    reveal_strlit("/");
    if before >= 0 {
        let kept = pieces.take(before + 1);
        lemma_pieces_hold_no_separator(path);
        assert forall|i: int| 0 <= i < kept.len() implies !(#[trigger] kept[i]).contains('/') by {
            assert(kept[i] == pieces[i]);
        }
        lemma_rejoined_splits(kept);
        let found = rejoined(kept);
        let rest = pieces.skip(before + 1);
        lemma_components_of_prefix(kept, rest, before + 1);
        assert(kept + rest =~= pieces);
        lemma_first_piece(path);
        lemma_first_piece(found);
        assert(kept[0] == pieces[0]);
        if is_absolute(path) && before == 0 {
            assert(pieces[0].len() == 0);
        }
        assert(components(found) =~= lead + names);
    } else {
        assert(names =~= seq![]);
        if is_absolute(path) {
            let root = "/"@;
            assert(root =~= Seq::<char>::empty() + seq!['/'] + Seq::<char>::empty());
            lemma_split_at_separator(Seq::empty(), Seq::empty(), '/');
            lemma_no_components();
            let empty = Seq::<char>::empty();
            assert(split_by(empty, '/') =~= seq![empty]);
            assert(split_by(root, '/') =~= seq![empty, empty]);
            reveal_with_fuel(components_of, 3);
            assert(components(root) =~= seq!["/"@]);
        } else {
            lemma_no_components();
        }
    }
}

/// A path is absolute where a separator comes first.
proof fn lemma_first_piece(path: Seq<char>)
    ensures
        split_by(path, '/').len() > 0,
        is_absolute(path) <==> split_by(path, '/').len() > 1 && split_by(path, '/')[0].len() == 0,
{
    let at = span_before(path, just('/')) as int;
    lemma_span_before(path, just('/'));
    if at < path.len() {
        lemma_split_by_nonempty(path.skip(at + 1), '/');
        assert(split_by(path, '/')[0] == path.take(at));
        assert(path[at] == '/');
        if is_absolute(path) && at > 0 {
            assert(just('/')(path[0]));
        }
    } else if is_absolute(path) {
        assert(just('/')(path[0]));
    }
}

/// A segment without separators is its own component.
pub proof fn lemma_plain_segment(segment: Seq<char>)
    requires
        segment.len() > 0,
        !segment.contains('/'),
    ensures
        components(segment) == seq![segment],
{
    let pieces = seq![segment];
    assert forall|i: int| 0 <= i < pieces.len() implies !(#[trigger] pieces[i]).contains('/') by {}
    lemma_rejoined_splits(pieces);
    reveal_with_fuel(components_of, 2);
    if is_absolute(segment) {
        assert(segment.contains(segment[0]));
    }
    assert(components(segment) =~= seq![segment]);
}

proof fn lemma_some_component(path: Seq<char>)
    requires
        path.len() > 0,
    ensures
        components(path).len() > 0,
{
    if !is_absolute(path) {
        let pieces = split_by(path, '/');
        let at = span_before(path, just('/')) as int;
        lemma_span_before(path, just('/'));
        lemma_split_by_nonempty(path, '/');
        if at < path.len() {
            assert(pieces[0] == path.take(at));
            if at == 0 {
                assert(path[0] == '/');
            }
        }
        assert(is_component(pieces, 0));
        lemma_first_component_stays(pieces, pieces.len() as int);
    }
}

proof fn lemma_first_component_stays(pieces: Seq<Seq<char>>, count: int)
    requires
        1 <= count <= pieces.len(),
        is_component(pieces, 0),
    ensures
        components_of(pieces, count).len() > 0,
    decreases count,
{
    if count > 1 {
        lemma_first_component_stays(pieces, count - 1);
    }
}

/// A single entry below a path has that path for a parent.
pub proof fn lemma_parent_of_joined(base: Seq<char>, segment: Seq<char>)
    requires
        base.len() > 0,
        components(segment).len() == 1,
        is_normal(components(segment)[0]),
    ensures
        parent(joined(base, segment)) matches Some(found) && found.len() > 0 && same_path(
            found,
            base,
        ),
{
    let path = joined(base, segment);
    let pieces = split_by(path, '/');
    lemma_components_joined(base, segment);
    lemma_some_component(base);
    lemma_no_component_after(pieces, pieces.len() as int);
    assert(components(path).len() >= 2);
    lemma_parent_components(path);
    assert(components(path).drop_last() =~= components(base));
    let found = parent(path)->0;
    if found.len() == 0 {
        assert(found =~= Seq::<char>::empty());
        lemma_no_components();
    }
}

} // verus!
