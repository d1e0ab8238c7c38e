//! Dot segments in the paths of URLs.

use vstd::prelude::*;
use crate::text::{
    join, joined, joined_pieces_are_the_text, joined_texts_split_again,
    lemma_pieces_nonempty, owned, pieces, pieces_hold_no_separator, same, split, strip_prefix,
};

verus! {

/// Whether a segment stands for the directory that it is in, or for the one above.
pub open spec fn is_dots(segment: Seq<char>) -> bool {
    segment == "."@ || segment == ".."@
}

/// The segments that are left once each `.` is taken out, and each `..` with the segment before
/// it, where there is one.
pub open spec fn left_segments(segments: Seq<Seq<char>>) -> Seq<Seq<char>>
    decreases segments.len(),
{
    if segments.len() == 0 {
        Seq::empty()
    } else {
        let left = left_segments(segments.drop_last());
        if segments.last() == "."@ {
            left
        } else if segments.last() == ".."@ {
            if left.len() == 0 {
                left
            } else {
                left.drop_last()
            }
        } else {
            left.push(segments.last())
        }
    }
}

/// The segments of a path without dot segments. A path that ends with one names a directory.
pub open spec fn tidied_segments(segments: Seq<Seq<char>>) -> Seq<Seq<char>> {
    if segments.len() > 0 && is_dots(segments.last()) {
        left_segments(segments).push(Seq::empty())
    } else {
        left_segments(segments)
    }
}

/// The segments of a path that begins with a slash.
pub open spec fn segments_of(path: Seq<char>) -> Seq<Seq<char>> {
    pieces(path.skip(1), '/')
}

/// A path without dot segments. What does not begin with a slash stays as it is.
pub open spec fn tidied(path: Seq<char>) -> Seq<char> {
    if "/"@.is_prefix_of(path) {
        "/"@ + joined(tidied_segments(segments_of(path)), "/"@)
    } else {
        path
    }
}

/// Takes the dot segments out of a path.
pub fn tidy(path: &str) -> (r: String)
    ensures
        r@ == tidied(path@),
{
    let rest = match strip_prefix(path, "/") {
        Some(rest) => rest,
        None => {
            return owned(path);
        },
    };
    let segments = split(rest.as_str(), '/');
    let ghost all = segments_of(path@);
    let mut left: Vec<String> = Vec::new();
    let mut i: usize = 0;
    proof {
        reveal_strlit("/");
        assert(rest@ =~= path@.skip(1));
        assert(left.deep_view() =~= left_segments(all.take(0)));
    }
    while i < segments.len()
        invariant
            i <= segments.len(),
            segments.deep_view() == all,
            left.deep_view() == left_segments(all.take(i as int)),
        decreases segments.len() - i,
    {
        let ghost before = left.deep_view();
        proof {
            assert(all[i as int] == segments@[i as int]@);
            assert(all.take(i + 1).drop_last() =~= all.take(i as int));
            assert(all.take(i + 1).last() == all[i as int]);
            assert(before.len() == left@.len());
        }
        let segment = segments[i].as_str();
        if same(segment, "..") {
            proof {
                reveal_strlit(".");
                reveal_strlit("..");
                assert("."@.len() != ".."@.len());
            }
            if left.len() > 0 {
                left.pop();
                proof {
                    assert(left.deep_view() =~= before.drop_last());
                }
            }
        } else if !same(segment, ".") {
            left.push(owned(segment));
            proof {
                assert(left.deep_view() =~= before.push(all[i as int]));
            }
        }
        i += 1;
    }
    proof {
        assert(all.take(all.len() as int) =~= all);
        assert(all.len() == segments@.len());
        assert(all.last() == segments@[segments@.len() - 1]@);
    }
    let ghost before = left.deep_view();
    let last = segments[segments.len() - 1].as_str();
    if same(last, ".") || same(last, "..") {
        left.push(String::new());
        proof {
            assert(left.deep_view() =~= before.push(Seq::empty()));
        }
    }
    owned("/").concat(join(&left, "/").as_str())
}

proof fn lemma_left_segments(segments: Seq<Seq<char>>)
    requires
        forall|i: int| 0 <= i < segments.len() ==> !(#[trigger] segments[i]).contains('/'),
    ensures
        forall|i: int|
            0 <= i < left_segments(segments).len() ==> !is_dots(
                #[trigger] left_segments(segments)[i],
            ) && !left_segments(segments)[i].contains('/'),
    decreases segments.len(),
{
    if segments.len() > 0 {
        let front = segments.drop_last();
        assert forall|i: int| 0 <= i < front.len() implies !(#[trigger] front[i]).contains(
            '/',
        ) by {
            assert(front[i] == segments[i]);
        }
        lemma_left_segments(front);
        assert(!segments[segments.len() - 1].contains('/'));
        let before = left_segments(front);
        let after = left_segments(segments);
        assert forall|i: int| 0 <= i < after.len() implies !is_dots(#[trigger] after[i])
            && !after[i].contains('/') by {
            if i < before.len() {
                assert(after[i] == before[i]);
            } else {
                assert(after[i] == segments.last());
            }
        }
    }
}

/// No dot segment is left in a path that begins with a slash, so it never climbs above its
/// root.
pub proof fn tidied_paths_hold_no_dots(path: Seq<char>)
    requires
        "/"@.is_prefix_of(path),
    ensures
        "/"@.is_prefix_of(tidied(path)),
        forall|i: int|
            0 <= i < segments_of(tidied(path)).len() ==> !is_dots(
                #[trigger] segments_of(tidied(path))[i],
            ),
{
    reveal_strlit("/");
    reveal_strlit(".");
    reveal_strlit("..");
    let segments = segments_of(path);
    let left = tidied_segments(segments);
    pieces_hold_no_separator(path.skip(1), '/');
    lemma_left_segments(segments);
    assert(!is_dots(Seq::<char>::empty())) by {
        assert("."@.len() == 1 && ".."@.len() == 2);
    }
    assert forall|i: int| 0 <= i < left.len() implies !is_dots(#[trigger] left[i])
        && !left[i].contains('/') by {
        if i < left_segments(segments).len() {
            assert(left[i] == left_segments(segments)[i]);
        }
    }
    assert("/"@ =~= seq!['/']);
    assert(tidied(path).subrange(0, 1) =~= "/"@);
    assert(tidied(path).skip(1) =~= joined(left, seq!['/']));
    lemma_pieces_nonempty(path.skip(1), '/');
    joined_texts_split_again(left, '/');
}

proof fn lemma_all_left(segments: Seq<Seq<char>>)
    requires
        forall|i: int| 0 <= i < segments.len() ==> !is_dots(#[trigger] segments[i]),
    ensures
        left_segments(segments) == segments,
    decreases segments.len(),
{
    if segments.len() > 0 {
        let front = segments.drop_last();
        assert forall|i: int| 0 <= i < front.len() implies !is_dots(#[trigger] front[i]) by {
            assert(front[i] == segments[i]);
        }
        lemma_all_left(front);
        assert(!is_dots(segments[segments.len() - 1]));
        assert(front.push(segments.last()) =~= segments);
    } else {
        assert(left_segments(segments) =~= segments);
    }
}

/// A path without dot segments stays as it is.
pub proof fn tidy_paths_stay(path: Seq<char>)
    requires
        forall|i: int|
            0 <= i < segments_of(path).len() ==> !is_dots(#[trigger] segments_of(path)[i]),
    ensures
        tidied(path) == path,
{
    if "/"@.is_prefix_of(path) {
        reveal_strlit("/");
        let segments = segments_of(path);
        lemma_all_left(segments);
        lemma_pieces_nonempty(path.skip(1), '/');
        assert(!is_dots(segments[segments.len() - 1]));
        joined_pieces_are_the_text(path.skip(1), '/');
        assert("/"@ =~= seq!['/']);
        assert("/"@ + path.skip(1) =~= path);
    }
}

} // verus!
