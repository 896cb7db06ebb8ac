//! Paths of the platform that the crate is built for. A path need not be
//! Unicode, so it is known by its bytes.

use std::path::PathBuf;

use vstd::prelude::*;
use vstd::utf8::{
    decode_utf8, decode_utf8_encode_utf8, encode_utf8, encode_utf8_decode_utf8,
    encode_utf8_valid_utf8, valid_utf8,
};

verus! {

/// `std::path::PathBuf`, a sequence of bytes.
#[verifier::external_type_specification]
#[verifier::external_body]
pub struct ExPathBuf(PathBuf);

/// The bytes that a path holds, in the encoding of `OsStr::as_encoded_bytes`:
/// what is Unicode is in UTF-8.
pub uninterp spec fn path_bytes(path: PathBuf) -> Seq<u8>;

/// The bytes of a path, if there is one.
pub open spec fn optional_bytes(path: Option<PathBuf>) -> Option<Seq<u8>> {
    match path {
        Some(path) => Some(path_bytes(path)),
        None => None,
    }
}

/// The bytes of each of `paths`.
pub open spec fn bytes_of_paths(paths: Seq<PathBuf>) -> Seq<Seq<u8>> {
    paths.map_values(|path: PathBuf| path_bytes(path))
}

/// A copy of a path holds the same bytes.
pub assume_specification[ <PathBuf as Clone>::clone ](path: &PathBuf) -> (r: PathBuf)
    ensures
        path_bytes(r) == path_bytes(*path),
;

/// `PathBuf::from` on a text. The path is spelled by the text, whose bytes are
/// in UTF-8.
#[verifier::external_body]
pub(crate) fn path_from_text(text: &str) -> (r: PathBuf)
    ensures
        path_bytes(r) == encode_utf8(text@),
{
    PathBuf::from(text)
}

/// What `Path::to_string_lossy` makes of a path that is not Unicode.
pub uninterp spec fn lossy_text(path: Seq<u8>) -> Seq<char>;

/// The text of a path. A path that is not Unicode has a text that may stand
/// for other paths as well.
pub open spec fn path_text(path: Seq<u8>) -> Seq<char> {
    if valid_utf8(path) {
        decode_utf8(path)
    } else {
        lossy_text(path)
    }
}

/// `Path::to_string_lossy`: the text of a path that is Unicode, and else what
/// `lossy_text` names.
#[verifier::external_body]
pub(crate) fn text_of_path(path: &PathBuf) -> (r: String)
    ensures
        r@ == if valid_utf8(path_bytes(*path)) {
            decode_utf8(path_bytes(*path))
        } else {
            lossy_text(path_bytes(*path))
        },
{
    path.to_string_lossy().into_owned()
}

/// What `Path::display` writes for a path that is not Unicode.
pub uninterp spec fn lossy_display(path: Seq<u8>) -> Seq<char>;

/// A path as it is shown.
pub open spec fn path_shown(path: Seq<u8>) -> Seq<char> {
    if valid_utf8(path) {
        decode_utf8(path)
    } else {
        lossy_display(path)
    }
}

/// `Path::display`, written to a text: that of a path that is Unicode, and else
/// what `lossy_display` names.
#[verifier::external_body]
pub(crate) fn show_path(path: &PathBuf) -> (r: String)
    ensures
        r@ == if valid_utf8(path_bytes(*path)) {
            decode_utf8(path_bytes(*path))
        } else {
            lossy_display(path_bytes(*path))
        },
{
    path.display().to_string()
}

/// Whether the path `a` comes strictly before the path `b`.
pub uninterp spec fn path_before(a: Seq<u8>, b: Seq<u8>) -> bool;

/// `<Path as PartialOrd>::lt`, named by `path_before`.
///
/// `Path` is `Ord`, so the comparison is a strict order: no path comes before
/// one that comes before it, and what comes before `a` comes before all that
/// `a` comes before.
#[verifier::external_body]
pub(crate) fn path_precedes(a: &PathBuf, b: &PathBuf) -> (r: bool)
    ensures
        r == path_before(path_bytes(*a), path_bytes(*b)),
        r ==> !path_before(path_bytes(*b), path_bytes(*a)),
        forall|c: PathBuf|
            r && #[trigger] path_before(path_bytes(c), path_bytes(*a)) ==> path_before(
                path_bytes(c),
                path_bytes(*b),
            ),
{
    a.as_path() < b.as_path()
}

/// The path `part` below the directory `base`.
pub uninterp spec fn path_joined(base: Seq<u8>, part: Seq<char>) -> Seq<u8>;

/// `Path::join`, named by `path_joined`.
#[verifier::external_body]
pub(crate) fn join_path(base: &PathBuf, part: &str) -> (r: PathBuf)
    ensures
        path_bytes(r) == path_joined(path_bytes(*base), part@),
{
    base.join(part)
}

/// The path `path` without its final component, where it has one.
pub uninterp spec fn path_parent(path: Seq<u8>) -> Option<Seq<u8>>;

/// `Path::parent`, named by `path_parent`.
#[verifier::external_body]
pub(crate) fn parent_of(path: &PathBuf) -> (r: Option<PathBuf>)
    ensures
        optional_bytes(r) == path_parent(path_bytes(*path)),
{
    path.parent().map(|p| p.to_path_buf())
}

/// The position in `sorted` of the first path that `path` comes before, or the
/// end of `sorted`.
pub open spec fn place_for(sorted: Seq<Seq<u8>>, path: Seq<u8>) -> int
    decreases sorted.len(),
{
    if sorted.len() == 0 || path_before(path, sorted[0]) {
        0
    } else {
        1 + place_for(sorted.drop_first(), path)
    }
}

/// `paths` in the order of paths; among paths of which neither comes before the
/// other, the one that came first stays first.
pub open spec fn path_sorted(paths: Seq<Seq<u8>>) -> Seq<Seq<u8>>
    decreases paths.len(),
{
    if paths.len() == 0 {
        Seq::empty()
    } else {
        let sorted = path_sorted(paths.drop_last());
        sorted.insert(place_for(sorted, paths.last()), paths.last())
    }
}

/// No path stands behind one that it comes before.
pub open spec fn path_ordered(paths: Seq<Seq<u8>>) -> bool {
    forall|i: int, j: int|
        0 <= i < j < paths.len() ==> !#[trigger] path_before(paths[j], paths[i])
}

/// The order of paths tells any two different ones of `paths` apart.
pub open spec fn told_apart(paths: Seq<Seq<u8>>) -> bool {
    forall|i: int, j: int|
        0 <= i < paths.len() && 0 <= j < paths.len() && paths[i] != paths[j] ==> (
        #[trigger] path_before(paths[i], paths[j]) || path_before(paths[j], paths[i]))
}

proof fn lemma_place_for(sorted: Seq<Seq<u8>>, path: Seq<u8>)
    ensures
        0 <= place_for(sorted, path) <= sorted.len(),
        place_for(sorted, path) < sorted.len() ==> path_before(
            path,
            sorted[place_for(sorted, path)],
        ),
        forall|i: int|
            0 <= i < place_for(sorted, path) ==> !#[trigger] path_before(path, sorted[i]),
    decreases sorted.len(),
{
    if sorted.len() > 0 && !path_before(path, sorted[0]) {
        let rest = sorted.drop_first();
        lemma_place_for(rest, path);
        assert forall|i: int| 0 <= i < place_for(sorted, path) implies !#[trigger] path_before(
            path,
            sorted[i],
        ) by {
            if i > 0 {
                assert(sorted[i] == rest[i - 1]);
            }
        }
    }
}

proof fn lemma_place_is(sorted: Seq<Seq<u8>>, path: Seq<u8>, at: int)
    requires
        0 <= at <= sorted.len(),
        at < sorted.len() ==> path_before(path, sorted[at]),
        forall|i: int| 0 <= i < at ==> !#[trigger] path_before(path, sorted[i]),
    ensures
        place_for(sorted, path) == at,
{
    lemma_place_for(sorted, path);
}

/// `paths` in the order of paths, the sort being stable.
pub fn sort_paths(paths: &[PathBuf]) -> (r: Vec<PathBuf>)
    ensures
        bytes_of_paths(r@) == path_sorted(bytes_of_paths(paths@)),
        path_ordered(path_sorted(bytes_of_paths(paths@))),
        r.len() == paths@.len(),
        forall|i: int, j: int|
            0 <= i < j < r.len() ==> !path_before(
                path_bytes(#[trigger] r@[j]),
                path_bytes(#[trigger] r@[i]),
            ),
        r@.map_values(|path: PathBuf| path_bytes(path)).to_multiset() == paths@.map_values(
            |path: PathBuf| path_bytes(path),
        ).to_multiset(),
{
    let mut sorted: Vec<PathBuf> = Vec::new();
    let ghost all = bytes_of_paths(paths@);
    let mut i: usize = 0;
    while i < paths.len()
        invariant
            i <= paths.len(),
            all == bytes_of_paths(paths@),
            bytes_of_paths(sorted@) == path_sorted(all.take(i as int)),
            path_ordered(bytes_of_paths(sorted@)),
        decreases paths.len() - i,
    {
        let ghost before = bytes_of_paths(sorted@);
        let ghost path = path_bytes(paths@[i as int]);
        let mut k: usize = 0;
        while k < sorted.len() && !path_precedes(&paths[i], &sorted[k])
            invariant
                i < paths.len(),
                k <= sorted.len(),
                before == bytes_of_paths(sorted@),
                path == path_bytes(paths@[i as int]),
                forall|j: int| 0 <= j < k ==> !#[trigger] path_before(path, before[j]),
            ensures
                k <= sorted.len(),
                k < sorted.len() ==> path_before(path, before[k as int]) && !path_before(
                    before[k as int],
                    path,
                ) && (forall|c: PathBuf| #[trigger]
                    path_before(path_bytes(c), path) ==> path_before(
                        path_bytes(c),
                        before[k as int],
                    )),
            decreases sorted.len() - k,
        {
            k = k + 1;
        }
        sorted.insert(k, paths[i].clone());
        proof {
            lemma_place_is(before, path, k as int);
            let after = bytes_of_paths(sorted@);
            assert(after =~= before.insert(k as int, path));
            assert(all.take(i + 1).drop_last() =~= all.take(i as int));
            assert forall|x: int, y: int| 0 <= x < y < after.len() implies !#[trigger] path_before(
                after[y],
                after[x],
            ) by {
                let bx = if x < k { x } else { x - 1 };
                let by_ = if y < k { y } else { y - 1 };
                if x != k && y != k {
                    assert(after[x] == before[bx] && after[y] == before[by_]);
                } else if x == k {
                    assert(after[y] == before[by_]);
                    if by_ > k {
                        assert(!path_before(before[by_], before[k as int]));
                    }
                }
            }
        }
        i = i + 1;
    }
    proof {
        assert(all.take(i as int) =~= all);
        let bytes = bytes_of_paths(sorted@);
        sorting_keeps_paths(all);
        broadcast use vstd::seq_lib::group_to_multiset_ensures;

        assert(bytes.len() == bytes.to_multiset().len() && all.len() == all.to_multiset().len());
        assert(bytes =~= sorted@.map_values(|path: PathBuf| path_bytes(path)));
        assert(all =~= paths@.map_values(|path: PathBuf| path_bytes(path)));
        assert forall|i: int, j: int| 0 <= i < j < sorted.len() implies !path_before(
            path_bytes(#[trigger] sorted@[j]),
            path_bytes(#[trigger] sorted@[i]),
        ) by {
            assert(!path_before(bytes[j], bytes[i]));
        }
    }
    sorted
}

/// Sorting neither adds nor drops a path.
pub proof fn sorting_keeps_paths(paths: Seq<Seq<u8>>)
    ensures
        path_sorted(paths).to_multiset() == paths.to_multiset(),
    decreases paths.len(),
{
    broadcast use vstd::seq_lib::group_to_multiset_ensures;

    if paths.len() > 0 {
        let rest = paths.drop_last();
        sorting_keeps_paths(rest);
        let sorted = path_sorted(rest);
        lemma_place_for(sorted, paths.last());
        vstd::seq_lib::to_multiset_insert(sorted, place_for(sorted, paths.last()), paths.last());
        assert(rest.push(paths.last()) =~= paths);
    }
}

/// The position of `path` in `sorted`.
spec fn rank(sorted: Seq<Seq<u8>>, path: Seq<u8>) -> int {
    sorted.index_of_first(path)->0
}

/// The elements of `paths` occur in `sorted` with ranks that do not fall.
spec fn by_rank(sorted: Seq<Seq<u8>>, paths: Seq<Seq<u8>>) -> bool {
    &&& forall|i: int| 0 <= i < paths.len() ==> sorted.contains(#[trigger] paths[i])
    &&& forall|i: int, j: int|
        0 <= i < j < paths.len() ==> rank(sorted, #[trigger] paths[i]) <= rank(
            sorted,
            #[trigger] paths[j],
        )
}

proof fn lemma_rank(sorted: Seq<Seq<u8>>, path: Seq<u8>)
    requires
        sorted.contains(path),
    ensures
        0 <= rank(sorted, path) < sorted.len(),
        sorted[rank(sorted, path)] == path,
        forall|i: int| 0 <= i < rank(sorted, path) ==> sorted[i] != path,
{
    sorted.index_of_first_ensures(path);
}

/// In an ordered sequence whose paths are told apart, the order of two
/// different paths is that of their ranks.
proof fn lemma_before_is_rank(sorted: Seq<Seq<u8>>, a: Seq<u8>, b: Seq<u8>)
    requires
        path_ordered(sorted),
        told_apart(sorted),
        sorted.contains(a),
        sorted.contains(b),
        a != b,
    ensures
        path_before(a, b) <==> rank(sorted, a) < rank(sorted, b),
{
    lemma_rank(sorted, a);
    lemma_rank(sorted, b);
    let i = rank(sorted, a);
    let j = rank(sorted, b);
    assert(path_before(sorted[i], sorted[j]) || path_before(sorted[j], sorted[i]));
    if i < j {
        assert(!path_before(sorted[j], sorted[i]));
    } else {
        assert(!path_before(sorted[i], sorted[j]));
    }
}

/// A path that occurs twice in an ordered sequence does not come before itself.
proof fn lemma_repeated_path(sorted: Seq<Seq<u8>>, path: Seq<u8>)
    requires
        path_ordered(sorted),
        sorted.to_multiset().count(path) >= 2,
    ensures
        !path_before(path, path),
{
    broadcast use vstd::seq_lib::group_to_multiset_ensures;

    assert(sorted.contains(path));
    lemma_rank(sorted, path);
    let i = rank(sorted, path);
    let rest = sorted.remove(i);
    vstd::seq_lib::to_multiset_remove(sorted, i);
    assert(rest.to_multiset().count(path) >= 1);
    assert(rest.contains(path));
    let k = choose|k: int| 0 <= k < rest.len() && rest[k] == path;
    assert(k >= i) by {
        if k < i {
            assert(rest[k] == sorted[k]);
        }
    }
    assert(rest[k] == sorted[k + 1]);
    assert(!path_before(sorted[k + 1], sorted[i]));
}

/// Sorting the first `n` of `other`, a rearrangement of what `sorted` holds,
/// orders them by their rank in `sorted`.
proof fn lemma_sorted_by_rank(sorted: Seq<Seq<u8>>, other: Seq<Seq<u8>>, n: nat)
    requires
        path_ordered(sorted),
        told_apart(sorted),
        sorted.to_multiset() == other.to_multiset(),
        n <= other.len(),
    ensures
        by_rank(sorted, path_sorted(other.take(n as int))),
    decreases n,
{
    broadcast use vstd::seq_lib::group_to_multiset_ensures;

    let seen = other.take(n as int);
    if n > 0 {
        let m = (n - 1) as nat;
        let rest = other.take(m as int);
        let path = other[m as int];
        assert(seen.drop_last() =~= rest);
        assert(seen.last() == path);
        lemma_sorted_by_rank(sorted, other, m);
        let part = path_sorted(rest);
        let at = place_for(part, path);
        lemma_place_for(part, path);
        sorting_keeps_paths(rest);
        assert(other.contains(path));
        assert(other.to_multiset().count(path) > 0);
        assert(sorted.contains(path));
        let after = part.insert(at, path);
        assert(path_sorted(seen) == after);
        assert forall|i: int| 0 <= i < after.len() implies sorted.contains(#[trigger] after[i]) by {
            if i < at {
                assert(after[i] == part[i]);
            } else if i > at {
                assert(after[i] == part[i - 1]);
            }
        }
        assert forall|i: int| 0 <= i < part.len() implies (path_before(path, #[trigger] part[i])
            <==> rank(sorted, path) < rank(sorted, part[i])) by {
            if part[i] != path {
                lemma_before_is_rank(sorted, path, part[i]);
            } else {
                assert(part.contains(path));
                assert(rest.to_multiset().count(path) > 0);
                assert(seen == rest.push(path));
                assert(seen.to_multiset().count(path) >= 2);
                assert(other =~= seen + other.skip(n as int));
                vstd::seq_lib::lemma_multiset_commutative(seen, other.skip(n as int));
                assert(other.to_multiset().count(path) >= 2);
                lemma_repeated_path(sorted, path);
            }
        }
        assert forall|i: int, j: int| 0 <= i < j < after.len() implies rank(
            sorted,
            #[trigger] after[i],
        ) <= rank(sorted, #[trigger] after[j]) by {
            let bi = if i < at { i } else { i - 1 };
            let bj = if j < at { j } else { j - 1 };
            if i != at && j != at {
                assert(after[i] == part[bi] && after[j] == part[bj]);
            } else if i == at {
                assert(after[j] == part[bj]);
                assert(path_before(path, part[at]));
                if bj > at {
                    assert(rank(sorted, part[at]) <= rank(sorted, part[bj]));
                }
            } else {
                assert(after[i] == part[bi]);
                assert(!path_before(path, part[bi]));
            }
        }
    } else {
        assert(seen.len() == 0);
    }
}

/// Two rearrangements of one another that both go by rank are equal.
proof fn lemma_by_rank_unique(sorted: Seq<Seq<u8>>, s: Seq<Seq<u8>>, t: Seq<Seq<u8>>)
    requires
        by_rank(sorted, s),
        by_rank(sorted, t),
        s.to_multiset() == t.to_multiset(),
    ensures
        s == t,
    decreases s.len(),
{
    broadcast use vstd::seq_lib::group_to_multiset_ensures;

    assert(s.len() == s.to_multiset().len() && t.len() == t.to_multiset().len());
    if s.len() > 0 {
        let x = s.last();
        let y = t.last();
        assert(s.contains(x));
        assert(t.to_multiset().count(x) > 0);
        let j = choose|j: int| 0 <= j < t.len() && t[j] == x;
        assert(t.contains(y));
        assert(s.to_multiset().count(y) > 0);
        let i = choose|i: int| 0 <= i < s.len() && s[i] == y;
        assert(rank(sorted, t[j]) <= rank(sorted, t[t.len() - 1]));
        assert(rank(sorted, s[i]) <= rank(sorted, s[s.len() - 1]));
        lemma_rank(sorted, x);
        lemma_rank(sorted, y);
        assert(x == y);
        let s0 = s.drop_last();
        let t0 = t.drop_last();
        assert(s0 =~= s.remove(s.len() - 1));
        assert(t0 =~= t.remove(t.len() - 1));
        vstd::seq_lib::to_multiset_remove(s, s.len() - 1);
        vstd::seq_lib::to_multiset_remove(t, t.len() - 1);
        assert forall|k: int| 0 <= k < s0.len() implies sorted.contains(#[trigger] s0[k]) by {
            assert(s0[k] == s[k]);
        }
        assert forall|k: int| 0 <= k < t0.len() implies sorted.contains(#[trigger] t0[k]) by {
            assert(t0[k] == t[k]);
        }
        lemma_by_rank_unique(sorted, s0, t0);
        assert(s =~= s0.push(x));
        assert(t =~= t0.push(y));
    } else {
        assert(s =~= t);
    }
}

/// Rearranging paths that the order of paths tells apart does not change how
/// they are sorted, given that sorting orders them.
pub proof fn sorting_ignores_arrangement(paths: Seq<Seq<u8>>, other: Seq<Seq<u8>>)
    requires
        path_ordered(path_sorted(paths)),
        told_apart(paths),
        paths.to_multiset() == other.to_multiset(),
    ensures
        path_sorted(other) == path_sorted(paths),
{
    broadcast use vstd::seq_lib::group_to_multiset_ensures;

    let sorted = path_sorted(paths);
    sorting_keeps_paths(paths);
    sorting_keeps_paths(other);
    assert(told_apart(sorted)) by {
        assert forall|i: int, j: int|
            0 <= i < sorted.len() && 0 <= j < sorted.len() && sorted[i] != sorted[j] implies (
        #[trigger] path_before(sorted[i], sorted[j]) || path_before(sorted[j], sorted[i])) by {
            assert(sorted.contains(sorted[i]) && sorted.contains(sorted[j]));
            assert(paths.to_multiset().count(sorted[i]) > 0);
            assert(paths.to_multiset().count(sorted[j]) > 0);
            let a = choose|a: int| 0 <= a < paths.len() && paths[a] == sorted[i];
            let b = choose|b: int| 0 <= b < paths.len() && paths[b] == sorted[j];
            assert(path_before(paths[a], paths[b]) || path_before(paths[b], paths[a]));
        }
    }
    lemma_sorted_by_rank(sorted, other, other.len());
    assert(other.take(other.len() as int) =~= other);
    assert(by_rank(sorted, sorted)) by {
        assert forall|i: int| 0 <= i < sorted.len() implies sorted.contains(#[trigger] sorted[i]) by {}
        assert forall|i: int, j: int| 0 <= i < j < sorted.len() implies rank(
            sorted,
            #[trigger] sorted[i],
        ) <= rank(sorted, #[trigger] sorted[j]) by {
            if sorted[i] != sorted[j] {
                lemma_before_is_rank(sorted, sorted[j], sorted[i]);
                assert(!path_before(sorted[j], sorted[i]));
            }
        }
    }
    lemma_by_rank_unique(sorted, path_sorted(other), sorted);
}

/// Paths that are in order stay as they are, those of which neither comes
/// before the other among them.
pub proof fn ordered_paths_stay(paths: Seq<Seq<u8>>)
    requires
        path_ordered(paths),
    ensures
        path_sorted(paths) == paths,
    decreases paths.len(),
{
    if paths.len() > 0 {
        let rest = paths.drop_last();
        let last = paths.last();
        assert(path_ordered(rest)) by {
            assert forall|i: int, j: int| 0 <= i < j < rest.len() implies !#[trigger] path_before(
                rest[j],
                rest[i],
            ) by {
                assert(!path_before(paths[j], paths[i]));
            }
        }
        ordered_paths_stay(rest);
        assert forall|i: int| 0 <= i < rest.len() implies !#[trigger] path_before(last, rest[i]) by {
            assert(!path_before(paths[paths.len() - 1], paths[i]));
        }
        lemma_place_is(rest, last, rest.len() as int);
        assert(rest.insert(rest.len() as int, last) =~= paths);
    } else {
        assert(path_sorted(paths) =~= paths);
    }
}

/// The text of a path that a text spells is that text, and so is what is shown
/// of it; a path that is Unicode is spelled by its text.
pub proof fn unicode_paths_have_their_text(text: Seq<char>, path: Seq<u8>)
    ensures
        path_text(encode_utf8(text)) == text,
        path_shown(encode_utf8(text)) == text,
        valid_utf8(path) ==> encode_utf8(path_text(path)) == path && path_shown(path) == path_text(
            path,
        ),
        !valid_utf8(path) ==> path_text(path) == lossy_text(path) && path_shown(path)
            == lossy_display(path),
{
    encode_utf8_valid_utf8(text);
    encode_utf8_decode_utf8(text);
    if valid_utf8(path) {
        decode_utf8_encode_utf8(path);
    }
}

/// What is said of the bytes of paths, or of a path that may be missing, is
/// said of each of them.
pub proof fn bytes_are_those_of_each_path(path: PathBuf, paths: Seq<PathBuf>)
    ensures
        optional_bytes(Some(path)) == Some(path_bytes(path)),
        optional_bytes(None) is None,
        bytes_of_paths(paths).len() == paths.len(),
        forall|i: int|
            0 <= i < paths.len() ==> bytes_of_paths(paths)[i] == path_bytes(#[trigger] paths[i]),
{
}

} // verus!
