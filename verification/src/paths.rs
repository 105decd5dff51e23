//! Relative paths as texts: components are separated by `/`.

use vstd::prelude::*;
use vstd::string::{StrSliceExecFns, StringExecFns};
use crate::text::{
    chars_of, concat2, concat3, index_of_char, last_char, lemma_index_of_char,
    lemma_index_of_char_is, str_eq,
};
use crate::tree_model::PathModel;

verus! {

/// The index of the first `/` in `s`, or the length of `s` if there is none.
pub open spec fn first_sep(s: Seq<char>) -> int {
    index_of_char(s, '/')
}

/// Whether a piece of a path counts: never when it is empty or `.`, and
/// when it is `..` only if `keep_parent` says so.
pub open spec fn piece_counts(piece: Seq<char>, keep_parent: bool) -> bool {
    &&& piece.len() > 0
    &&& piece != seq!['.']
    &&& keep_parent || piece != seq!['.', '.']
}

/// The pieces of a path that count, in order: the path is cut at every `/`.
pub open spec fn path_pieces(s: Seq<char>, keep_parent: bool) -> PathModel
    decreases s.len(),
{
    let k = first_sep(s);
    let rest = if 0 <= k < s.len() {
        path_pieces(s.skip(k + 1), keep_parent)
    } else {
        Seq::empty()
    };
    if piece_counts(s.take(k), keep_parent) {
        seq![s.take(k)] + rest
    } else {
        rest
    }
}

/// The normal components of a path, in order: the path is cut at every `/`,
/// and empty pieces, `.` and `..` are dropped.
pub open spec fn normal_components(s: Seq<char>) -> PathModel {
    path_pieces(s, false)
}

/// [`first_sep`] is the one index before which there is no `/` and at which
/// the text ends or a `/` stands.
pub proof fn lemma_first_sep(s: Seq<char>, k: int)
    requires
        0 <= k <= s.len(),
        forall|j: int| 0 <= j < k ==> s[j] != '/',
        k < s.len() ==> s[k] == '/',
    ensures
        first_sep(s) == k,
{
    lemma_index_of_char(s, '/', k);
}

/// What [`first_sep`] is: an index within the text, with no `/` before it,
/// at which the text ends or a `/` stands.
pub proof fn lemma_first_sep_is(s: Seq<char>)
    ensures
        0 <= first_sep(s) <= s.len(),
        forall|j: int| 0 <= j < first_sep(s) ==> s[j] != '/',
        first_sep(s) < s.len() ==> s[first_sep(s)] == '/',
{
    lemma_index_of_char_is(s, '/');
}

/// The piece of a path before its first `/`: the whole path if it has none.
pub open spec fn first_segment(s: Seq<char>) -> Seq<char> {
    s.take(first_sep(s))
}

/// `prefix` is a beginning of `path`, component by component.
pub open spec fn starts_with_components(path: PathModel, prefix: PathModel) -> bool {
    prefix.len() <= path.len() && path.take(prefix.len() as int) == prefix
}

/// Whether the components of `path` begin with those of `prefix`.
pub fn components_start_with(path: &Vec<String>, prefix: &Vec<String>) -> (r: bool)
    ensures
        r == starts_with_components(path_model(path@), path_model(prefix@)),
{
    if prefix.len() > path.len() {
        return false;
    }
    let ghost p = path_model(path@);
    let ghost q = path_model(prefix@);
    let mut i: usize = 0;
    while i < prefix.len()
        invariant
            0 <= i <= prefix.len() <= path.len(),
            p == path_model(path@),
            q == path_model(prefix@),
            forall|j: int| 0 <= j < i ==> p[j] == q[j],
        decreases prefix.len() - i,
    {
        if !str_eq(path[i].as_str(), prefix[i].as_str()) {
            assert(p.take(q.len() as int)[i as int] != q[i as int]);
            return false;
        }
        i = i + 1;
    }
    assert(p.take(q.len() as int) =~= q);
    true
}

/// The components a list of texts stands for.
pub open spec fn path_model(components: Seq<String>) -> PathModel {
    Seq::new(components.len(), |i: int| components[i]@)
}

/// Appends the piece of `path` between two character positions to `out` if
/// it counts.
fn push_if_counts(
    path: &str,
    chars: &Vec<char>,
    start: usize,
    end: usize,
    keep_parent: bool,
    out: &mut Vec<String>,
)
    requires
        chars@ == path@,
        start <= end <= chars.len(),
    ensures
        path_model(final(out)@) == if piece_counts(
            path@.subrange(start as int, end as int),
            keep_parent,
        ) {
            path_model(old(out)@).push(path@.subrange(start as int, end as int))
        } else {
            path_model(old(out)@)
        },
{
    let ghost s = path@;
    let ghost piece = s.subrange(start as int, end as int);
    let len = end - start;
    let normal = len > 0 && !(len == 1 && chars[start] == '.') && (keep_parent || !(len == 2
        && chars[start] == '.' && chars[start + 1] == '.'));
    proof {
        let dot = seq!['.'];
        let dots = seq!['.', '.'];
        assert(dot.len() == 1 && dot[0] == '.');
        assert(dots.len() == 2 && dots[0] == '.' && dots[1] == '.');
        assert(piece.len() == len);
        if len == 1 {
            assert(piece[0] == s[start as int]);
            assert(piece =~= seq![s[start as int]]);
        }
        if len == 2 {
            assert(piece[0] == s[start as int] && piece[1] == s[start + 1]);
            assert(piece =~= seq![s[start as int], s[start + 1]]);
        }
        assert(normal == piece_counts(piece, keep_parent));
    }
    if normal {
        let piece_str = path.substring_char(start, end);
        out.push(String::from_str(piece_str));
        assert(path_model(out@) =~= path_model(old(out)@).push(piece));
    }
}

/// The name that a path ends in: its last piece that is neither empty nor
/// `.`, unless that piece is `..` or there is no such piece.
pub open spec fn file_name_spec(s: Seq<char>) -> Option<Seq<char>> {
    let pieces = path_pieces(s, true);
    if pieces.len() == 0 || pieces.last() == seq!['.', '.'] {
        None
    } else {
        Some(pieces.last())
    }
}

/// The relative path that leads from `base` to `path`, if there is one, for
/// paths in which `/` is the separator.
pub uninterp spec fn path_difference(path: Seq<char>, base: Seq<char>) -> Option<Seq<char>>;

/// `pathdiff::diff_paths`: the relative path that leads from `base` to
/// `path`, if there is one.
#[verifier::external_body]
pub(crate) fn relative_to(path: &str, base: &str) -> (r: Option<String>)
    ensures
        match r {
            Some(relative) => path_difference(path@, base@) == Some(relative@),
            None => path_difference(path@, base@) is None,
        },
{
    pathdiff::diff_paths(path, base).map(|p| p.to_string_lossy().into_owned())
}

/// A path is absolute when it begins with `/`.
pub open spec fn is_absolute_spec(s: Seq<char>) -> bool {
    s.len() > 0 && s[0] == '/'
}

/// The path `rel` as seen from `base`: `rel` itself if it is absolute, else
/// `rel` appended to `base`, with a `/` between them where `base` does not
/// already end in one.
pub open spec fn join_spec(base: Seq<char>, rel: Seq<char>) -> Seq<char> {
    if is_absolute_spec(rel) {
        rel
    } else if base.len() == 0 || base.last() == '/' {
        base + rel
    } else {
        base + seq!['/'] + rel
    }
}

/// Whether a path is absolute.
pub fn is_absolute(path: &str) -> (r: bool)
    ensures
        r == is_absolute_spec(path@),
{
    let mut chars = path.chars();
    broadcast use vstd::string::group_string_axioms;

    match chars.next() {
        Some(c) => c == '/',
        None => false,
    }
}

/// Joins two paths.
pub fn join_paths(base: &str, rel: &str) -> (r: String)
    ensures
        r@ == join_spec(base@, rel@),
{
    if is_absolute(rel) {
        return String::from_str(rel);
    }
    let needs_separator = match last_char(base) {
        Some(c) => c != '/',
        None => false,
    };
    if needs_separator {
        proof {
            reveal_strlit("/");
            assert("/"@ =~= seq!['/']);
        }
        concat3(base, "/", rel)
    } else {
        concat2(base, rel)
    }
}

/// Splits a relative path into its normal components.
pub fn split_components(path: &str) -> (components: Vec<String>)
    ensures
        path_model(components@) == normal_components(path@),
{
    split_pieces(path, false)
}

/// The name that a path ends in.
pub fn file_name_of(path: &str) -> (r: Option<String>)
    ensures
        match r {
            Some(name) => file_name_spec(path@) == Some(name@),
            None => file_name_spec(path@) is None,
        },
{
    let mut pieces = split_pieces(path, true);
    let ghost all = path_model(pieces@);
    match pieces.pop() {
        None => None,
        Some(last) => {
            assert(last@ == all.last());
            proof {
                reveal_strlit("..");
                assert(".."@ =~= seq!['.', '.']);
            }
            if str_eq(last.as_str(), "..") {
                None
            } else {
                Some(last)
            }
        },
    }
}

/// Splits a path into its pieces that count.
pub fn split_pieces(path: &str, keep_parent: bool) -> (components: Vec<String>)
    ensures
        path_model(components@) == path_pieces(path@, keep_parent),
{
    let chars = chars_of(path);
    let n = chars.len();
    let ghost s = path@;
    let mut out: Vec<String> = Vec::new();
    let mut start: usize = 0;
    let mut i: usize = 0;
    proof {
        assert(s.skip(0) =~= s);
        assert(path_model(out@) + path_pieces(s, keep_parent) =~= path_pieces(s, keep_parent));
    }
    while i < n
        invariant
            chars@ == s,
            s == path@,
            n == s.len(),
            start <= i <= n,
            forall|j: int| start <= j < i ==> s[j] != '/',
            path_pieces(s, keep_parent) == path_model(out@) + path_pieces(s.skip(start as int), keep_parent),
        decreases n - i,
    {
        if chars[i] == '/' {
            let ghost tail = s.skip(start as int);
            let ghost piece = s.subrange(start as int, i as int);
            let ghost before = path_model(out@);
            proof {
                assert forall|j: int| 0 <= j < i - start implies tail[j] != '/' by {
                    assert(tail[j] == s[start + j]);
                }
                lemma_first_sep(tail, i - start);
                assert(tail.take(i - start) =~= piece);
                assert(tail.skip(i - start + 1) =~= s.skip(i + 1));
            }
            push_if_counts(path, &chars, start, i, keep_parent, &mut out);
            proof {
                let rest = path_pieces(s.skip(i + 1), keep_parent);
                if piece_counts(piece, keep_parent) {
                    assert(before.push(piece) + rest =~= before + (seq![piece] + rest));
                }
            }
            start = i + 1;
        }
        i = i + 1;
    }
    let ghost tail = s.skip(start as int);
    let ghost piece = s.subrange(start as int, n as int);
    let ghost before = path_model(out@);
    proof {
        assert forall|j: int| 0 <= j < n - start implies tail[j] != '/' by {
            assert(tail[j] == s[start + j]);
        }
        lemma_first_sep(tail, n - start);
        assert(tail.take(n - start) =~= piece);
    }
    push_if_counts(path, &chars, start, n, keep_parent, &mut out);
    proof {
        let none = Seq::<Seq<char>>::empty();
        if piece_counts(piece, keep_parent) {
            assert(before.push(piece) =~= before + (seq![piece] + none));
        } else {
            assert(before =~= before + none);
        }
    }
    out
}

} // verus!
