//! The operations of `std::path` on paths held as strings, and the order of
//! the paths.
//!
//! The paths of the library are UTF-8 strings. The operations below call the
//! ones of `std::path::Path`; what they return is named by a spec function of
//! the arguments, since `Path` decides it by its own rules of components. The
//! paths are sorted in the order of their bytes, which is the order of the
//! child directories of one parent as `Path` compares them.
use vstd::prelude::*;
use vstd::utf8::encode_utf8;

verus! {

/// The path that `Path::join` makes of `base` and `child`.
pub uninterp spec fn join_spec(base: Seq<char>, child: Seq<char>) -> Seq<char>;

/// The path of `child` on `base`: `child` itself when it is absolute.
///
/// Calls `Path::join`; the joined path of two UTF-8 paths is UTF-8, hence the
/// conversion back to a string loses nothing. Its result is named
/// [`join_spec`] of the arguments.
#[verifier::external_body]
pub(crate) fn join(base: &str, child: &str) -> (r: String)
    ensures
        r@ == join_spec(base@, child@),
{
    std::path::Path::new(base).join(child).to_string_lossy().into_owned()
}

/// What `Path::strip_prefix` gives: the rest of `path` after the components of
/// `base`, or `None` when `base` is not a prefix of it.
pub uninterp spec fn strip_prefix_spec(path: Seq<char>, base: Seq<char>) -> Option<Seq<char>>;

/// `path` relative to `base`, if `base` is a prefix of it.
///
/// Calls `Path::strip_prefix`; its result is named [`strip_prefix_spec`] of
/// the arguments.
#[verifier::external_body]
pub(crate) fn strip_prefix(path: &str, base: &str) -> (r: Option<String>)
    ensures
        match r {
            Some(s) => strip_prefix_spec(path@, base@) == Some(s@),
            None => strip_prefix_spec(path@, base@) is None,
        },
{
    match std::path::Path::new(path).strip_prefix(base) {
        Ok(rest) => Some(rest.to_string_lossy().into_owned()),
        Err(_) => None,
    }
}

/// Whether `Path` takes the two paths as equal, component by component.
pub uninterp spec fn same_path_spec(a: Seq<char>, b: Seq<char>) -> bool;

/// Whether the two paths are equal as `Path` compares them.
///
/// Calls `<Path as PartialEq>::eq`; its result is named [`same_path_spec`] of
/// the arguments.
#[verifier::external_body]
pub(crate) fn same_path(a: &str, b: &str) -> (r: bool)
    ensures
        r == same_path_spec(a@, b@),
{
    std::path::Path::new(a) == std::path::Path::new(b)
}

/// What `Path::parent` gives: the path without its last component, or `None`
/// for a root or an empty path.
pub uninterp spec fn parent_spec(path: Seq<char>) -> Option<Seq<char>>;

/// The parent of `path`, if it has one.
///
/// Calls `Path::parent`; its result is named [`parent_spec`] of the argument.
#[verifier::external_body]
pub(crate) fn parent(path: &str) -> (r: Option<String>)
    ensures
        match r {
            Some(s) => parent_spec(path@) == Some(s@),
            None => parent_spec(path@) is None,
        },
{
    match std::path::Path::new(path).parent() {
        Some(p) => Some(p.to_string_lossy().into_owned()),
        None => None,
    }
}

/// `path` has the component `.`: `Path::components` keeps it only at the
/// beginning of a path, and normalizes it away elsewhere.
pub open spec fn has_cur_dir_component(path: Seq<char>) -> bool {
    path == seq!['.'] || (path.len() >= 2 && path[0] == '.' && path[1] == '/')
}

/// `path` has the component `..`: a segment between separators (or the ends)
/// that is `..`.
pub open spec fn has_parent_dir_component(path: Seq<char>) -> bool {
    exists|i: int| #[trigger] parent_segment_at(path, i)
}

/// The segment of `path` at `i` is `..`.
pub open spec fn parent_segment_at(path: Seq<char>, i: int) -> bool {
    &&& 0 <= i
    &&& i + 2 <= path.len()
    &&& path[i] == '.'
    &&& path[i + 1] == '.'
    &&& (i == 0 || path[i - 1] == '/')
    &&& (i + 2 == path.len() || path[i + 2] == '/')
}

/// Whether `path` has the component `.` or `..`.
pub fn has_dot_component(path: &str) -> (r: bool)
    ensures
        r == (has_cur_dir_component(path@) || has_parent_dir_component(path@)),
{
    let n = path.unicode_len();
    if n == 1 && path.get_char(0) == '.' {
        assert(path@ =~= seq!['.']);
        return true;
    }
    if n >= 2 && path.get_char(0) == '.' && path.get_char(1) == '/' {
        return true;
    }
    if n < 2 {
        assert(!has_parent_dir_component(path@));
        assert(path@ != seq!['.']);
        return false;
    }
    let mut i: usize = 0;
    while i <= n - 2
        invariant
            n == path@.len(),
            n >= 2,
            i <= n - 1,
            forall|k: int| 0 <= k < i ==> !#[trigger] parent_segment_at(path@, k),
        decreases n - i,
    {
        let at_start = i == 0 || path.get_char(i - 1) == '/';
        let at_end = i + 2 == n || path.get_char(i + 2) == '/';
        if at_start && at_end && path.get_char(i) == '.' && path.get_char(i + 1) == '.' {
            assert(parent_segment_at(path@, i as int));
            return true;
        }
        i = i + 1;
    }
    assert forall|k: int| !#[trigger] parent_segment_at(path@, k) by {
        if 0 <= k < i {
        }
    }
    false
}

/// `a` is not after `b` in the lexicographic order of bytes.
pub open spec fn bytes_le(a: Seq<u8>, b: Seq<u8>) -> bool
    decreases a.len(),
{
    if a.len() == 0 {
        true
    } else if b.len() == 0 {
        false
    } else if a[0] != b[0] {
        a[0] < b[0]
    } else {
        bytes_le(a.drop_first(), b.drop_first())
    }
}

/// `a` is not after `b` in the order of strings: the order of their UTF-8 bytes.
pub open spec fn text_le(a: Seq<char>, b: Seq<char>) -> bool {
    bytes_le(encode_utf8(a), encode_utf8(b))
}

/// The strings are in the order of [`text_le`].
pub open spec fn sorted_texts(s: Seq<Seq<char>>) -> bool {
    forall|i: int, j: int| 0 <= i < j < s.len() ==> text_le(#[trigger] s[i], #[trigger] s[j])
}

/// The order of bytes is total.
pub proof fn lemma_bytes_le_total(a: Seq<u8>, b: Seq<u8>)
    ensures
        bytes_le(a, b) || bytes_le(b, a),
    decreases a.len(),
{
    if a.len() > 0 && b.len() > 0 && a[0] == b[0] {
        lemma_bytes_le_total(a.drop_first(), b.drop_first());
    }
}

/// The order of bytes is transitive.
pub proof fn lemma_bytes_le_transitive(a: Seq<u8>, b: Seq<u8>, c: Seq<u8>)
    requires
        bytes_le(a, b),
        bytes_le(b, c),
    ensures
        bytes_le(a, c),
    decreases a.len(),
{
    if a.len() > 0 && a[0] == b[0] && b[0] == c[0] {
        lemma_bytes_le_transitive(a.drop_first(), b.drop_first(), c.drop_first());
    }
}

/// Whether `a` is not after `b` in the order of their UTF-8 bytes.
pub fn text_le_exec(a: &str, b: &str) -> (r: bool)
    ensures
        r == text_le(a@, b@),
{
    let x = a.as_bytes();
    let y = b.as_bytes();
    let mut i: usize = 0;
    assert(x@.skip(0) =~= x@);
    assert(y@.skip(0) =~= y@);
    while i < x.len() && i < y.len()
        invariant
            i <= x@.len(),
            i <= y@.len(),
            x@ == encode_utf8(a@),
            y@ == encode_utf8(b@),
            bytes_le(x@, y@) == bytes_le(x@.skip(i as int), y@.skip(i as int)),
        decreases x.len() - i,
    {
        if x[i] != y[i] {
            return x[i] < y[i];
        }
        assert(x@.skip(i as int).drop_first() =~= x@.skip(i + 1));
        assert(y@.skip(i as int).drop_first() =~= y@.skip(i + 1));
        i = i + 1;
    }
    i == x.len()
}

/// The strings, sorted in the order of their bytes.
pub fn sort_texts(v: Vec<String>) -> (r: Vec<String>)
    ensures
        r.deep_view().to_multiset() == v.deep_view().to_multiset(),
        sorted_texts(r.deep_view()),
{
    broadcast use vstd::seq_lib::group_to_multiset_ensures;

    let ghost items = v.deep_view();
    let mut sorted: Vec<String> = Vec::new();
    let mut i: usize = 0;
    assert(items.take(0) =~= Seq::<Seq<char>>::empty());
    assert(sorted.deep_view() =~= Seq::<Seq<char>>::empty());
    while i < v.len()
        invariant
            i <= v.len(),
            items == v.deep_view(),
            sorted_texts(sorted.deep_view()),
            sorted.deep_view().to_multiset() == items.take(i as int).to_multiset(),
        decreases v.len() - i,
    {
        let item = v[i].clone();
        let ghost before = sorted.deep_view();
        let mut pos: usize = 0;
        while pos < sorted.len()
            invariant
                pos <= sorted.len(),
                before == sorted.deep_view(),
                forall|j: int| 0 <= j < pos ==> text_le(#[trigger] before[j], item@),
            ensures
                pos <= sorted.len(),
                forall|j: int| 0 <= j < pos ==> text_le(#[trigger] before[j], item@),
                pos < sorted.len() ==> !text_le(before[pos as int], item@),
            decreases sorted.len() - pos,
        {
            if !text_le_exec(sorted[pos].as_str(), item.as_str()) {
                break;
            }
            pos = pos + 1;
        }
        proof {
            if pos < before.len() {
                lemma_bytes_le_total(encode_utf8(before[pos as int]), encode_utf8(item@));
            }
        }
        sorted.insert(pos, item);
        proof {
            let now = sorted.deep_view();
            assert(now =~= before.insert(pos as int, v@[i as int]@));
            assert(items.take(i + 1) =~= items.take(i as int).push(items[i as int]));
            assert(items[i as int] == v@[i as int]@);
            vstd::seq_lib::to_multiset_insert(before, pos as int, v@[i as int]@);
            vstd::seq_lib::to_multiset_build(items.take(i as int), items[i as int]);
            assert forall|a: int, b: int| 0 <= a < b < now.len() implies text_le(
                #[trigger] now[a],
                #[trigger] now[b],
            ) by {
                let x = v@[i as int]@;
                if a < pos && b == pos {
                    assert(now[a] == before[a]);
                } else if a == pos {
                    assert(now[b] == before[b - 1]);
                    assert(text_le(x, before[pos as int]));
                    if b - 1 > pos {
                        assert(text_le(before[pos as int], before[b - 1]));
                        lemma_bytes_le_transitive(
                            encode_utf8(x),
                            encode_utf8(before[pos as int]),
                            encode_utf8(before[b - 1]),
                        );
                    }
                } else if b < pos {
                    assert(now[a] == before[a] && now[b] == before[b]);
                } else if a < pos {
                    assert(now[a] == before[a] && now[b] == before[b - 1]);
                } else {
                    assert(now[a] == before[a - 1] && now[b] == before[b - 1]);
                }
            }
        }
        i = i + 1;
    }
    assert(items.take(v.len() as int) =~= items);
    sorted
}

} // verus!
