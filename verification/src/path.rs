//! Paths as byte strings.
//!
//! A path is a sequence of bytes in which `/` separates the components. The
//! part after the last `/` is the final component. It is a file name unless
//! it is empty, `.` or `..`. A file name has an extension when it holds a `.`
//! that is not its first byte: the extension is what follows the last `.`.

use vstd::prelude::*;
use vstd::slice::slice_subrange;
use crate::bytes::{append, head, starts_with, tail};
use crate::error::{Error, Fault};

verus! {

/// The byte `/`, which separates components.
pub const SEPARATOR: u8 = 47;

/// The byte `.`, which introduces an extension.
pub const DOT: u8 = 46;

/// The index of the last `b` in `s`, or -1 where `s` holds none.
pub open spec fn last_index_of(s: Seq<u8>, b: u8) -> int
    decreases s.len(),
{
    if s.len() == 0 {
        -1
    } else if s.last() == b {
        s.len() - 1
    } else {
        last_index_of(s.drop_last(), b)
    }
}

/// `last_index_of` returns a position of `b` after which no `b` follows.
pub proof fn lemma_last_index_of(s: Seq<u8>, b: u8)
    ensures
        -1 <= last_index_of(s, b) < s.len(),
        last_index_of(s, b) >= 0 ==> s[last_index_of(s, b)] == b,
        forall|i: int| last_index_of(s, b) < i < s.len() ==> s[i] != b,
    decreases s.len(),
{
    if s.len() > 0 && s.last() != b {
        let t = s.drop_last();
        lemma_last_index_of(t, b);
        assert forall|i: int| last_index_of(s, b) < i < s.len() implies s[i] != b by {
            if i < t.len() {
                assert(t[i] == s[i]);
            }
        }
    }
}

/// A position of `b` after which no `b` follows is what `last_index_of` returns.
pub proof fn lemma_last_index_unique(s: Seq<u8>, b: u8, r: int)
    requires
        -1 <= r < s.len(),
        r >= 0 ==> s[r] == b,
        forall|i: int| r < i < s.len() ==> s[i] != b,
    ensures
        last_index_of(s, b) == r,
{
    lemma_last_index_of(s, b);
}

/// Finds the last `b` in `s`.
pub fn find_last(s: &[u8], b: u8) -> (r: Option<usize>)
    ensures
        match r {
            Some(i) => last_index_of(s@, b) == i && i < s@.len(),
            None => last_index_of(s@, b) == -1,
        },
{
    let mut i: usize = s.len();
    while i > 0
        invariant
            i <= s.len(),
            forall|j: int| i <= j < s.len() ==> s@[j] != b,
        decreases i,
    {
        i -= 1;
        if s[i] == b {
            proof {
                lemma_last_index_unique(s@, b, i as int);
            }
            return Some(i);
        }
    }
    proof {
        lemma_last_index_unique(s@, b, -1);
    }
    None
}

/// `path`, a `.` and `ext`, one after the other.
pub open spec fn appended_extension(path: Seq<u8>, ext: Seq<u8>) -> Seq<u8> {
    path + seq![DOT] + ext
}

/// Appends `.` and `ext` to `path`, whatever `path` ends in.
pub fn add_extension(path: Vec<u8>, ext: &[u8]) -> (r: Vec<u8>)
    ensures
        r@ == appended_extension(path@, ext@),
{
    let mut out = path;
    out.push(DOT);
    append(&mut out, ext);
    out
}

/// `s` without the separators it starts with.
pub open spec fn skip_separators(s: Seq<u8>) -> Seq<u8>
    decreases s.len(),
{
    if s.len() > 0 && s[0] == SEPARATOR {
        skip_separators(s.skip(1))
    } else {
        s
    }
}

/// What is left of `path` below `root`, or `None` where `path` does not lie
/// under `root`.
///
/// An empty `root` holds every path. Any other `root` holds `path` when
/// `path` starts with the bytes of `root` and these end at a component
/// boundary: `root` ends in a separator, or `path` ends there or goes on with
/// one. The separators between the two are dropped.
pub open spec fn relative_to(path: Seq<u8>, root: Seq<u8>) -> Option<Seq<u8>> {
    if root.len() == 0 {
        Some(path)
    } else if !root.is_prefix_of(path) {
        None
    } else {
        let rest = path.skip(root.len() as int);
        if rest.len() == 0 || root.last() == SEPARATOR || rest[0] == SEPARATOR {
            Some(skip_separators(rest))
        } else {
            None
        }
    }
}

/// `rel` placed under `base`: a `rel` that starts with a separator stands
/// for itself, any other is put behind `base` with one separator in between.
pub open spec fn joined(base: Seq<u8>, rel: Seq<u8>) -> Seq<u8> {
    if rel.len() > 0 && rel[0] == SEPARATOR {
        rel
    } else if base.len() == 0 || base.last() == SEPARATOR {
        base + rel
    } else {
        base + seq![SEPARATOR] + rel
    }
}

/// Where the file `item` of the tree `in_dir` goes in the tree `out_dir`.
pub open spec fn mirrored(out_dir: Seq<u8>, in_dir: Seq<u8>, item: Seq<u8>) -> Option<Seq<u8>> {
    match relative_to(item, in_dir) {
        Some(rel) => Some(joined(out_dir, rel)),
        None => None,
    }
}

/// Strips `root` from the front of `path`.
pub fn strip_prefix(path: &[u8], root: &[u8]) -> (r: Result<Vec<u8>, Error>)
    ensures
        match r {
            Ok(rel) => relative_to(path@, root@) == Some(rel@),
            Err(e) => e is StripPrefixError && relative_to(path@, root@).is_none(),
        },
{
    if root.len() == 0 {
        let rel = tail(path, 0);
        assert(path@.skip(0) == path@);
        return Ok(rel);
    }
    if !starts_with(path, root) {
        return Err(Error::StripPrefixError);
    }
    let n = root.len();
    if n < path.len() && root[n - 1] != SEPARATOR && path[n] != SEPARATOR {
        return Err(Error::StripPrefixError);
    }
    let ghost rest = path@.skip(n as int);
    let mut i: usize = n;
    while i < path.len() && path[i] == SEPARATOR
        invariant
            n <= i <= path.len(),
            skip_separators(rest) == skip_separators(path@.skip(i as int)),
        decreases path.len() - i,
    {
        proof {
            assert(path@.skip(i as int).skip(1) == path@.skip(i + 1));
        }
        i += 1;
    }
    Ok(tail(path, i))
}

/// Places `rel` under `base`.
pub fn join(base: &[u8], rel: &[u8]) -> (r: Vec<u8>)
    ensures
        r@ == joined(base@, rel@),
{
    let mut out: Vec<u8> = Vec::new();
    if rel.len() > 0 && rel[0] == SEPARATOR {
        append(&mut out, rel);
        return out;
    }
    append(&mut out, base);
    if base.len() > 0 && base[base.len() - 1] != SEPARATOR {
        out.push(SEPARATOR);
    }
    append(&mut out, rel);
    out
}

/// Mirrors the file `item` of the tree `in_dir` into the tree `out_dir`.
pub fn destination(out_dir: &[u8], in_dir: &[u8], item: &[u8]) -> (r: Result<Vec<u8>, Error>)
    ensures
        match r {
            Ok(dest) => mirrored(out_dir@, in_dir@, item@) == Some(dest@),
            Err(e) => e is StripPrefixError && mirrored(out_dir@, in_dir@, item@).is_none(),
        },
{
    match strip_prefix(item, in_dir) {
        Ok(rel) => Ok(join(out_dir, rel.as_slice())),
        Err(e) => Err(e),
    }
}

/// Where the final component of `path` starts: behind the last separator.
pub open spec fn name_start(path: Seq<u8>) -> int {
    last_index_of(path, SEPARATOR) + 1
}

/// What follows the last separator of `path`.
pub open spec fn final_component(path: Seq<u8>) -> Seq<u8> {
    path.skip(name_start(path))
}

/// Whether a component names a file: it is not empty, not `.` and not `..`.
pub open spec fn is_file_name(name: Seq<u8>) -> bool {
    name.len() > 0 && name != seq![DOT] && name != seq![DOT, DOT]
}

/// Whether the final component of `path` names a file.
pub open spec fn has_file_name(path: Seq<u8>) -> bool {
    is_file_name(final_component(path))
}

/// The index in `path` of the dot that introduces the extension, or -1 where
/// `path` has no extension: it has no file name, or the file name has no dot
/// behind its first byte.
pub open spec fn dot_index(path: Seq<u8>) -> int {
    let dot = last_index_of(final_component(path), DOT);
    if has_file_name(path) && dot > 0 {
        name_start(path) + dot
    } else {
        -1
    }
}

/// The extension of `path`: what follows the last dot of its file name.
pub open spec fn extension_of(path: Seq<u8>) -> Option<Seq<u8>> {
    if dot_index(path) >= 0 {
        Some(path.skip(dot_index(path) + 1))
    } else {
        None
    }
}

/// `path` up to the dot that introduces its extension, or all of it where
/// it has no extension.
pub open spec fn without_extension(path: Seq<u8>) -> Seq<u8> {
    if dot_index(path) >= 0 {
        path.take(dot_index(path))
    } else {
        path
    }
}

/// The file name of `path` without its extension.
pub open spec fn file_stem(path: Seq<u8>) -> Seq<u8> {
    without_extension(path).skip(name_start(path))
}

/// `path` with `ext` in place of its extension. A path without a file name
/// stays as it is, and an empty `ext` leaves no dot behind.
pub open spec fn replaced_extension(path: Seq<u8>, ext: Seq<u8>) -> Seq<u8> {
    if !has_file_name(path) {
        path
    } else if ext.len() == 0 {
        without_extension(path)
    } else {
        without_extension(path) + seq![DOT] + ext
    }
}

/// `path` with `extra` put between its file stem and its extension. A path
/// without an extension has no place for it, and a stem that is `.` or `..`
/// names no file.
pub open spec fn spliced(path: Seq<u8>, extra: Seq<u8>) -> Result<Seq<u8>, Fault> {
    match extension_of(path) {
        None => Err(Fault::NoExtension),
        Some(ext) => if is_file_name(file_stem(path)) {
            Ok(without_extension(path) + extra + seq![DOT] + ext)
        } else {
            Err(Fault::NoFileName)
        },
    }
}

/// Splicing keeps the place of the extension: where `extra` holds no
/// separator and `spliced(path, extra)` is some path, that path has a file
/// name, the extension of `path`, and in front of it `path` without its
/// extension followed by `extra`.
pub proof fn lemma_spliced_shape(path: Seq<u8>, extra: Seq<u8>)
    requires
        !extra.contains(SEPARATOR),
        spliced(path, extra) is Ok,
    ensures
        has_file_name(spliced(path, extra)->Ok_0),
        extension_of(spliced(path, extra)->Ok_0) == extension_of(path),
        without_extension(spliced(path, extra)->Ok_0) == without_extension(path) + extra,
{
    let q = spliced(path, extra)->Ok_0;
    let d = dot_index(path);
    let ns = name_start(path);
    let name = final_component(path);
    let front = path.take(d);
    let ext = path.skip(d + 1);
    lemma_last_index_of(path, SEPARATOR);
    lemma_last_index_of(name, DOT);
    assert(q == front + extra + seq![DOT] + ext);
    assert(q.len() == front.len() + extra.len() + 1 + ext.len());
    assert forall|i: int| 0 <= i < q.len() implies q[i] == (if i < d {
        path[i]
    } else if i < d + extra.len() {
        extra[i - d]
    } else if i == d + extra.len() {
        DOT
    } else {
        path[i - extra.len()]
    }) by {}
    // Behind the dot of `path` stands neither a dot nor a separator.
    assert forall|i: int| d < i < path.len() implies path[i] != DOT && path[i] != SEPARATOR by {
        assert(name[i - ns] == path[i]);
    }
    assert forall|i: int| ns <= i < path.len() implies path[i] != SEPARATOR by {}
    // The last separator of the new path is that of `path`.
    assert(last_index_of(q, SEPARATOR) == ns - 1) by {
        assert forall|i: int| ns - 1 < i < q.len() implies q[i] != SEPARATOR by {
            if d <= i < d + extra.len() {
                assert(extra.contains(extra[i - d]));
            }
        }
        lemma_last_index_unique(q, SEPARATOR, ns - 1);
    }
    let new_name = final_component(q);
    assert(new_name == q.skip(ns));
    let dot = d + extra.len() - ns;
    assert(last_index_of(new_name, DOT) == dot) by {
        assert(new_name[dot] == q[d + extra.len()]);
        assert forall|i: int| dot < i < new_name.len() implies new_name[i] != DOT by {
            assert(new_name[i] == q[i + ns]);
        }
        lemma_last_index_unique(new_name, DOT, dot);
    }
    assert(is_file_name(new_name)) by {
        let stem = file_stem(path);
        assert(stem == front.skip(ns));
        assert(stem.len() > 0);
        assert(new_name[0] == stem[0]);
        assert(new_name[dot] == DOT);
        if new_name == seq![DOT, DOT] {
            assert(new_name.len() == 2);
            assert(stem.len() == 1);
            assert(stem[0] == seq![DOT, DOT][0]);
            assert(stem =~= seq![DOT]);
        }
        if new_name == seq![DOT] {
            assert(new_name.len() == 1);
        }
    }
    assert(dot_index(q) == d + extra.len());
    assert(q.skip(d + extra.len() + 1) =~= ext);
    assert(q.take(d + extra.len()) =~= front + extra);
}

/// Replacing the extension of a path that has a file name puts a dot and
/// the new extension behind the path without its extension.
pub proof fn lemma_replaced_shape(path: Seq<u8>, ext: Seq<u8>)
    requires
        has_file_name(path),
        ext.len() > 0,
    ensures
        replaced_extension(path, ext) == without_extension(path) + seq![DOT] + ext,
{
}

/// What follows a separator has the final component of the whole.
pub proof fn lemma_final_component_of_suffix(s: Seq<u8>, from: int)
    requires
        0 <= from <= s.len(),
        from == 0 || s[from - 1] == SEPARATOR,
    ensures
        final_component(s.skip(from)) == final_component(s),
{
    lemma_last_index_of(s, SEPARATOR);
    let last = last_index_of(s, SEPARATOR);
    let t = s.skip(from);
    if last >= from {
        assert(t[last - from] == s[last]);
        assert forall|i: int| last - from < i < t.len() implies t[i] != SEPARATOR by {
            assert(t[i] == s[i + from]);
        }
        lemma_last_index_unique(t, SEPARATOR, last - from);
        assert(t.skip(last - from + 1) =~= s.skip(last + 1));
    } else {
        assert forall|i: int| 0 <= i < t.len() implies t[i] != SEPARATOR by {
            assert(t[i] == s[i + from]);
        }
        lemma_last_index_unique(t, SEPARATOR, -1);
        assert(last == from - 1);
        assert(t.skip(0) =~= s.skip(last + 1));
    }
}

/// Behind nothing, and behind bytes that end in a separator, a path keeps
/// its final component.
pub proof fn lemma_final_component_of_concat(front: Seq<u8>, path: Seq<u8>)
    requires
        front.len() == 0 || front.last() == SEPARATOR,
    ensures
        final_component(front + path) == final_component(path),
{
    let whole = front + path;
    if front.len() > 0 {
        assert(whole[front.len() - 1] == front.last());
    }
    lemma_final_component_of_suffix(whole, front.len() as int);
    assert(whole.skip(front.len() as int) =~= path);
}

/// The number of separators that `s` starts with.
pub open spec fn leading_separators(s: Seq<u8>) -> nat
    decreases s.len(),
{
    if s.len() > 0 && s[0] == SEPARATOR {
        1 + leading_separators(s.skip(1))
    } else {
        0
    }
}

/// `skip_separators` drops the separators that stand in front, and no more.
pub proof fn lemma_skip_separators(s: Seq<u8>)
    ensures
        leading_separators(s) <= s.len(),
        skip_separators(s) == s.skip(leading_separators(s) as int),
        forall|i: int| 0 <= i < leading_separators(s) ==> s[i] == SEPARATOR,
        leading_separators(s) < s.len() ==> s[leading_separators(s) as int] != SEPARATOR,
    decreases s.len(),
{
    if s.len() > 0 && s[0] == SEPARATOR {
        let t = s.skip(1);
        lemma_skip_separators(t);
        let k = leading_separators(t) as int;
        assert(t.skip(k) =~= s.skip(k + 1));
        assert forall|i: int| 0 <= i < k + 1 implies s[i] == SEPARATOR by {
            if i > 0 {
                assert(t[i - 1] == s[i]);
            }
        }
        if k + 1 < s.len() {
            assert(t[k] == s[k + 1]);
        }
    } else {
        assert(s.skip(0) =~= s);
    }
}

/// Whether a path has a file name, and which extension, is a matter of its
/// final component alone.
pub proof fn lemma_extension_by_name(a: Seq<u8>, b: Seq<u8>)
    requires
        final_component(a) == final_component(b),
    ensures
        has_file_name(a) == has_file_name(b),
        extension_of(a) == extension_of(b),
        file_stem(a) == file_stem(b),
{
    let name = final_component(a);
    lemma_last_index_of(a, SEPARATOR);
    lemma_last_index_of(b, SEPARATOR);
    lemma_last_index_of(name, DOT);
    let dot = last_index_of(name, DOT);
    if has_file_name(a) && dot > 0 {
        assert(a.skip(name_start(a) + dot + 1) =~= name.skip(dot + 1));
        assert(b.skip(name_start(b) + dot + 1) =~= name.skip(dot + 1));
        assert(a.take(name_start(a) + dot).skip(name_start(a)) =~= name.take(dot));
        assert(b.take(name_start(b) + dot).skip(name_start(b)) =~= name.take(dot));
    }
}

/// Mirroring keeps the file name: a file that lies below the input root, and
/// is not the root itself, has at its destination the final component that
/// it has in the input tree, and with it the same extension.
pub proof fn law_mirrored_keeps_name(out_dir: Seq<u8>, in_dir: Seq<u8>, item: Seq<u8>)
    requires
        mirrored(out_dir, in_dir, item) is Some,
        has_file_name(item),
        item != in_dir,
    ensures
        final_component(mirrored(out_dir, in_dir, item)->Some_0) == final_component(item),
        has_file_name(mirrored(out_dir, in_dir, item)->Some_0),
        extension_of(mirrored(out_dir, in_dir, item)->Some_0) == extension_of(item),
{
    let rel = relative_to(item, in_dir)->Some_0;
    let dest = joined(out_dir, rel);
    assert(final_component(rel) == final_component(item)) by {
        if in_dir.len() > 0 {
            let n = in_dir.len() as int;
            let rest = item.skip(n);
            lemma_skip_separators(rest);
            let k = leading_separators(rest) as int;
            assert(rel == rest.skip(k));
            assert(rest.skip(k) =~= item.skip(n + k));
            if rest.len() == 0 {
                assert(item =~= in_dir);
            }
            if k > 0 {
                assert(rest[k - 1] == item[n + k - 1]);
            } else {
                assert(rest[0] != SEPARATOR);
                assert(in_dir.last() == SEPARATOR);
                assert(item[n - 1] == in_dir[n - 1]);
            }
            lemma_final_component_of_suffix(item, n + k);
        }
    }
    assert(final_component(dest) == final_component(rel)) by {
        if rel.len() > 0 && rel[0] == SEPARATOR {
        } else if out_dir.len() == 0 || out_dir.last() == SEPARATOR {
            lemma_final_component_of_concat(out_dir, rel);
        } else {
            lemma_final_component_of_concat(out_dir + seq![SEPARATOR], rel);
        }
    }
    lemma_extension_by_name(dest, item);
}

/// Whether `name` names a file.
fn names_file(name: &[u8]) -> (r: bool)
    ensures
        r == is_file_name(name@),
{
    if name.len() == 0 {
        return false;
    }
    if name.len() == 1 && name[0] == DOT {
        assert(name@ =~= seq![DOT]);
        return false;
    }
    if name.len() == 2 && name[0] == DOT && name[1] == DOT {
        assert(name@ =~= seq![DOT, DOT]);
        return false;
    }
    proof {
        if name@ == seq![DOT] {
            assert(name@.len() == 1 && name@[0] == DOT);
        }
        if name@ == seq![DOT, DOT] {
            assert(name@.len() == 2 && name@[0] == DOT && name@[1] == DOT);
        }
    }
    true
}

/// Finds where the final component of `path` starts and, where `path` has
/// an extension, the dot that introduces it.
pub fn split(path: &[u8]) -> (r: (usize, Option<usize>))
    ensures
        r.0 == name_start(path@),
        r.0 <= path@.len(),
        match r.1 {
            Some(dot) => dot_index(path@) == dot && r.0 < dot < path@.len(),
            None => dot_index(path@) == -1,
        },
{
    proof {
        lemma_last_index_of(path@, SEPARATOR);
    }
    let len = path.len();
    let start: usize = match find_last(path, SEPARATOR) {
        Some(i) => i + 1,
        None => 0,
    };
    let name = slice_subrange(path, start, len);
    assert(name@ == final_component(path@));
    proof {
        lemma_last_index_of(name@, DOT);
    }
    if !names_file(name) {
        return (start, None);
    }
    match find_last(name, DOT) {
        Some(dot) => if dot > 0 {
            (start, Some(start + dot))
        } else {
            (start, None)
        },
        None => (start, None),
    }
}

/// The extension of `path`, if it has one.
pub fn extension(path: &[u8]) -> (r: Option<Vec<u8>>)
    ensures
        match r {
            Some(ext) => extension_of(path@) == Some(ext@),
            None => extension_of(path@).is_none(),
        },
{
    let len = path.len();
    let (_, dot) = split(path);
    match dot {
        Some(dot) => Some(tail(path, dot + 1)),
        None => None,
    }
}

/// Puts `ext` in the place of the extension of `path`.
pub fn with_extension(path: &[u8], ext: &[u8]) -> (r: Vec<u8>)
    ensures
        r@ == replaced_extension(path@, ext@),
{
    let (start, dot) = split(path);
    let name = slice_subrange(path, start, path.len());
    assert(name@ == final_component(path@));
    if !names_file(name) {
        let out = head(path, path.len());
        assert(path@.take(path@.len() as int) == path@);
        return out;
    }
    let mut out = match dot {
        Some(d) => head(path, d),
        None => {
            assert(path@.take(path@.len() as int) == path@);
            head(path, path.len())
        },
    };
    if ext.len() > 0 {
        out.push(DOT);
        append(&mut out, ext);
    }
    out
}

/// Puts `extra_text` between the file stem of `path` and its extension.
pub fn gen_path(path: &[u8], extra_text: &[u8]) -> (r: Result<Vec<u8>, Error>)
    ensures
        match r {
            Ok(out) => spliced(path@, extra_text@) == Ok::<Seq<u8>, Fault>(out@),
            Err(e) => spliced(path@, extra_text@) == Err::<Seq<u8>, Fault>(e.fault()),
        },
{
    let (start, dot) = split(path);
    let dot = match dot {
        Some(d) => d,
        None => {
            return Err(Error::NoExtension);
        },
    };
    let stem = slice_subrange(path, start, dot);
    assert(stem@ == file_stem(path@));
    if !names_file(stem) {
        return Err(Error::NoFileName);
    }
    let mut out = head(path, dot);
    append(&mut out, extra_text);
    out.push(DOT);
    let len = path.len();
    let ext = slice_subrange(path, dot + 1, len);
    assert(ext@ == path@.skip(dot + 1));
    append(&mut out, ext);
    assert(out@ == without_extension(path@) + extra_text@ + seq![DOT] + ext@);
    Ok(out)
}

} // verus!
