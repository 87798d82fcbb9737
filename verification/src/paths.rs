//! Byte-string path model and the pipeline's naming rules.
//!
//! Paths are byte strings with `/` as the separator and are given without a
//! trailing separator. The file name is the portion after the last
//! separator; the extension is the portion of the file name after its last
//! dot, except that a dot leading the file name starts no extension. These
//! conventions follow the platform path library the surrounding program
//! uses.
//!
//! The naming rules here decide every output path of a run: the
//! `__optimized` sibling of a directory or file in safe-copy mode, the
//! derived-format sibling (`.webp`, `.avif`) of a processed file, and the
//! join used while mirroring a tree.

use vstd::prelude::*;

use crate::exts::supported_ext;

verus! {

/// ASCII code of `/`, the path separator.
pub const SEP: u8 = 47;

/// ASCII code of `.`.
pub const DOT: u8 = 46;

/// Index of the last occurrence of `c` in `s`, or `-1` when `s` holds none.
pub open spec fn last_pos(s: Seq<u8>, c: u8) -> int
    decreases s.len(),
{
    if s.len() == 0 {
        -1
    } else if s[s.len() - 1] == c {
        s.len() - 1
    } else {
        last_pos(s.drop_last(), c)
    }
}

/// `last_pos` stays in range, lands on `c`, and nothing after it is `c`.
pub proof fn lemma_last_pos(s: Seq<u8>, c: u8)
    ensures
        -1 <= last_pos(s, c) < s.len(),
        last_pos(s, c) >= 0 ==> s[last_pos(s, c)] == c,
        forall|i: int| last_pos(s, c) < i < s.len() ==> s[i] != c,
    decreases s.len(),
{
    if s.len() > 0 && s[s.len() - 1] != c {
        lemma_last_pos(s.drop_last(), c);
        assert forall|i: int| last_pos(s, c) < i < s.len() implies s[i] != c by {
            if i < s.len() - 1 {
                assert(s.drop_last()[i] == s[i]);
            }
        }
    }
}

/// A position holding `c` with no later occurrence is `last_pos`.
pub proof fn lemma_last_pos_is(s: Seq<u8>, c: u8, i: int)
    requires
        0 <= i < s.len(),
        s[i] == c,
        forall|j: int| i < j < s.len() ==> s[j] != c,
    ensures
        last_pos(s, c) == i,
    decreases s.len(),
{
    if i < s.len() - 1 {
        assert(s[s.len() - 1] != c);
        assert forall|j: int| i < j < s.drop_last().len() implies s.drop_last()[j] != c by {
            assert(s.drop_last()[j] == s[j]);
        }
        lemma_last_pos_is(s.drop_last(), c, i);
    }
}

/// `last_pos` within the suffix `s[start..]`, related to `last_pos` in `s`.
pub proof fn lemma_last_pos_suffix(s: Seq<u8>, start: int, c: u8)
    requires
        0 <= start <= s.len(),
    ensures
        last_pos(s, c) >= start ==> last_pos(s.subrange(start, s.len() as int), c) == last_pos(
            s,
            c,
        ) - start,
        last_pos(s, c) < start ==> last_pos(s.subrange(start, s.len() as int), c) == -1,
{
    let n = s.subrange(start, s.len() as int);
    lemma_last_pos(s, c);
    if last_pos(s, c) >= start {
        assert(n[last_pos(s, c) - start] == c);
        assert forall|j: int| last_pos(s, c) - start < j < n.len() implies n[j] != c by {
            assert(n[j] == s[j + start]);
        }
        lemma_last_pos_is(n, c, last_pos(s, c) - start);
    } else {
        lemma_last_pos(n, c);
        if last_pos(n, c) >= 0 {
            assert(s[last_pos(n, c) + start] == c);
        }
    }
}

/// Appending bytes free of `c` leaves the last occurrence of `c` alone.
proof fn lemma_last_pos_append_free(x: Seq<u8>, y: Seq<u8>, c: u8)
    requires
        forall|i: int| 0 <= i < y.len() ==> y[i] != c,
    ensures
        last_pos(x + y, c) == last_pos(x, c),
{
    lemma_last_pos(x, c);
    let q = x + y;
    if last_pos(x, c) >= 0 {
        assert(q[last_pos(x, c)] == c);
        assert forall|i: int| last_pos(x, c) < i < q.len() implies q[i] != c by {
            if i < x.len() {
                assert(q[i] == x[i]);
            } else {
                assert(q[i] == y[i - x.len()]);
            }
        }
        lemma_last_pos_is(q, c, last_pos(x, c));
    } else {
        lemma_last_pos(q, c);
        if last_pos(q, c) >= 0 {
            let m = last_pos(q, c);
            if m < x.len() {
                assert(x[m] == c);
            } else {
                assert(y[m - x.len()] == c);
            }
        }
    }
}

/// Cutting a sequence anywhere after the last occurrence of `c` leaves
/// that occurrence where it was.
proof fn lemma_last_pos_prefix(s: Seq<u8>, end: int, c: u8)
    requires
        0 <= end <= s.len(),
        last_pos(s, c) < end,
    ensures
        last_pos(s.subrange(0, end), c) == last_pos(s, c),
{
    lemma_last_pos(s, c);
    let x = s.subrange(0, end);
    if last_pos(s, c) >= 0 {
        assert(x[last_pos(s, c)] == c);
        assert forall|i: int| last_pos(s, c) < i < x.len() implies x[i] != c by {
            assert(x[i] == s[i]);
        }
        lemma_last_pos_is(x, c, last_pos(s, c));
    } else {
        lemma_last_pos(x, c);
        if last_pos(x, c) >= 0 {
            assert(s[last_pos(x, c)] == c);
        }
    }
}

/// The file-name portion: the bytes after the last separator.
pub open spec fn file_name_spec(p: Seq<u8>) -> Seq<u8> {
    p.subrange(last_pos(p, SEP) + 1, p.len() as int)
}

/// Index within the file name of the dot that starts the extension, or
/// `-1`: the file name's last dot, unless that dot is its leading byte.
pub open spec fn ext_dot_spec(name: Seq<u8>) -> int {
    if last_pos(name, DOT) > 0 {
        last_pos(name, DOT)
    } else {
        -1
    }
}

/// Whether the file name of `p` has an extension.
pub open spec fn has_extension_spec(p: Seq<u8>) -> bool {
    ext_dot_spec(file_name_spec(p)) >= 0
}

/// Index in `p` of the dot that starts the extension (meaningful only when
/// `has_extension_spec(p)` holds).
pub open spec fn ext_dot_abs(p: Seq<u8>) -> int {
    last_pos(p, SEP) + 1 + ext_dot_spec(file_name_spec(p))
}

/// The extension of `p`: the bytes of the file name after its dot.
pub open spec fn extension_spec(p: Seq<u8>) -> Seq<u8> {
    p.subrange(ext_dot_abs(p) + 1, p.len() as int)
}

/// Everything before the extension dot: directory part plus file stem.
pub open spec fn stem_spec(p: Seq<u8>) -> Seq<u8> {
    p.subrange(0, ext_dot_abs(p))
}

/// A path the scanner accepts: it has an extension, and a supported one.
pub open spec fn supported_file_spec(p: Seq<u8>) -> bool {
    has_extension_spec(p) && supported_ext(extension_spec(p))
}

/// When `p` has an extension, its dot lies strictly between the file-name
/// start and the end of `p`.
pub proof fn lemma_ext_dot_abs_range(p: Seq<u8>)
    requires
        has_extension_spec(p),
    ensures
        0 <= last_pos(p, SEP) + 1 <= ext_dot_abs(p) < p.len(),
        p[ext_dot_abs(p)] == DOT,
{
    lemma_last_pos(p, SEP);
    let start = last_pos(p, SEP) + 1;
    let name = file_name_spec(p);
    lemma_last_pos(name, DOT);
    assert(p[ext_dot_spec(name) + start] == name[ext_dot_spec(name)]);
}

/// Append `src[start..end]` to `dst`.
fn push_range(dst: &mut Vec<u8>, src: &Vec<u8>, start: usize, end: usize)
    requires
        start <= end <= src@.len(),
    ensures
        final(dst)@ == old(dst)@ + src@.subrange(start as int, end as int),
{
    let mut i: usize = start;
    proof {
        assert(dst@ =~= old(dst)@ + src@.subrange(start as int, start as int));
    }
    while i < end
        invariant
            start <= i <= end <= src@.len(),
            dst@ == old(dst)@ + src@.subrange(start as int, i as int),
        decreases end - i,
    {
        dst.push(src[i]);
        proof {
            assert(src@.subrange(start as int, i + 1 as int) =~= src@.subrange(
                start as int,
                i as int,
            ).push(src@[i as int]));
            assert(dst@ =~= old(dst)@ + src@.subrange(start as int, i + 1 as int));
        }
        i = i + 1;
    }
}

/// Find the last occurrence of `c` in `p`.
fn rfind(p: &Vec<u8>, c: u8) -> (r: Option<usize>)
    ensures
        match r {
            Some(i) => i < p@.len() && last_pos(p@, c) == i,
            None => last_pos(p@, c) == -1,
        },
{
    let mut i: usize = p.len();
    while i > 0
        invariant
            i <= p@.len(),
            forall|j: int| i <= j < p@.len() ==> p@[j] != c,
        decreases i,
    {
        i = i - 1;
        if p[i] == c {
            proof {
                lemma_last_pos_is(p@, c, i as int);
            }
            return Some(i);
        }
    }
    proof {
        lemma_last_pos(p@, c);
    }
    None
}

/// Start of the file-name portion of `p`.
fn file_name_start(p: &Vec<u8>) -> (s: usize)
    ensures
        s == last_pos(p@, SEP) + 1,
        s <= p@.len(),
{
    proof {
        lemma_last_pos(p@, SEP);
    }
    let len = p.len();
    match rfind(p, SEP) {
        Some(i) => {
            assert(i < len);
            i + 1
        },
        None => 0,
    }
}

/// The file name of `p`: the bytes after the last separator.
pub fn file_name_of(p: &Vec<u8>) -> (n: Vec<u8>)
    ensures
        n@ == file_name_spec(p@),
{
    let start = file_name_start(p);
    let mut n: Vec<u8> = Vec::new();
    push_range(&mut n, p, start, p.len());
    n
}

/// The extension of `p`, or `None` when its file name has none.
pub fn extension_of(p: &Vec<u8>) -> (e: Option<Vec<u8>>)
    ensures
        match e {
            Some(v) => has_extension_spec(p@) && v@ == extension_spec(p@),
            None => !has_extension_spec(p@),
        },
{
    let start = file_name_start(p);
    let len = p.len();
    proof {
        lemma_last_pos_suffix(p@, start as int, DOT);
    }
    match rfind(p, DOT) {
        Some(d) => {
            if d > start {
                assert(d < len);
                let mut e: Vec<u8> = Vec::new();
                push_range(&mut e, p, d + 1, len);
                Some(e)
            } else {
                None
            }
        },
        None => None,
    }
}

/// Whether the scanner accepts `p`: a supported extension, any ASCII case.
pub fn is_supported_file(p: &Vec<u8>) -> (b: bool)
    ensures
        b == supported_file_spec(p@),
{
    match extension_of(p) {
        Some(e) => crate::exts::ext_is_supported(e.as_slice()),
        None => false,
    }
}

/// Suffix marking safe-copy outputs: the bytes of `__optimized`.
pub open spec fn opt_suffix() -> Seq<u8> {
    seq![95u8, 95u8, 111u8, 112u8, 116u8, 105u8, 109u8, 105u8, 122u8, 101u8, 100u8]
}

/// Append `__optimized` to `v`.
fn push_opt_suffix(v: &mut Vec<u8>)
    ensures
        final(v)@ == old(v)@ + opt_suffix(),
{
    v.push(95);
    v.push(95);
    v.push(111);
    v.push(112);
    v.push(116);
    v.push(105);
    v.push(109);
    v.push(105);
    v.push(122);
    v.push(101);
    v.push(100);
    proof {
        assert(v@ =~= old(v)@ + opt_suffix());
    }
}

/// A byte-for-byte copy of `p`.
pub fn copy_bytes(p: &Vec<u8>) -> (r: Vec<u8>)
    ensures
        r@ == p@,
{
    let mut r: Vec<u8> = Vec::new();
    push_range(&mut r, p, 0, p.len());
    proof {
        assert(r@ =~= p@);
    }
    r
}

/// `<dir>__optimized`: the mirror directory's path in safe-copy mode.
pub open spec fn optimized_dir_spec(p: Seq<u8>) -> Seq<u8> {
    p + opt_suffix()
}

/// The safe-copy sibling of a directory.
pub fn optimized_dir_path(p: &Vec<u8>) -> (r: Vec<u8>)
    ensures
        r@ == optimized_dir_spec(p@),
{
    let mut r = copy_bytes(p);
    push_opt_suffix(&mut r);
    r
}

/// `<stem>__optimized.<ext>` beside the original file, or
/// `<path>__optimized` when its file name has no extension.
pub open spec fn optimized_file_spec(p: Seq<u8>) -> Seq<u8> {
    if has_extension_spec(p) {
        stem_spec(p) + opt_suffix() + seq![DOT] + extension_spec(p)
    } else {
        p + opt_suffix()
    }
}

/// The safe-copy sibling of a single input file.
pub fn optimized_file_path(p: &Vec<u8>) -> (r: Vec<u8>)
    ensures
        r@ == optimized_file_spec(p@),
{
    let start = file_name_start(p);
    let len = p.len();
    proof {
        lemma_last_pos_suffix(p@, start as int, DOT);
    }
    match rfind(p, DOT) {
        Some(d) => {
            if d > start {
                assert(d < len);
                let mut r: Vec<u8> = Vec::new();
                push_range(&mut r, p, 0, d);
                push_opt_suffix(&mut r);
                r.push(DOT);
                push_range(&mut r, p, d + 1, len);
                proof {
                    assert(r@ =~= optimized_file_spec(p@));
                }
                r
            } else {
                let mut r = copy_bytes(p);
                push_opt_suffix(&mut r);
                r
            }
        },
        None => {
            let mut r = copy_bytes(p);
            push_opt_suffix(&mut r);
            r
        },
    }
}

/// `p` with its extension replaced by `ext` (or `.ext` appended when the
/// file name has none): the naming rule for derived-format siblings.
pub open spec fn with_extension_spec(p: Seq<u8>, ext: Seq<u8>) -> Seq<u8> {
    if has_extension_spec(p) {
        stem_spec(p) + seq![DOT] + ext
    } else {
        p + seq![DOT] + ext
    }
}

/// The derived-format sibling of `p` carrying extension `ext`.
pub fn with_extension_path(p: &Vec<u8>, ext: &Vec<u8>) -> (r: Vec<u8>)
    ensures
        r@ == with_extension_spec(p@, ext@),
{
    let start = file_name_start(p);
    proof {
        lemma_last_pos_suffix(p@, start as int, DOT);
    }
    let mut r: Vec<u8>;
    match rfind(p, DOT) {
        Some(d) => {
            if d > start {
                r = Vec::new();
                push_range(&mut r, p, 0, d);
            } else {
                r = copy_bytes(p);
            }
        },
        None => {
            r = copy_bytes(p);
        },
    }
    r.push(DOT);
    push_range(&mut r, ext, 0, ext.len());
    proof {
        assert(r@ =~= with_extension_spec(p@, ext@));
    }
    r
}

/// `dir/name` (or `name` alone under an empty directory): the join used
/// while mirroring a tree.
pub open spec fn join_spec(dir: Seq<u8>, name: Seq<u8>) -> Seq<u8> {
    if dir.len() == 0 {
        name
    } else {
        dir + seq![SEP] + name
    }
}

/// Join a directory path and an entry name.
pub fn join_path(dir: &Vec<u8>, name: &Vec<u8>) -> (r: Vec<u8>)
    ensures
        r@ == join_spec(dir@, name@),
{
    if dir.len() == 0 {
        copy_bytes(name)
    } else {
        let mut r = copy_bytes(dir);
        r.push(SEP);
        push_range(&mut r, name, 0, name.len());
        proof {
            assert(r@ =~= join_spec(dir@, name@));
        }
        r
    }
}

/// A path assembled as `head` + `.` + `tail`, where `tail` holds no dot
/// and no separator and `head` reaches past its own last separator, has
/// extension exactly `tail`.
proof fn lemma_dotted_tail_extension(head: Seq<u8>, tail: Seq<u8>)
    requires
        forall|i: int| 0 <= i < tail.len() ==> tail[i] != DOT && tail[i] != SEP,
        last_pos(head, SEP) + 1 < head.len(),
    ensures
        has_extension_spec(head + seq![DOT] + tail),
        extension_spec(head + seq![DOT] + tail) == tail,
{
    let q = head + seq![DOT] + tail;
    let lp = last_pos(head, SEP);
    lemma_last_pos(head, SEP);
    assert(forall|i: int| 0 <= i < seq![DOT].len() ==> seq![DOT][i] != SEP);
    lemma_last_pos_append_free(head, seq![DOT], SEP);
    lemma_last_pos_append_free(head + seq![DOT], tail, SEP);
    assert(last_pos(q, SEP) == lp);
    assert((head + seq![DOT])[head.len() as int] == DOT);
    assert(last_pos(head + seq![DOT], DOT) == head.len());
    lemma_last_pos_append_free(head + seq![DOT], tail, DOT);
    assert(last_pos(q, DOT) == head.len());
    lemma_last_pos_suffix(q, lp + 1, DOT);
    assert(last_pos(file_name_spec(q), DOT) == head.len() - (lp + 1));
    assert(ext_dot_abs(q) == head.len());
    assert(extension_spec(q) =~= tail);
}

/// The derived sibling carries exactly the requested extension, provided
/// the new extension holds no dot or separator and the path has a
/// non-empty file name.
pub proof fn lemma_with_extension_gives_extension(p: Seq<u8>, ext: Seq<u8>)
    requires
        forall|i: int| 0 <= i < ext.len() ==> ext[i] != DOT && ext[i] != SEP,
        last_pos(p, SEP) + 1 < p.len(),
    ensures
        has_extension_spec(with_extension_spec(p, ext)),
        extension_spec(with_extension_spec(p, ext)) == ext,
{
    lemma_last_pos(p, SEP);
    if has_extension_spec(p) {
        lemma_ext_dot_abs_range(p);
        let a = ext_dot_abs(p);
        lemma_last_pos_prefix(p, a, SEP);
        assert(last_pos(stem_spec(p), SEP) == last_pos(p, SEP));
        assert(ext_dot_spec(file_name_spec(p)) > 0);
        lemma_dotted_tail_extension(stem_spec(p), ext);
    } else {
        lemma_dotted_tail_extension(p, ext);
    }
}

/// The bytes of `__optimized` hold no dot and no separator.
proof fn lemma_opt_suffix_plain()
    ensures
        forall|i: int| 0 <= i < opt_suffix().len() ==> opt_suffix()[i] != DOT && opt_suffix()[i]
            != SEP,
{
}

/// The safe-copy sibling of a file keeps the file's extension: the
/// `__optimized` insertion lands before the extension dot.
pub proof fn lemma_optimized_file_keeps_extension(p: Seq<u8>)
    requires
        has_extension_spec(p),
    ensures
        has_extension_spec(optimized_file_spec(p)),
        extension_spec(optimized_file_spec(p)) == extension_spec(p),
{
    lemma_last_pos(p, SEP);
    lemma_ext_dot_abs_range(p);
    let a = ext_dot_abs(p);
    let lp = last_pos(p, SEP);
    let name = file_name_spec(p);
    let head = stem_spec(p) + opt_suffix();
    let tail = extension_spec(p);
    lemma_last_pos(name, DOT);
    assert forall|i: int| 0 <= i < tail.len() implies tail[i] != DOT && tail[i] != SEP by {
        assert(tail[i] == p[a + 1 + i]);
        assert(name[a - lp + i] == p[a + 1 + i]);
    }
    lemma_last_pos_prefix(p, a, SEP);
    lemma_opt_suffix_plain();
    lemma_last_pos_append_free(stem_spec(p), opt_suffix(), SEP);
    assert(last_pos(head, SEP) == lp);
    assert(head.len() == a + 11);
    lemma_dotted_tail_extension(head, tail);
}

/// A supported file's safe-copy sibling is itself supported: the copy can
/// be scanned and processed in the original's stead.
pub proof fn lemma_optimized_file_stays_supported(p: Seq<u8>)
    requires
        supported_file_spec(p),
    ensures
        supported_file_spec(optimized_file_spec(p)),
{
    lemma_optimized_file_keeps_extension(p);
}

/// Safe-copy output names are never the input path itself: both carry
/// eleven extra bytes.
pub proof fn lemma_optimized_names_differ(p: Seq<u8>)
    ensures
        optimized_dir_spec(p) != p,
        optimized_file_spec(p) != p,
        optimized_dir_spec(p).len() == p.len() + 11,
        optimized_file_spec(p).len() == p.len() + 11,
{
    assert(opt_suffix().len() == 11);
    if has_extension_spec(p) {
        lemma_ext_dot_abs_range(p);
        assert(stem_spec(p).len() == ext_dot_abs(p));
        assert(extension_spec(p).len() == p.len() - ext_dot_abs(p) - 1);
        assert(optimized_file_spec(p).len() == p.len() + 11);
    }
}

} // verus!
