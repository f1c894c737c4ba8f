//! Paths as text, read the way `std::path` reads them on Unix: `/` separates
//! components, empty and `.` components vanish (a leading `.` of a relative
//! path stays), and a leading `/` makes a path absolute.
use crate::text::{
    append_chars, chars_eq, chars_of, join, join_pieces, pieces, split_pieces, string_of, views,
    Separator,
};
use vstd::prelude::*;

verus! {

pub open spec fn absolute(p: Seq<char>) -> bool {
    p.len() > 0 && p[0] == '/'
}

/// Whether a relative path starts with a `.` component (`.` or `./…`).
pub open spec fn leading_dot(p: Seq<char>) -> bool {
    !absolute(p) && p.len() >= 1 && p[0] == '.' && (p.len() == 1 || p[1] == '/')
}

pub open spec fn is_name(x: Seq<char>) -> bool {
    x.len() > 0 && x != seq!['.']
}

pub open spec fn keep_names(ps: Seq<Seq<char>>) -> Seq<Seq<char>>
    decreases ps.len(),
{
    if ps.len() == 0 {
        ps
    } else if is_name(ps.last()) {
        keep_names(ps.drop_last()).push(ps.last())
    } else {
        keep_names(ps.drop_last())
    }
}

/// The named components of `p`, in order: the pieces between `/` that are
/// neither empty nor `.`.
pub open spec fn names(p: Seq<char>) -> Seq<Seq<char>> {
    keep_names(pieces(p, Separator::Slash))
}

/// A path written out from its parts.
pub open spec fn assemble(abs: bool, dot: bool, ns: Seq<Seq<char>>) -> Seq<char> {
    if abs {
        seq!['/'] + join(ns, seq!['/'])
    } else if dot {
        if ns.len() == 0 {
            seq!['.']
        } else {
            seq!['.', '/'] + join(ns, seq!['/'])
        }
    } else {
        join(ns, seq!['/'])
    }
}

/// `p` written out from its components, as collecting `Path::components`
/// into a `PathBuf` does.
pub open spec fn normalize(p: Seq<char>) -> Seq<char> {
    assemble(absolute(p), leading_dot(p), names(p))
}

/// `rel` joined onto `base`, as `Path::join` does it: an absolute `rel`
/// replaces `base`.
pub open spec fn join_path(base: Seq<char>, rel: Seq<char>) -> Seq<char> {
    if absolute(rel) || base.len() == 0 {
        rel
    } else if base.last() == '/' {
        base + rel
    } else {
        base + seq!['/'] + rel
    }
}

/// Whether `base` is a prefix of `p`, whole components only, as
/// `Path::starts_with` decides it.
pub open spec fn has_prefix(p: Seq<char>, base: Seq<char>) -> bool {
    &&& absolute(p) == absolute(base)
    &&& leading_dot(p) == leading_dot(base)
    &&& names(base).len() <= names(p).len()
    &&& names(p).take(names(base).len() as int) == names(base)
}

/// `p` relative to `base` when `base` is a prefix of it; else `p` itself.
pub open spec fn relative_to(p: Seq<char>, base: Seq<char>) -> Seq<char> {
    if has_prefix(p, base) {
        join(names(p).skip(names(base).len() as int), seq!['/'])
    } else {
        p
    }
}

/// The ancestor `k` levels up from `p`: `p` itself for 0, its parent for 1,
/// up to the root (or the first component) for the number of names of `p`.
pub open spec fn ancestor(p: Seq<char>, k: int) -> Seq<char> {
    assemble(absolute(p), leading_dot(p), names(p).take(names(p).len() - k))
}

/// The last component of `p`, unless there is none or it is `..`.
pub open spec fn file_name(p: Seq<char>) -> Option<Seq<char>> {
    let ns = names(p);
    if ns.len() == 0 || ns.last() == seq!['.', '.'] {
        None
    } else {
        Some(ns.last())
    }
}

/// The index of the last `.` in `n`, or -1.
pub open spec fn last_dot(n: Seq<char>) -> int
    decreases n.len(),
{
    if n.len() == 0 {
        -1
    } else if n.last() == '.' {
        n.len() - 1
    } else {
        last_dot(n.drop_last())
    }
}

/// What follows the last `.` of the file name, as `Path::extension` gives it:
/// none where the name has no `.` but a leading one.
pub open spec fn extension(p: Seq<char>) -> Option<Seq<char>> {
    match file_name(p) {
        None => None,
        Some(n) => if last_dot(n) <= 0 {
            None
        } else {
            Some(n.skip(last_dot(n) + 1))
        },
    }
}

fn absolute_chars(p: &Vec<char>) -> (r: bool)
    ensures
        r == absolute(p@),
{
    p.len() > 0 && p[0] == '/'
}

fn leading_dot_chars(p: &Vec<char>) -> (r: bool)
    ensures
        r == leading_dot(p@),
{
    !absolute_chars(p) && p.len() >= 1 && p[0] == '.' && (p.len() == 1 || p[1] == '/')
}

fn name_chars(x: &Vec<char>) -> (r: bool)
    ensures
        r == is_name(x@),
{
    if x.len() == 0 {
        return false;
    }
    if x.len() == 1 && x[0] == '.' {
        assert(x@ =~= seq!['.']);
        return false;
    }
    assert(x@ != seq!['.']) by {
        if x@ == seq!['.'] {
            assert(x@.len() == 1);
            assert(x@[0] == '.');
        }
    }
    true
}

fn path_names(p: &Vec<char>) -> (r: Vec<Vec<char>>)
    ensures
        views(r@) == names(p@),
{
    let ps = split_pieces(p, Separator::Slash);
    let ghost all = views(ps@);
    let mut r: Vec<Vec<char>> = Vec::new();
    for x in it: ps.into_iter()
        invariant
            it.seq() == ps@,
            all == views(ps@),
            all == pieces(p@, Separator::Slash),
            views(r@) == keep_names(all.take(it.index() as int)),
    {
        let ghost i = it.index() as int;
        proof {
            assert(all.take(i + 1).drop_last() =~= all.take(i));
            assert(all[i] == x@);
        }
        if name_chars(&x) {
            proof {
                assert(views(r@.push(x)) =~= views(r@).push(x@));
            }
            r.push(x);
        }
    }
    assert(all.take(all.len() as int) =~= all);
    r
}

fn assemble_chars(abs: bool, dot: bool, ns: &Vec<Vec<char>>, count: usize) -> (r: Vec<char>)
    requires
        count <= ns.len(),
    ensures
        r@ == assemble(abs, dot, views(ns@).take(count as int)),
{
    let slash = vec!['/'];
    assert(slash@ =~= seq!['/']);
    let body = join_pieces(ns, 0, count, &slash);
    assert(views(ns@).subrange(0, count as int) =~= views(ns@).take(count as int));
    let mut r: Vec<char> = Vec::new();
    if abs {
        r.push('/');
        append_chars(&mut r, &body);
        assert(r@ =~= seq!['/'] + body@);
    } else if dot {
        r.push('.');
        if count > 0 {
            r.push('/');
            append_chars(&mut r, &body);
            assert(r@ =~= seq!['.', '/'] + body@);
        } else {
            assert(r@ =~= seq!['.']);
        }
    } else {
        r = body;
    }
    r
}

/// `p` with its components written out again: repeated and trailing `/`
/// and inner `.` components dropped.
pub fn normalize_path(p: &str) -> (r: String)
    ensures
        r@ == normalize(p@),
{
    let cs = chars_of(p);
    let ns = path_names(&cs);
    let out = assemble_chars(absolute_chars(&cs), leading_dot_chars(&cs), &ns, ns.len());
    assert(views(ns@).take(ns.len() as int) =~= views(ns@));
    string_of(&out)
}

/// Whether `p` starts with `/`.
pub fn is_absolute_path(p: &str) -> (r: bool)
    ensures
        r == absolute(p@),
{
    absolute_chars(&chars_of(p))
}

/// `rel` joined onto `base`; an absolute `rel` stands alone.
pub fn join_paths(base: &str, rel: &str) -> (r: String)
    ensures
        r@ == join_path(base@, rel@),
{
    let b = chars_of(base);
    let q = chars_of(rel);
    if absolute_chars(&q) || b.len() == 0 {
        return string_of(&q);
    }
    let mut out = b.clone();
    assert(out@ =~= b@);
    if b[b.len() - 1] != '/' {
        out.push('/');
    }
    append_chars(&mut out, &q);
    string_of(&out)
}

fn has_prefix_chars(p: &Vec<char>, base: &Vec<char>, pn: &Vec<Vec<char>>, bn: &Vec<Vec<char>>) -> (r:
    bool)
    requires
        views(pn@) == names(p@),
        views(bn@) == names(base@),
    ensures
        r == has_prefix(p@, base@),
{
    if absolute_chars(p) != absolute_chars(base) || leading_dot_chars(p) != leading_dot_chars(base)
        || bn.len() > pn.len() {
        return false;
    }
    let mut i: usize = 0;
    while i < bn.len()
        invariant
            i <= bn.len() <= pn.len(),
            views(pn@) == names(p@),
            views(bn@) == names(base@),
            forall|j: int| 0 <= j < i ==> names(p@)[j] == names(base@)[j],
        decreases bn.len() - i,
    {
        if !chars_eq(&pn[i], &bn[i]) {
            assert(names(p@)[i as int] != names(base@)[i as int]);
            assert(names(p@).take(names(base@).len() as int)[i as int] != names(base@)[i as int]);
            return false;
        }
        i += 1;
    }
    assert(names(p@).take(names(base@).len() as int) =~= names(base@));
    true
}

/// Whether `base` is a prefix of `p`, whole components only.
pub fn starts_with_path(p: &str, base: &str) -> (r: bool)
    ensures
        r == has_prefix(p@, base@),
{
    let pc = chars_of(p);
    let bc = chars_of(base);
    let pn = path_names(&pc);
    let bn = path_names(&bc);
    has_prefix_chars(&pc, &bc, &pn, &bn)
}

/// `p` relative to `base` where `base` is a prefix of it; otherwise `p`.
pub fn relative_path(p: &str, base: &str) -> (r: String)
    ensures
        r@ == relative_to(p@, base@),
{
    let pc = chars_of(p);
    let bc = chars_of(base);
    let pn = path_names(&pc);
    let bn = path_names(&bc);
    if has_prefix_chars(&pc, &bc, &pn, &bn) {
        let slash = vec!['/'];
        assert(slash@ =~= seq!['/']);
        let out = join_pieces(&pn, bn.len(), pn.len(), &slash);
        assert(views(pn@).subrange(bn.len() as int, pn.len() as int) =~= names(p@).skip(
            names(base@).len() as int,
        ));
        string_of(&out)
    } else {
        string_of(&pc)
    }
}

/// `p` and each of its ancestors, nearest first, up to the root.
pub fn ancestors(p: &str) -> (r: Vec<String>)
    ensures
        r.len() == names(p@).len() + 1,
        forall|k: int| 0 <= k < r.len() ==> (#[trigger] r[k])@ == ancestor(p@, k),
{
    let pc = chars_of(p);
    let pn = path_names(&pc);
    let abs = absolute_chars(&pc);
    let dot = leading_dot_chars(&pc);
    let n = pn.len();
    let mut r: Vec<String> = Vec::new();
    let mut k: usize = 0;
    while k < n
        invariant
            k <= n,
            n == pn.len(),
            views(pn@) == names(p@),
            abs == absolute(p@),
            dot == leading_dot(p@),
            r.len() == k,
            forall|j: int| 0 <= j < k ==> (#[trigger] r[j])@ == ancestor(p@, j),
        decreases n - k,
    {
        let a = assemble_chars(abs, dot, &pn, n - k);
        r.push(string_of(&a));
        k += 1;
    }
    let top = assemble_chars(abs, dot, &pn, 0);
    r.push(string_of(&top));
    r
}

/// The extension of the file that `p` names, without the dot.
pub fn extension_of(p: &str) -> (r: Option<String>)
    ensures
        r matches Some(e) ==> extension(p@) == Some(e@),
        r is None ==> extension(p@) is None,
{
    let pc = chars_of(p);
    let pn = path_names(&pc);
    if pn.len() == 0 {
        return None;
    }
    let last = &pn[pn.len() - 1];
    let dots = vec!['.', '.'];
    assert(dots@ =~= seq!['.', '.']);
    if chars_eq(last, &dots) {
        return None;
    }
    let ghost nm = last@;
    assert(file_name(p@) == Some(nm));
    let mut i: usize = last.len();
    while i > 0 && last[i - 1] != '.'
        invariant
            i <= last.len(),
            nm == last@,
            forall|j: int| i <= j < last.len() ==> last@[j] != '.',
        decreases i,
    {
        i -= 1;
    }
    proof {
        lemma_last_dot_of(nm, i as int);
    }
    if i <= 1 {
        None
    } else {
        let mut e: Vec<char> = Vec::new();
        let mut j: usize = i;
        while j < last.len()
            invariant
                i <= j <= last.len(),
                e@ == last@.subrange(i as int, j as int),
            decreases last.len() - j,
        {
            e.push(last[j]);
            j += 1;
            assert(e@ =~= last@.subrange(i as int, j as int));
        }
        assert(e@ =~= nm.skip(i as int));
        Some(string_of(&e))
    }
}

/// The last `.` found by scanning from the end: `i` is one past it, or 0.
proof fn lemma_last_dot_of(n: Seq<char>, i: int)
    requires
        0 <= i <= n.len(),
        i > 0 ==> n[i - 1] == '.',
        forall|j: int| i <= j < n.len() ==> n[j] != '.',
    ensures
        last_dot(n) == i - 1,
    decreases n.len(),
{
    if n.len() > 0 && i < n.len() {
        assert forall|j: int| i <= j < n.drop_last().len() implies n.drop_last()[j] != '.' by {
            assert(n.drop_last()[j] == n[j]);
        }
        lemma_last_dot_of(n.drop_last(), i);
    }
}

} // verus!
