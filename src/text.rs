//! Character-level helpers shared by the parsers.
use vstd::prelude::*;

verus! {

/// Relies on `String::push`: appends one character.
#[verifier::external_body]
pub(crate) fn push_char(s: &mut String, c: char)
    ensures
        final(s)@ == old(s)@.push(c),
{
    s.push(c)
}

/// The characters of `s`, in order.
pub fn chars_of(s: &str) -> (r: Vec<char>)
    ensures
        r@ == s@,
{
    let mut r: Vec<char> = Vec::new();
    for c in it: s.chars()
        invariant
            it.seq() == s@,
            r@ == it.seq().take(it.index() as int),
    {
        r.push(c);
    }
    r
}

/// A string made of the characters of `v`, in order.
pub fn string_of(v: &Vec<char>) -> (r: String)
    ensures
        r@ == v@,
{
    let mut r = String::new();
    let mut i: usize = 0;
    while i < v.len()
        invariant
            i <= v.len(),
            r@ == v@.take(i as int),
        decreases v.len() - i,
    {
        push_char(&mut r, v[i]);
        i += 1;
        assert(v@.take(i as int) =~= v@.take(i - 1).push(v@[i - 1]));
    }
    assert(v@.take(i as int) =~= v@);
    r
}


/// The characters that split a text into pieces.
#[derive(Clone, Copy, PartialEq, Eq, Structural, Debug)]
pub enum Separator {
    /// A line feed.
    Newline,
    /// A path separator, `/`.
    Slash,
    /// Any Unicode white space.
    Whitespace,
}

/// Unicode `White_Space`: the characters that `char::is_whitespace` accepts.
pub open spec fn is_white(c: char) -> bool {
    let u = c as u32;
    ||| 0x09 <= u <= 0x0d
    ||| u == 0x20
    ||| u == 0x85
    ||| u == 0xa0
    ||| u == 0x1680
    ||| 0x2000 <= u <= 0x200a
    ||| u == 0x2028
    ||| u == 0x2029
    ||| u == 0x202f
    ||| u == 0x205f
    ||| u == 0x3000
}

pub open spec fn is_separator(k: Separator, c: char) -> bool {
    match k {
        Separator::Newline => c == '\n',
        Separator::Slash => c == '/',
        Separator::Whitespace => is_white(c),
    }
}

/// The pieces of `s` between separators of kind `k`, empty pieces included:
/// a text with `n` separators has `n + 1` pieces.
pub open spec fn pieces(s: Seq<char>, k: Separator) -> Seq<Seq<char>>
    decreases s.len(),
{
    if s.len() == 0 {
        seq![Seq::empty()]
    } else {
        let p = pieces(s.drop_last(), k);
        if is_separator(k, s.last()) {
            p.push(Seq::empty())
        } else {
            p.update(p.len() - 1, p.last().push(s.last()))
        }
    }
}

/// The pieces that are not empty, in order.
pub open spec fn non_empty(ps: Seq<Seq<char>>) -> Seq<Seq<char>>
    decreases ps.len(),
{
    if ps.len() == 0 {
        ps
    } else if ps.last().len() > 0 {
        non_empty(ps.drop_last()).push(ps.last())
    } else {
        non_empty(ps.drop_last())
    }
}

/// The pieces written one after the other, with `sep` between neighbours.
pub open spec fn join(ps: Seq<Seq<char>>, sep: Seq<char>) -> Seq<char>
    decreases ps.len(),
{
    if ps.len() == 0 {
        Seq::empty()
    } else if ps.len() == 1 {
        ps[0]
    } else {
        join(ps.drop_last(), sep) + sep + ps.last()
    }
}

/// The maximal runs of characters that are not white space, as
/// `str::split_whitespace` yields them.
pub open spec fn words(s: Seq<char>) -> Seq<Seq<char>> {
    non_empty(pieces(s, Separator::Whitespace))
}

pub open spec fn views(v: Seq<Vec<char>>) -> Seq<Seq<char>> {
    v.map_values(|x: Vec<char>| x@)
}

pub proof fn lemma_pieces_len(s: Seq<char>, k: Separator)
    ensures
        pieces(s, k).len() >= 1,
    decreases s.len(),
{
    if s.len() > 0 {
        lemma_pieces_len(s.drop_last(), k);
    }
}

/// A text without separators is a single piece.
pub proof fn lemma_pieces_unsplit(s: Seq<char>, k: Separator)
    requires
        forall|i: int| 0 <= i < s.len() ==> !is_separator(k, #[trigger] s[i]),
    ensures
        pieces(s, k) == seq![s],
    decreases s.len(),
{
    if s.len() > 0 {
        let t = s.drop_last();
        assert forall|i: int| 0 <= i < t.len() implies !is_separator(k, #[trigger] t[i]) by {
            assert(t[i] == s[i]);
        }
        lemma_pieces_unsplit(t, k);
        assert(t.push(s.last()) =~= s);
        assert(pieces(s, k) =~= seq![s]);
    } else {
        assert(s =~= Seq::<char>::empty());
    }
}

/// Joining the pieces at a one-character separator gives the text back.
pub proof fn lemma_join_pieces(s: Seq<char>, k: Separator, c: char)
    requires
        forall|d: char| is_separator(k, d) <==> d == c,
    ensures
        join(pieces(s, k), seq![c]) == s,
    decreases s.len(),
{
    if s.len() == 0 {
        assert(join(pieces(s, k), seq![c]) =~= s);
    } else {
        let t = s.drop_last();
        let p = pieces(t, k);
        lemma_join_pieces(t, k, c);
        lemma_pieces_len(t, k);
        if s.last() == c {
            assert(p.push(Seq::empty()).drop_last() =~= p);
            assert(join(pieces(s, k), seq![c]) =~= s);
        } else {
            lemma_join_extend_last(p, seq![c], s.last());
            assert(t.push(s.last()) =~= s);
        }
    }
}

pub proof fn lemma_join_extend_last(ps: Seq<Seq<char>>, sep: Seq<char>, c: char)
    requires
        ps.len() >= 1,
    ensures
        join(ps.update(ps.len() - 1, ps.last().push(c)), sep) == join(ps, sep).push(c),
{
    let qs = ps.update(ps.len() - 1, ps.last().push(c));
    if ps.len() == 1 {
        assert(join(qs, sep) =~= join(ps, sep).push(c));
    } else {
        assert(qs.drop_last() =~= ps.drop_last());
        assert(join(qs, sep) =~= join(ps, sep).push(c));
    }
}

/// Splits `s` at every separator of kind `k`.
pub fn split_pieces(s: &Vec<char>, k: Separator) -> (r: Vec<Vec<char>>)
    ensures
        views(r@) == pieces(s@, k),
{
    let mut done: Vec<Vec<char>> = Vec::new();
    let mut cur: Vec<char> = Vec::new();
    let mut i: usize = 0;
    while i < s.len()
        invariant
            i <= s.len(),
            views(done@).push(cur@) == pieces(s@.take(i as int), k),
        decreases s.len() - i,
    {
        let c = s[i];
        proof {
            let t = s@.take(i + 1);
            assert(t.drop_last() =~= s@.take(i as int));
            lemma_pieces_len(s@.take(i as int), k);
        }
        if separator_at(k, c) {
            let full = cur;
            cur = Vec::new();
            proof {
                assert(views(done@.push(full)) =~= views(done@).push(full@));
            }
            done.push(full);
            assert(views(done@).push(cur@) =~= pieces(s@.take(i + 1), k));
        } else {
            cur.push(c);
            assert(views(done@).push(cur@) =~= pieces(s@.take(i + 1), k));
        }
        i += 1;
    }
    assert(s@.take(i as int) =~= s@);
    proof {
        assert(views(done@.push(cur)) =~= views(done@).push(cur@));
    }
    done.push(cur);
    done
}

/// Whether `c` separates pieces of kind `k`.
pub fn separator_at(k: Separator, c: char) -> (r: bool)
    ensures
        r == is_separator(k, c),
{
    match k {
        Separator::Newline => c == '\n',
        Separator::Slash => c == '/',
        Separator::Whitespace => {
            let u = c as u32;
            (0x09 <= u && u <= 0x0d) || u == 0x20 || u == 0x85 || u == 0xa0 || u == 0x1680 || (
            0x2000 <= u && u <= 0x200a) || u == 0x2028 || u == 0x2029 || u == 0x202f || u
                == 0x205f || u == 0x3000
        },
    }
}

/// The pieces of `ps` that are not empty.
pub fn keep_non_empty(ps: Vec<Vec<char>>) -> (r: Vec<Vec<char>>)
    ensures
        views(r@) == non_empty(views(ps@)),
{
    let ghost all = views(ps@);
    let mut r: Vec<Vec<char>> = Vec::new();
    for p in it: ps.into_iter()
        invariant
            it.seq() == ps@,
            all == views(ps@),
            views(r@) == non_empty(all.take(it.index() as int)),
    {
        let ghost i = it.index() as int;
        proof {
            assert(all.take(i + 1).drop_last() =~= all.take(i));
            assert(all[i] == p@);
        }
        if p.len() > 0 {
            proof {
                assert(views(r@.push(p)) =~= views(r@).push(p@));
            }
            r.push(p);
        }
    }
    assert(all.take(all.len() as int) =~= all);
    r
}

/// The pieces of `ps` from index `from` up to `to`, with `sep` between
/// neighbours.
pub fn join_pieces(ps: &Vec<Vec<char>>, from: usize, to: usize, sep: &Vec<char>) -> (r: Vec<char>)
    requires
        from <= to <= ps.len(),
    ensures
        r@ == join(views(ps@).subrange(from as int, to as int), sep@),
{
    let ghost qs = views(ps@).subrange(from as int, to as int);
    let mut r: Vec<char> = Vec::new();
    let mut i: usize = from;
    while i < to
        invariant
            from <= i <= to <= ps.len(),
            qs == views(ps@).subrange(from as int, to as int),
            r@ == join(qs.take(i - from), sep@),
        decreases to - i,
    {
        proof {
            assert(qs.take(i + 1 - from).drop_last() =~= qs.take(i - from));
            assert(qs[i - from] == ps@[i as int]@);
        }
        if i > from {
            append_chars(&mut r, sep);
        }
        append_chars(&mut r, &ps[i]);
        i += 1;
        assert(r@ =~= join(qs.take(i - from), sep@));
    }
    assert(qs.take(i - from) =~= qs);
    r
}

/// Whether `a` and `b` hold the same characters.
pub fn chars_eq(a: &Vec<char>, b: &Vec<char>) -> (r: bool)
    ensures
        r == (a@ == b@),
{
    if a.len() != b.len() {
        return false;
    }
    let mut i: usize = 0;
    while i < a.len()
        invariant
            i <= a.len() == b.len(),
            a@.take(i as int) == b@.take(i as int),
        decreases a.len() - i,
    {
        if a[i] != b[i] {
            assert(a@[i as int] != b@[i as int]);
            return false;
        }
        i += 1;
        assert(a@.take(i as int) =~= a@.take(i - 1).push(a@[i - 1]));
        assert(b@.take(i as int) =~= b@.take(i - 1).push(b@[i - 1]));
    }
    assert(a@.take(i as int) =~= a@);
    assert(b@.take(i as int) =~= b@);
    true
}

/// Appends the characters of `b` to `a`.
pub fn append_chars(a: &mut Vec<char>, b: &Vec<char>)
    ensures
        final(a)@ == old(a)@ + b@,
{
    let mut i: usize = 0;
    while i < b.len()
        invariant
            i <= b.len(),
            a@ == old(a)@ + b@.take(i as int),
        decreases b.len() - i,
    {
        a.push(b[i]);
        i += 1;
        assert(a@ =~= old(a)@ + b@.take(i as int));
    }
    assert(b@.take(i as int) =~= b@);
}


/// `l` without one trailing carriage return.
pub open spec fn strip_cr(l: Seq<char>) -> Seq<char> {
    if l.len() > 0 && l.last() == '\r' {
        l.drop_last()
    } else {
        l
    }
}

/// The lines of `s` as `str::lines` yields them: split at each line feed, a
/// carriage return just before a line feed dropped, and no final empty line
/// after a trailing line feed.
pub open spec fn lines(s: Seq<char>) -> Seq<Seq<char>> {
    let p = pieces(s, Separator::Newline);
    let ended = p.drop_last().map_values(|l: Seq<char>| strip_cr(l));
    if p.last().len() > 0 {
        ended.push(p.last())
    } else {
        ended
    }
}

/// No piece holds a separator.
pub proof fn lemma_pieces_unseparated(s: Seq<char>, k: Separator)
    ensures
        forall|j: int, m: int|
            0 <= j < pieces(s, k).len() && 0 <= m < pieces(s, k)[j].len() ==> !is_separator(
                k,
                #[trigger] pieces(s, k)[j][m],
            ),
    decreases s.len(),
{
    if s.len() > 0 {
        lemma_pieces_unseparated(s.drop_last(), k);
        lemma_pieces_len(s.drop_last(), k);
        let p = pieces(s.drop_last(), k);
        if !is_separator(k, s.last()) {
            let q = pieces(s, k);
            assert forall|j: int, m: int| 0 <= j < q.len() && 0 <= m < q[j].len() implies !is_separator(
                k,
                #[trigger] q[j][m],
            ) by {
                if j == p.len() - 1 && m == p.last().len() {
                } else {
                    assert(q[j][m] == p[j][m]);
                }
            }
        }
    }
}

/// A non-empty text without line feeds is one line, itself.
pub proof fn lemma_single_line(t: Seq<char>)
    requires
        t.len() > 0,
        forall|i: int| 0 <= i < t.len() ==> #[trigger] t[i] != '\n',
    ensures
        lines(t) == seq![t],
{
    lemma_pieces_unsplit(t, Separator::Newline);
    let p = pieces(t, Separator::Newline);
    assert(p.drop_last().map_values(|l: Seq<char>| strip_cr(l)) =~= Seq::<Seq<char>>::empty());
    assert(lines(t) =~= seq![t]);
}

/// No line holds a line feed.
pub proof fn lemma_lines_unbroken(s: Seq<char>)
    ensures
        forall|j: int, m: int|
            0 <= j < lines(s).len() && 0 <= m < lines(s)[j].len() ==> #[trigger] lines(s)[j][m]
                != '\n',
{
    lemma_pieces_unseparated(s, Separator::Newline);
    lemma_pieces_len(s, Separator::Newline);
    let p = pieces(s, Separator::Newline);
    let ls = lines(s);
    assert forall|j: int, m: int| 0 <= j < ls.len() && 0 <= m < ls[j].len() implies #[trigger] ls[j][m]
        != '\n' by {
        if j < p.len() - 1 {
            assert(ls[j] == strip_cr(p[j]));
            assert(ls[j][m] == p[j][m]);
        } else {
            assert(ls[j] == p.last());
            assert(ls[j][m] == p[p.len() - 1][m]);
        }
    }
}

/// The lines written one after the other, each ended by a line feed.
pub open spec fn terminated(ls: Seq<Seq<char>>) -> Seq<char>
    decreases ls.len(),
{
    if ls.len() == 0 {
        Seq::empty()
    } else {
        terminated(ls.drop_last()) + ls.last().push('\n')
    }
}

/// A character that `s` lacks is in none of its pieces.
pub proof fn lemma_pieces_lack(s: Seq<char>, k: Separator, c: char)
    requires
        forall|i: int| 0 <= i < s.len() ==> s[i] != c,
    ensures
        forall|j: int, m: int|
            0 <= j < pieces(s, k).len() && 0 <= m < pieces(s, k)[j].len() ==> #[trigger] pieces(
                s,
                k,
            )[j][m] != c,
    decreases s.len(),
{
    if s.len() > 0 {
        let t = s.drop_last();
        assert forall|i: int| 0 <= i < t.len() implies t[i] != c by {
            assert(t[i] == s[i]);
        }
        lemma_pieces_lack(t, k, c);
        lemma_pieces_len(t, k);
        let p = pieces(t, k);
        let q = pieces(s, k);
        assert forall|j: int, m: int| 0 <= j < q.len() && 0 <= m < q[j].len() implies #[trigger] q[j][m]
            != c by {
            if !is_separator(k, s.last()) {
                if j == p.len() - 1 && m == p.last().len() {
                    assert(q[j][m] == s.last());
                    assert(s[s.len() - 1] != c);
                } else {
                    assert(q[j][m] == p[j][m]);
                }
            } else if j < p.len() {
                assert(q[j][m] == p[j][m]);
            }
        }
    }
}

pub proof fn lemma_terminated_join(ps: Seq<Seq<char>>)
    requires
        ps.len() >= 1,
    ensures
        terminated(ps.drop_last()) + ps.last() == join(ps, seq!['\n']),
    decreases ps.len(),
{
    if ps.len() == 1 {
        assert(ps.drop_last() =~= Seq::<Seq<char>>::empty());
        assert(terminated(ps.drop_last()) + ps.last() =~= ps[0]);
    } else {
        let qs = ps.drop_last();
        lemma_terminated_join(qs);
        assert(terminated(qs) == terminated(qs.drop_last()) + qs.last().push('\n'));
        assert(terminated(qs) + ps.last() =~= terminated(qs.drop_last()) + qs.last() + seq!['\n']
            + ps.last());
    }
}

/// A text without carriage returns that ends with a line feed (or is empty)
/// is its lines, each ended by a line feed.
pub proof fn lemma_lines_terminated(s: Seq<char>)
    requires
        forall|i: int| 0 <= i < s.len() ==> s[i] != '\r',
        s.len() == 0 || s.last() == '\n',
    ensures
        terminated(lines(s)) == s,
{
    let k = Separator::Newline;
    let p = pieces(s, k);
    lemma_pieces_len(s, k);
    lemma_pieces_lack(s, k, '\r');
    if s.len() > 0 {
        lemma_pieces_len(s.drop_last(), k);
        assert(p == pieces(s.drop_last(), k).push(Seq::empty()));
    }
    assert(p.last().len() == 0);
    assert forall|j: int| 0 <= j < p.drop_last().len() implies strip_cr(p.drop_last()[j])
        == p.drop_last()[j] by {
        let l = p.drop_last()[j];
        if l.len() > 0 {
            assert(l.last() == p[j][l.len() - 1]);
        }
    }
    assert(lines(s) =~= p.drop_last());
    lemma_terminated_join(p);
    lemma_join_pieces(s, k, '\n');
    assert(terminated(p.drop_last()) + p.last() =~= terminated(p.drop_last()));
}

/// The lines of `s`.
pub fn text_lines(s: &Vec<char>) -> (r: Vec<Vec<char>>)
    ensures
        views(r@) == lines(s@),
{
    let ps = split_pieces(s, Separator::Newline);
    let ghost p = views(ps@);
    proof {
        lemma_pieces_len(s@, Separator::Newline);
    }
    let n = ps.len();
    let mut r: Vec<Vec<char>> = Vec::new();
    let mut k: usize = 0;
    for piece in it: ps.into_iter()
        invariant
            it.seq() == ps@,
            k == it.index(),
            p == views(ps@),
            p == pieces(s@, Separator::Newline),
            n == p.len(),
            n >= 1,
            it.index() < n ==> views(r@) == p.take(it.index() as int).map_values(
                |l: Seq<char>| strip_cr(l),
            ),
            it.index() == n ==> views(r@) == lines(s@),
    {
        let ghost i = it.index() as int;
        let mut line = piece;
        if k + 1 < n {
            if line.len() > 0 && line[line.len() - 1] == '\r' {
                line.pop();
            }
            proof {
                assert(views(r@.push(line)) =~= views(r@).push(line@));
                assert(p.take(i + 1).map_values(|l: Seq<char>| strip_cr(l)) =~= p.take(i).map_values(
                    |l: Seq<char>| strip_cr(l),
                ).push(strip_cr(p[i])));
            }
            r.push(line);
        } else {
            proof {
                assert(p.take(i) =~= p.drop_last());
            }
            if line.len() > 0 {
                proof {
                    assert(views(r@.push(line)) =~= views(r@).push(line@));
                }
                r.push(line);
            }
        }
        k += 1;
    }
    r
}

/// The characters of `v` from index `from` on.
pub fn skip_chars(v: &Vec<char>, from: usize) -> (r: Vec<char>)
    requires
        from <= v.len(),
    ensures
        r@ == v@.skip(from as int),
{
    let mut r: Vec<char> = Vec::new();
    let mut i: usize = from;
    while i < v.len()
        invariant
            from <= i <= v.len(),
            r@ == v@.subrange(from as int, i as int),
        decreases v.len() - i,
    {
        r.push(v[i]);
        i += 1;
        assert(r@ =~= v@.subrange(from as int, i as int));
    }
    assert(v@.subrange(from as int, i as int) =~= v@.skip(from as int));
    r
}

} // verus!
