//! Unified diff of two texts: one hunk around the changed region,
//! with caller-chosen context width, plus the patch application that
//! undoes the rendering's content into the new text.

use vstd::prelude::*;
use crate::text::{dec_spec, dec_string, join_lines_spec, lemma_join_split, split_lines_spec};

verus! {

/// Length of the longest common prefix of two line sequences.
pub open spec fn common_prefix_len(b: Seq<Seq<char>>, a: Seq<Seq<char>>) -> int
    decreases b.len(),
{
    if b.len() == 0 || a.len() == 0 || b[0] != a[0] {
        0
    } else {
        1 + common_prefix_len(b.drop_first(), a.drop_first())
    }
}

/// Length of the longest common suffix of two line sequences.
pub open spec fn common_suffix_len(b: Seq<Seq<char>>, a: Seq<Seq<char>>) -> int
    decreases b.len(),
{
    if b.len() == 0 || a.len() == 0 || b.last() != a.last() {
        0
    } else {
        1 + common_suffix_len(b.drop_last(), a.drop_last())
    }
}

pub proof fn lemma_cpl_bounds(b: Seq<Seq<char>>, a: Seq<Seq<char>>)
    ensures
        0 <= common_prefix_len(b, a) <= b.len(),
        common_prefix_len(b, a) <= a.len(),
        b.take(common_prefix_len(b, a)) == a.take(common_prefix_len(b, a)),
    decreases b.len(),
{
    let p = common_prefix_len(b, a);
    if b.len() == 0 || a.len() == 0 || b[0] != a[0] {
        assert(b.take(0) =~= a.take(0));
    } else {
        lemma_cpl_bounds(b.drop_first(), a.drop_first());
        let q = common_prefix_len(b.drop_first(), a.drop_first());
        assert(b.take(p) =~= seq![b[0]] + b.drop_first().take(q));
        assert(a.take(p) =~= seq![a[0]] + a.drop_first().take(q));
    }
}

pub proof fn lemma_cpl_char(b: Seq<Seq<char>>, a: Seq<Seq<char>>, k: int)
    requires
        0 <= k <= b.len(),
        k <= a.len(),
        b.take(k) == a.take(k),
        k == b.len() || k == a.len() || b[k] != a[k],
    ensures
        common_prefix_len(b, a) == k,
    decreases k,
{
    if k == 0 {
        if b.len() != 0 && a.len() != 0 {
            assert(b[0] != a[0]);
        }
    } else {
        assert(b.take(k)[0] == a.take(k)[0]);
        assert(b[0] == a[0]);
        assert(b.drop_first().take(k - 1) =~= b.take(k).drop_first());
        assert(a.drop_first().take(k - 1) =~= a.take(k).drop_first());
        if k < b.len() && k < a.len() {
            assert(b.drop_first()[k - 1] == b[k]);
            assert(a.drop_first()[k - 1] == a[k]);
        }
        lemma_cpl_char(b.drop_first(), a.drop_first(), k - 1);
    }
}

pub proof fn lemma_csl_bounds(b: Seq<Seq<char>>, a: Seq<Seq<char>>)
    ensures
        0 <= common_suffix_len(b, a) <= b.len(),
        common_suffix_len(b, a) <= a.len(),
        b.skip(b.len() - common_suffix_len(b, a)) == a.skip(a.len() - common_suffix_len(b, a)),
    decreases b.len(),
{
    let s = common_suffix_len(b, a);
    if b.len() == 0 || a.len() == 0 || b.last() != a.last() {
        assert(b.skip(b.len() as int) =~= a.skip(a.len() as int));
    } else {
        lemma_csl_bounds(b.drop_last(), a.drop_last());
        let q = common_suffix_len(b.drop_last(), a.drop_last());
        assert(b.skip(b.len() - s) =~= b.drop_last().skip(b.drop_last().len() - q) + seq![
            b.last(),
        ]);
        assert(a.skip(a.len() - s) =~= a.drop_last().skip(a.drop_last().len() - q) + seq![
            a.last(),
        ]);
    }
}

pub proof fn lemma_csl_char(b: Seq<Seq<char>>, a: Seq<Seq<char>>, k: int)
    requires
        0 <= k <= b.len(),
        k <= a.len(),
        b.skip(b.len() - k) == a.skip(a.len() - k),
        k == b.len() || k == a.len() || b[b.len() - 1 - k] != a[a.len() - 1 - k],
    ensures
        common_suffix_len(b, a) == k,
    decreases k,
{
    if k == 0 {
        if b.len() != 0 && a.len() != 0 {
            assert(b[b.len() - 1] != a[a.len() - 1]);
        }
    } else {
        let bs = b.skip(b.len() - k);
        let As = a.skip(a.len() - k);
        assert(bs.last() == b.last());
        assert(As.last() == a.last());
        assert(b.last() == a.last());
        let bd = b.drop_last();
        let ad = a.drop_last();
        assert(bd.skip(bd.len() - (k - 1)) =~= bs.drop_last());
        assert(ad.skip(ad.len() - (k - 1)) =~= As.drop_last());
        if k < b.len() && k < a.len() {
            assert(bd[bd.len() - 1 - (k - 1)] == b[b.len() - 1 - k]);
            assert(ad[ad.len() - 1 - (k - 1)] == a[a.len() - 1 - k]);
        }
        lemma_csl_char(bd, ad, k - 1);
    }
}

/// The mathematical shape of a one-hunk patch: where the hunk begins
/// (0-based line index of the first context line), the context shown
/// before, the removed lines, the added lines, and the context shown
/// after.
#[verifier::ext_equal]
pub struct PatchModel {
    pub pre_start: int,
    pub pre: Seq<Seq<char>>,
    pub del: Seq<Seq<char>>,
    pub add: Seq<Seq<char>>,
    pub post: Seq<Seq<char>>,
}

/// The patch a diff of `b` against `a` produces, with `ctx` lines of
/// context on each side of the changed region.
pub open spec fn diff_spec(b: Seq<Seq<char>>, a: Seq<Seq<char>>, ctx: int) -> PatchModel {
    let p = common_prefix_len(b, a);
    let s = common_suffix_len(b.skip(p), a.skip(p));
    let pre_start = if p - ctx >= 0 {
        p - ctx
    } else {
        0
    };
    let post_len = if ctx <= s {
        ctx
    } else {
        s
    };
    PatchModel {
        pre_start: pre_start,
        pre: b.subrange(pre_start, p),
        del: b.subrange(p, b.len() - s),
        add: a.subrange(p, a.len() - s),
        post: b.subrange(b.len() - s, b.len() - s + post_len),
    }
}

/// Whether the patch's context and removed lines occur in `b` at the
/// patch's position, so that the patch can be applied to `b`.
pub open spec fn patch_fits(m: PatchModel, b: Seq<Seq<char>>) -> bool {
    let pos = m.pre_start + m.pre.len();
    &&& 0 <= m.pre_start
    &&& m.pre_start + m.pre.len() + m.del.len() + m.post.len() <= b.len()
    &&& b.subrange(m.pre_start, pos) == m.pre
    &&& b.subrange(pos, pos + m.del.len()) == m.del
    &&& b.subrange(pos + m.del.len(), pos + m.del.len() + m.post.len()) == m.post
}

/// The lines that applying the patch to `b` produces: the removed
/// lines replaced by the added ones, everything else kept.
pub open spec fn apply_spec(m: PatchModel, b: Seq<Seq<char>>) -> Seq<Seq<char>> {
    let pos = m.pre_start + m.pre.len();
    b.take(pos) + m.add + b.skip(pos + m.del.len())
}

/// Applying the patch that a diff of `b` against `a` emits to `b`
/// reproduces `a` exactly, whatever the context width.
pub proof fn law_patch_round_trip(b: Seq<Seq<char>>, a: Seq<Seq<char>>, ctx: int)
    requires
        ctx >= 0,
    ensures
        patch_fits(diff_spec(b, a, ctx), b),
        apply_spec(diff_spec(b, a, ctx), b) == a,
{
    let p = common_prefix_len(b, a);
    lemma_cpl_bounds(b, a);
    let s = common_suffix_len(b.skip(p), a.skip(p));
    lemma_csl_bounds(b.skip(p), a.skip(p));
    assert(b.skip(p).skip(b.len() - p - s) =~= b.skip(b.len() - s));
    assert(a.skip(p).skip(a.len() - p - s) =~= a.skip(a.len() - s));
    assert(b.skip(b.len() - s) == a.skip(a.len() - s));
    let m = diff_spec(b, a, ctx);
    let pos = m.pre_start + m.pre.len();
    assert(pos == p);
    assert(b.subrange(m.pre_start, p) =~= b.subrange(m.pre_start, p));
    assert(b.take(p) =~= b.subrange(0, p));
    // the patch fits b: each stated subrange is read off b itself
    assert(b.subrange(pos, pos + m.del.len()) =~= b.subrange(p, b.len() - s));
    assert(b.subrange(pos + m.del.len(), pos + m.del.len() + m.post.len()) =~= b.subrange(
        b.len() - s,
        b.len() - s + m.post.len(),
    ));
    // applying it rebuilds a from a's own prefix, middle and suffix
    assert(b.take(p) == a.take(p));
    assert(pos + m.del.len() == b.len() - s);
    assert(apply_spec(m, b) == b.take(p) + m.add + b.skip(b.len() - s));
    assert(apply_spec(m, b) == a.take(p) + a.subrange(p, a.len() - s) + a.skip(a.len() - s));
    assert(a.take(p) + a.subrange(p, a.len() - s) + a.skip(a.len() - s) =~= a);
}

/// Diff round-trip over whole texts: for any two texts, the patch the
/// diff emits fits the old text's lines, and joining the patched
/// lines gives the new text exactly.
pub proof fn law_udiff_round_trip(before: Seq<char>, after: Seq<char>, ctx: int)
    requires
        ctx >= 0,
    ensures
        ({
            let bl = split_lines_spec(before);
            let al = split_lines_spec(after);
            let m = diff_spec(bl, al, ctx);
            patch_fits(m, bl) && join_lines_spec(apply_spec(m, bl)) == after
        }),
{
    let bl = split_lines_spec(before);
    let al = split_lines_spec(after);
    law_patch_round_trip(bl, al, ctx);
    lemma_join_split(after);
}

/// A one-hunk patch over concrete lines.
pub struct Patch {
    pub pre_start: usize,
    pub context_pre: Vec<String>,
    pub removed: Vec<String>,
    pub added: Vec<String>,
    pub context_post: Vec<String>,
}

impl View for Patch {
    type V = PatchModel;

    open spec fn view(&self) -> PatchModel {
        PatchModel {
            pre_start: self.pre_start as int,
            pre: self.context_pre.deep_view(),
            del: self.removed.deep_view(),
            add: self.added.deep_view(),
            post: self.context_post.deep_view(),
        }
    }
}

/// Copies the lines `v[from..to]`.
fn sub_vec(v: &Vec<String>, from: usize, to: usize) -> (r: Vec<String>)
    requires
        from <= to <= v@.len(),
    ensures
        r.deep_view() == v.deep_view().subrange(from as int, to as int),
{
    let mut r: Vec<String> = Vec::new();
    let mut k: usize = from;
    proof {
        assert(r.deep_view() =~= v.deep_view().subrange(from as int, from as int));
    }
    while k < to
        invariant
            from <= k <= to <= v@.len(),
            r.deep_view() == v.deep_view().subrange(from as int, k as int),
        decreases to - k,
    {
        let ghost prev = r.deep_view();
        let ghost prevseq = r@;
        let x = v[k].clone();
        r.push(x);
        proof {
            assert(r@ == prevseq.push(x));
            assert(r.deep_view() =~= prev.push(x@));
            assert(x@ == v.deep_view()[k as int]);
            assert(prev.push(x@) =~= v.deep_view().subrange(from as int, k + 1));
        }
        k += 1;
    }
    r
}

/// Length of the longest common prefix of the two line vectors.
fn common_prefix(b: &Vec<String>, a: &Vec<String>) -> (p: usize)
    ensures
        p as int == common_prefix_len(b.deep_view(), a.deep_view()),
        p <= b@.len(),
        p <= a@.len(),
{
    let ghost bv = b.deep_view();
    let ghost av = a.deep_view();
    let bn = b.len();
    let an = a.len();
    let mut p: usize = 0;
    proof {
        assert(bv.take(0) =~= av.take(0));
    }
    loop
        invariant
            bn == bv.len(),
            an == av.len(),
            bv == b.deep_view(),
            av == a.deep_view(),
            p <= bn,
            p <= an,
            bv.take(p as int) == av.take(p as int),
        decreases bn - p,
    {
        if p >= bn || p >= an {
            proof {
                lemma_cpl_char(bv, av, p as int);
            }
            return p;
        }
        let same = b[p] == a[p];
        proof {
            assert(bv[p as int] == b@[p as int]@);
            assert(av[p as int] == a@[p as int]@);
        }
        if !same {
            proof {
                lemma_cpl_char(bv, av, p as int);
            }
            return p;
        }
        proof {
            assert(bv.take(p + 1) =~= bv.take(p as int).push(bv[p as int]));
            assert(av.take(p + 1) =~= av.take(p as int).push(av[p as int]));
        }
        p += 1;
    }
}

/// Length of the longest common suffix of the two line vectors, past
/// a common prefix of length `p`.
fn common_suffix(b: &Vec<String>, a: &Vec<String>, p: usize) -> (s: usize)
    requires
        p <= b@.len(),
        p <= a@.len(),
    ensures
        s as int == common_suffix_len(b.deep_view().skip(p as int), a.deep_view().skip(p as int)),
        s <= b@.len() - p,
        s <= a@.len() - p,
{
    let ghost bs = b.deep_view().skip(p as int);
    let ghost As = a.deep_view().skip(p as int);
    let bn = b.len();
    let an = a.len();
    let mut s: usize = 0;
    proof {
        assert(bs.skip(bs.len() as int) =~= As.skip(As.len() as int));
    }
    loop
        invariant
            bn == b@.len(),
            an == a@.len(),
            bs == b.deep_view().skip(p as int),
            As == a.deep_view().skip(p as int),
            bs.len() == bn - p,
            As.len() == an - p,
            p <= bn,
            p <= an,
            s <= bn - p,
            s <= an - p,
            bs.skip(bs.len() - s) == As.skip(As.len() - s),
        decreases bn - p - s,
    {
        if s >= bn - p || s >= an - p {
            proof {
                lemma_csl_char(bs, As, s as int);
            }
            return s;
        }
        let same = b[bn - 1 - s] == a[an - 1 - s];
        proof {
            assert(bs[bs.len() - 1 - s] == b.deep_view()[bn - 1 - s]);
            assert(As[As.len() - 1 - s] == a.deep_view()[an - 1 - s]);
            assert(b.deep_view()[bn - 1 - s] == b@[bn - 1 - s]@);
            assert(a.deep_view()[an - 1 - s] == a@[an - 1 - s]@);
        }
        if !same {
            proof {
                lemma_csl_char(bs, As, s as int);
            }
            return s;
        }
        proof {
            assert(bs.skip(bs.len() - (s + 1)) =~= seq![bs[bs.len() - 1 - s]] + bs.skip(
                bs.len() - s,
            ));
            assert(As.skip(As.len() - (s + 1)) =~= seq![As[As.len() - 1 - s]] + As.skip(
                As.len() - s,
            ));
        }
        s += 1;
    }
}

/// Computes the one-hunk diff of `b` against `a` with `ctx` lines of
/// context.
pub fn diff_lines(b: &Vec<String>, a: &Vec<String>, ctx: usize) -> (r: Patch)
    ensures
        r@ == diff_spec(b.deep_view(), a.deep_view(), ctx as int),
{
    let bn = b.len();
    let an = a.len();
    let ghost bv = b.deep_view();
    let ghost av = a.deep_view();
    let p = common_prefix(b, a);
    let s = common_suffix(b, a, p);
    let pre_start = if p >= ctx {
        p - ctx
    } else {
        0
    };
    let post_len = if ctx <= s {
        ctx
    } else {
        s
    };
    let r = Patch {
        pre_start,
        context_pre: sub_vec(b, pre_start, p),
        removed: sub_vec(b, p, bn - s),
        added: sub_vec(a, p, an - s),
        context_post: sub_vec(b, bn - s, bn - s + post_len),
    };
    proof {
        assert(r@ =~= diff_spec(bv, av, ctx as int));
    }
    r
}

/// Appends the lines `v[from..to]` to `out`.
fn append_range(out: &mut Vec<String>, v: &Vec<String>, from: usize, to: usize)
    requires
        from <= to <= v@.len(),
    ensures
        final (out).deep_view() == old(out).deep_view() + v.deep_view().subrange(
            from as int,
            to as int,
        ),
{
    let mut k: usize = from;
    proof {
        assert(out.deep_view() =~= old(out).deep_view() + v.deep_view().subrange(
            from as int,
            from as int,
        ));
    }
    while k < to
        invariant
            from <= k <= to <= v@.len(),
            out.deep_view() == old(out).deep_view() + v.deep_view().subrange(from as int, k as int),
        decreases to - k,
    {
        let ghost prev = out.deep_view();
        let ghost prevseq = out@;
        let x = v[k].clone();
        out.push(x);
        proof {
            assert(out@ == prevseq.push(x));
            assert(out.deep_view() =~= prev.push(x@));
            assert(x@ == v.deep_view()[k as int]);
            assert(prev.push(x@) =~= old(out).deep_view() + v.deep_view().subrange(
                from as int,
                k + 1,
            ));
        }
        k += 1;
    }
}

/// Compares `v` with the lines `b[off..off + v.len()]`.
fn lines_match(b: &Vec<String>, off: usize, v: &Vec<String>) -> (r: bool)
    requires
        off + v@.len() <= b@.len(),
    ensures
        r == (b.deep_view().subrange(off as int, off + v@.len()) == v.deep_view()),
{
    let bn = b.len();
    let mut k: usize = 0;
    while k < v.len()
        invariant
            bn == b@.len(),
            off + v@.len() <= b@.len(),
            k <= v@.len(),
            b.deep_view().subrange(off as int, off + k) == v.deep_view().subrange(0, k as int),
        decreases v@.len() - k,
    {
        if !(b[off + k] == v[k]) {
            proof {
                assert(b.deep_view().subrange(off as int, off + v@.len())[k as int] == b.deep_view()[
                    off + k
                ]);
                assert(v.deep_view()[k as int] == v@[k as int]@);
            }
            return false;
        }
        proof {
            assert(b.deep_view().subrange(off as int, off + k + 1) =~= b.deep_view().subrange(
                off as int,
                off + k,
            ).push(b.deep_view()[off + k]));
            assert(v.deep_view().subrange(0, k + 1) =~= v.deep_view().subrange(0, k as int).push(
                v.deep_view()[k as int],
            ));
        }
        k += 1;
    }
    proof {
        assert(v.deep_view().subrange(0, v@.len() as int) =~= v.deep_view());
    }
    true
}

/// Applies a patch to the given lines. Returns the patched lines, or
/// `None` exactly when the patch's position, context or removed lines
/// do not occur in `b` as the patch states them.
pub fn apply_patch(m: &Patch, b: &Vec<String>) -> (r: Option<Vec<String>>)
    ensures
        match r {
            Some(v) => patch_fits(m@, b.deep_view()) && v.deep_view() == apply_spec(
                m@,
                b.deep_view(),
            ),
            None => !patch_fits(m@, b.deep_view()),
        },
{
    let total: u128 = m.pre_start as u128 + m.context_pre.len() as u128 + m.removed.len() as u128
        + m.context_post.len() as u128;
    if total > b.len() as u128 {
        return None;
    }
    let pos = m.pre_start + m.context_pre.len();
    if !lines_match(b, m.pre_start, &m.context_pre) {
        return None;
    }
    if !lines_match(b, pos, &m.removed) {
        return None;
    }
    if !lines_match(b, pos + m.removed.len(), &m.context_post) {
        return None;
    }
    let mut out: Vec<String> = Vec::new();
    append_range(&mut out, b, 0, pos);
    append_range(&mut out, &m.added, 0, m.added.len());
    append_range(&mut out, b, pos + m.removed.len(), b.len());
    proof {
        assert(b.deep_view().subrange(0, pos as int) =~= b.deep_view().take(pos as int));
        assert(m.added.deep_view().subrange(0, m.added@.len() as int) =~= m@.add);
        assert(b.deep_view().subrange(pos + m.removed@.len(), b@.len() as int) =~= b.deep_view()
            .skip(pos + m.removed@.len()));
        assert(out.deep_view() =~= apply_spec(m@, b.deep_view()));
    }
    Some(out)
}

/// One diff body line per input line: the tag character, then the
/// line, then a newline.
pub open spec fn tagged_spec(tag: char, ls: Seq<Seq<char>>) -> Seq<char>
    decreases ls.len(),
{
    if ls.len() == 0 {
        Seq::<char>::empty()
    } else {
        seq![tag] + ls[0] + seq!['\n'] + tagged_spec(tag, ls.drop_first())
    }
}

pub proof fn lemma_tagged_push(tag: char, xs: Seq<Seq<char>>, y: Seq<char>)
    ensures
        tagged_spec(tag, xs.push(y)) == tagged_spec(tag, xs) + seq![tag] + y + seq!['\n'],
    decreases xs.len(),
{
    if xs.len() == 0 {
        let pp = xs.push(y);
        assert(pp.drop_first() =~= Seq::<Seq<char>>::empty());
        assert(pp[0] == y);
        assert(tagged_spec(tag, pp) == seq![tag] + pp[0] + seq!['\n'] + tagged_spec(
            tag,
            pp.drop_first(),
        ));
        assert(tagged_spec(tag, pp.drop_first()) == Seq::<char>::empty());
        assert(tagged_spec(tag, pp) =~= tagged_spec(tag, xs) + seq![tag] + y + seq!['\n']);
    } else {
        assert(xs.push(y).drop_first() =~= xs.drop_first().push(y));
        lemma_tagged_push(tag, xs.drop_first(), y);
        assert(xs.push(y)[0] == xs[0]);
        assert(tagged_spec(tag, xs.push(y)) =~= tagged_spec(tag, xs) + seq![tag] + y + seq!['\n']);
    }
}

/// The unified-diff text for a patch: two label lines carrying the
/// display name, one hunk header with 1-based start lines and line
/// counts, then the context, removed and added lines, each tagged.
pub open spec fn render_spec(m: PatchModel, name: Seq<char>) -> Seq<char> {
    "--- "@ + name + "\n"@ + "+++ "@ + name + "\n"@ + "@@ -"@ + dec_spec((m.pre_start + 1) as nat)
        + ","@ + dec_spec((m.pre.len() + m.del.len() + m.post.len()) as nat) + " +"@ + dec_spec(
        (m.pre_start + 1) as nat,
    ) + ","@ + dec_spec((m.pre.len() + m.add.len() + m.post.len()) as nat) + " @@"@ + "\n"@
        + tagged_spec(' ', m.pre) + tagged_spec('-', m.del) + tagged_spec('+', m.add) + tagged_spec(
        ' ',
        m.post,
    )
}

/// Appends one tagged body line per line of `ls`.
fn append_tagged(out: &mut String, tag: &str, ls: &Vec<String>)
    requires
        tag@.len() == 1,
    ensures
        final (out)@ == old(out)@ + tagged_spec(tag@[0], ls.deep_view()),
{
    let mut k: usize = 0;
    proof {
        assert(ls.deep_view().take(0) =~= Seq::<Seq<char>>::empty());
        assert(out@ + tagged_spec(tag@[0], ls.deep_view().take(0)) =~= out@);
    }
    while k < ls.len()
        invariant
            tag@.len() == 1,
            k <= ls@.len(),
            out@ == old(out)@ + tagged_spec(tag@[0], ls.deep_view().take(k as int)),
        decreases ls@.len() - k,
    {
        out.append(tag);
        out.append(ls[k].as_str());
        out.append("\n");
        proof {
            reveal_strlit("\n");
            let pre = ls.deep_view().take(k as int);
            let y = ls.deep_view()[k as int];
            lemma_tagged_push(tag@[0], pre, y);
            assert(pre.push(y) =~= ls.deep_view().take(k + 1));
            assert(tag@ =~= seq![tag@[0]]);
            assert("\n"@ =~= seq!['\n']);
            assert(out@ =~= old(out)@ + tagged_spec(tag@[0], ls.deep_view().take(k + 1)));
        }
        k += 1;
    }
    proof {
        assert(ls.deep_view().take(ls@.len() as int) =~= ls.deep_view());
    }
}

/// Renders a patch as a unified diff labeled with the display name.
pub fn render_patch(m: &Patch, name: &str) -> (r: String)
    ensures
        r@ == render_spec(m@, name@),
{
    let mut out = String::from_str("--- ");
    out.append(name);
    out.append("\n");
    out.append("+++ ");
    out.append(name);
    out.append("\n");
    out.append("@@ -");
    let start1: u128 = m.pre_start as u128 + 1;
    let old_count: u128 = m.context_pre.len() as u128 + m.removed.len() as u128
        + m.context_post.len() as u128;
    let new_count: u128 = m.context_pre.len() as u128 + m.added.len() as u128
        + m.context_post.len() as u128;
    out.append(dec_string(start1).as_str());
    out.append(",");
    out.append(dec_string(old_count).as_str());
    out.append(" +");
    out.append(dec_string(start1).as_str());
    out.append(",");
    out.append(dec_string(new_count).as_str());
    out.append(" @@");
    out.append("\n");
    proof {
        reveal_strlit(" ");
        reveal_strlit("-");
        reveal_strlit("+");
        assert(" "@[0] == ' ');
        assert("-"@[0] == '-');
        assert("+"@[0] == '+');
    }
    append_tagged(&mut out, " ", &m.context_pre);
    append_tagged(&mut out, "-", &m.removed);
    append_tagged(&mut out, "+", &m.added);
    append_tagged(&mut out, " ", &m.context_post);
    proof {
        assert(out@ =~= render_spec(m@, name@));
    }
    out
}

} // verus!
