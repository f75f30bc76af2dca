//! The text-transformation engine: a closed set of matchers, each a
//! pure function from old text to new text.

use vstd::prelude::*;

verus! {

/// Replacement of every non-overlapping, leftmost occurrence of `pat`
/// in `text` by `rep`. An empty pattern matches nothing and leaves the
/// text unchanged.
pub open spec fn lit_replace_spec(text: Seq<char>, pat: Seq<char>, rep: Seq<char>) -> Seq<char>
    decreases text.len(),
{
    if pat.len() == 0 || text.len() < pat.len() {
        text
    } else if text.take(pat.len() as int) == pat {
        rep + lit_replace_spec(text.skip(pat.len() as int), pat, rep)
    } else {
        text.take(1) + lit_replace_spec(text.skip(1), pat, rep)
    }
}

/// What `regex::Regex::replace_all` returns for a given pattern,
/// haystack and replacement (with the haystack returned unchanged when
/// the pattern does not compile). The result depends on these three
/// texts alone.
pub uninterp spec fn regex_replaced(pat: Seq<char>, text: Seq<char>, rep: Seq<char>) -> Seq<char>;

/// Relies on `regex::Regex::new` and `regex::Regex::replace_all`:
/// both are deterministic in the pattern, the haystack and the
/// replacement.
#[verifier::external_body]
fn regex_replace_all(pat: &str, text: &str, rep: &str) -> (r: String)
    ensures
        r@ == regex_replaced(pat@, text@, rep@),
{
    match regex::Regex::new(pat) {
        Ok(re) => re.replace_all(text, rep).into_owned(),
        Err(_) => text.to_owned(),
    }
}

/// A compiled search-and-replace engine, immutable for the duration of
/// a displace call.
#[derive(Clone, Debug)]
pub enum Engine {
    /// Fixed-string matcher: replaces every occurrence of the literal
    /// pattern.
    Literal { pattern: String, replace: String },
    /// Regular-expression matcher, applied through the regex crate.
    Regex { pattern: String, replace: String },
}

/// The text an engine produces from the given text.
pub open spec fn engine_replace_spec(e: Engine, text: Seq<char>) -> Seq<char> {
    match e {
        Engine::Literal { pattern, replace } => lit_replace_spec(text, pattern@, replace@),
        Engine::Regex { pattern, replace } => regex_replaced(pattern@, text, replace@),
    }
}

/// Whether `pat` occurs in `text` starting at position `i`.
fn matches_at(text: &str, n: usize, i: usize, pat: &str, m: usize) -> (b: bool)
    requires
        n == text@.len(),
        m == pat@.len(),
        i + m <= n,
    ensures
        b == (text@.subrange(i as int, i + m) == pat@),
{
    let mut k: usize = 0;
    while k < m
        invariant
            n == text@.len(),
            m == pat@.len(),
            i + m <= n,
            k <= m,
            forall|j: int| 0 <= j < k ==> text@[i + j] == pat@[j],
        decreases m - k,
    {
        if text.get_char(i + k) != pat.get_char(k) {
            proof {
                assert(text@.subrange(i as int, i + m)[k as int] != pat@[k as int]);
            }
            return false;
        }
        k += 1;
    }
    proof {
        assert(text@.subrange(i as int, i + m) =~= pat@);
    }
    true
}

/// Replaces every non-overlapping, leftmost occurrence of the literal
/// `pat` by `rep`.
fn replace_literal(text: &str, pat: &str, rep: &str) -> (r: String)
    ensures
        r@ == lit_replace_spec(text@, pat@, rep@),
{
    let n = text.unicode_len();
    let m = pat.unicode_len();
    if m == 0 || m > n {
        let r = String::from_str(text);
        return r;
    }
    let mut out = String::new();
    let mut seg: usize = 0;
    let mut i: usize = 0;
    proof {
        assert(text@.skip(0) =~= text@);
        assert(text@.subrange(0, 0) =~= Seq::<char>::empty());
        assert(out@ + text@.subrange(0, 0) + lit_replace_spec(text@, pat@, rep@) =~= lit_replace_spec(
            text@,
            pat@,
            rep@,
        ));
    }
    while i <= n - m
        invariant
            n == text@.len(),
            m == pat@.len(),
            0 < m <= n,
            seg <= i <= n,
            lit_replace_spec(text@, pat@, rep@) == out@ + text@.subrange(seg as int, i as int)
                + lit_replace_spec(text@.skip(i as int), pat@, rep@),
        decreases n - i,
    {
        let hit = matches_at(text, n, i, pat, m);
        let ghost tail = text@.skip(i as int);
        proof {
            assert(tail.take(m as int) =~= text@.subrange(i as int, i + m));
            assert(tail.len() >= m);
        }
        if hit {
            out.append(text.substring_char(seg, i));
            out.append(rep);
            proof {
                assert(lit_replace_spec(tail, pat@, rep@) == rep@ + lit_replace_spec(
                    tail.skip(m as int),
                    pat@,
                    rep@,
                ));
                assert(tail.skip(m as int) =~= text@.skip(i + m));
                assert(text@.subrange((i + m) as int, (i + m) as int) =~= Seq::<char>::empty());
                assert(out@ + text@.subrange((i + m) as int, (i + m) as int) + lit_replace_spec(
                    text@.skip(i + m),
                    pat@,
                    rep@,
                ) =~= lit_replace_spec(text@, pat@, rep@));
            }
            i = i + m;
            seg = i;
        } else {
            proof {
                assert(lit_replace_spec(tail, pat@, rep@) == tail.take(1) + lit_replace_spec(
                    tail.skip(1),
                    pat@,
                    rep@,
                ));
                assert(tail.skip(1) =~= text@.skip(i + 1));
                assert(text@.subrange(seg as int, i as int) + tail.take(1) =~= text@.subrange(
                    seg as int,
                    i + 1,
                ));
                assert(out@ + text@.subrange(seg as int, i + 1) + lit_replace_spec(
                    text@.skip(i + 1),
                    pat@,
                    rep@,
                ) =~= lit_replace_spec(text@, pat@, rep@));
            }
            i = i + 1;
        }
    }
    out.append(text.substring_char(seg, n));
    proof {
        let tail = text@.skip(i as int);
        assert(tail.len() < m);
        assert(lit_replace_spec(tail, pat@, rep@) == tail);
        assert(text@.subrange(seg as int, i as int) + tail =~= text@.subrange(seg as int, n as int));
        assert(out@ =~= lit_replace_spec(text@, pat@, rep@));
    }
    out
}

impl Engine {
    /// Applies the engine to `before`, producing the candidate new
    /// text. Pure: no side effects, total over all input text.
    pub fn replace(&self, before: &str) -> (r: String)
        ensures
            r@ == engine_replace_spec(*self, before@),
    {
        match self {
            Engine::Literal { pattern, replace } => replace_literal(
                before,
                pattern.as_str(),
                replace.as_str(),
            ),
            Engine::Regex { pattern, replace } => regex_replace_all(
                pattern.as_str(),
                before,
                replace.as_str(),
            ),
        }
    }
}

} // verus!
