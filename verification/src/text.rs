//! Character-level text helpers: line splitting and joining, and
//! decimal rendering of hunk line numbers.

use vstd::prelude::*;

verus! {

/// The character for a single decimal digit.
pub open spec fn digit_char(d: nat) -> char {
    if d == 0 {
        '0'
    } else if d == 1 {
        '1'
    } else if d == 2 {
        '2'
    } else if d == 3 {
        '3'
    } else if d == 4 {
        '4'
    } else if d == 5 {
        '5'
    } else if d == 6 {
        '6'
    } else if d == 7 {
        '7'
    } else if d == 8 {
        '8'
    } else {
        '9'
    }
}

/// The usual decimal rendering of a natural number, most significant
/// digit first, with no leading zeros (except for zero itself).
pub open spec fn dec_spec(n: nat) -> Seq<char>
    decreases n,
{
    if n < 10 {
        seq![digit_char(n)]
    } else {
        dec_spec(n / 10) + seq![digit_char(n % 10)]
    }
}

fn digit_str(d: u128) -> (s: &'static str)
    requires
        d < 10,
    ensures
        s@ =~= seq![digit_char(d as nat)],
{
    let s: &'static str = match d {
        0 => "0",
        1 => "1",
        2 => "2",
        3 => "3",
        4 => "4",
        5 => "5",
        6 => "6",
        7 => "7",
        8 => "8",
        _ => "9",
    };
    proof {
        reveal_strlit("0");
        reveal_strlit("1");
        reveal_strlit("2");
        reveal_strlit("3");
        reveal_strlit("4");
        reveal_strlit("5");
        reveal_strlit("6");
        reveal_strlit("7");
        reveal_strlit("8");
        reveal_strlit("9");
    }
    s
}

/// Renders a number in decimal.
pub fn dec_string(n: u128) -> (r: String)
    ensures
        r@ == dec_spec(n as nat),
    decreases n,
{
    if n < 10 {
        let r = String::from_str(digit_str(n));
        proof {
            assert(r@ =~= dec_spec(n as nat));
        }
        r
    } else {
        let mut r = dec_string(n / 10);
        r.append(digit_str(n % 10));
        proof {
            assert(r@ =~= dec_spec(n as nat));
        }
        r
    }
}

/// The lines of a text, split at every `'\n'`. The separator is not
/// kept; a trailing `'\n'` yields a final empty line, and the empty
/// text yields one empty line.
pub open spec fn split_lines_spec(s: Seq<char>) -> Seq<Seq<char>>
    decreases s.len(),
{
    if s.len() == 0 {
        seq![Seq::<char>::empty()]
    } else if s[0] == '\n' {
        seq![Seq::<char>::empty()] + split_lines_spec(s.drop_first())
    } else {
        let rest = split_lines_spec(s.drop_first());
        seq![seq![s[0]] + rest[0]] + rest.drop_first()
    }
}

/// The text with the given lines, separated by `'\n'`.
pub open spec fn join_lines_spec(ls: Seq<Seq<char>>) -> Seq<char>
    decreases ls.len(),
{
    if ls.len() == 0 {
        Seq::<char>::empty()
    } else if ls.len() == 1 {
        ls[0]
    } else {
        ls[0] + seq!['\n'] + join_lines_spec(ls.drop_first())
    }
}

pub proof fn lemma_split_lines_len(s: Seq<char>)
    ensures
        split_lines_spec(s).len() >= 1,
    decreases s.len(),
{
    if s.len() > 0 {
        lemma_split_lines_len(s.drop_first());
    }
}

/// Joining the lines of a text gives the text back: splitting loses
/// nothing.
pub proof fn lemma_join_split(s: Seq<char>)
    ensures
        join_lines_spec(split_lines_spec(s)) == s,
    decreases s.len(),
{
    if s.len() == 0 {
        assert(join_lines_spec(split_lines_spec(s)) =~= s);
    } else if s[0] == '\n' {
        lemma_join_split(s.drop_first());
        lemma_split_lines_len(s.drop_first());
        let rest = split_lines_spec(s.drop_first());
        assert(split_lines_spec(s) == seq![Seq::<char>::empty()] + rest);
        assert((seq![Seq::<char>::empty()] + rest).drop_first() =~= rest);
        assert(join_lines_spec(split_lines_spec(s)) =~= s);
    } else {
        lemma_join_split(s.drop_first());
        lemma_split_lines_len(s.drop_first());
        let rest = split_lines_spec(s.drop_first());
        let head = seq![s[0]] + rest[0];
        assert(split_lines_spec(s) == seq![head] + rest.drop_first());
        if rest.len() == 1 {
            assert(split_lines_spec(s) =~= seq![head]);
            assert(join_lines_spec(split_lines_spec(s)) == head);
            assert(join_lines_spec(rest) == rest[0]);
            assert(head =~= s);
        } else {
            let sp = seq![head] + rest.drop_first();
            assert(sp.len() >= 2);
            assert(sp[0] == head);
            assert(sp.drop_first() =~= rest.drop_first());
            assert(join_lines_spec(sp) == head + seq!['\n'] + join_lines_spec(rest.drop_first()));
            assert(join_lines_spec(rest) == rest[0] + seq!['\n'] + join_lines_spec(rest.drop_first()));
            assert(join_lines_spec(rest) == s.drop_first());
            assert(join_lines_spec(sp) =~= seq![s[0]] + join_lines_spec(rest));
            assert(seq![s[0]] + s.drop_first() =~= s);
        }
    }
}

pub proof fn lemma_split_no_nl(s: Seq<char>)
    requires
        forall|j: int| 0 <= j < s.len() ==> s[j] != '\n',
    ensures
        split_lines_spec(s) == seq![s],
    decreases s.len(),
{
    if s.len() == 0 {
        assert(s =~= Seq::<char>::empty());
        assert(split_lines_spec(s) =~= seq![s]);
    } else {
        lemma_split_no_nl(s.drop_first());
        let rest = split_lines_spec(s.drop_first());
        assert(rest == seq![s.drop_first()]);
        assert(seq![s[0]] + rest[0] =~= s);
        assert(rest.drop_first() =~= Seq::<Seq<char>>::empty());
        assert(split_lines_spec(s) =~= seq![s]);
    }
}

pub proof fn lemma_seq_concat_empty<T>(xs: Seq<T>)
    ensures
        Seq::<T>::empty() + xs == xs,
{
    assert(Seq::<T>::empty() + xs =~= xs);
}

pub proof fn lemma_split_first_nl(s: Seq<char>, i: int)
    requires
        0 <= i < s.len(),
        s[i] == '\n',
        forall|j: int| 0 <= j < i ==> s[j] != '\n',
    ensures
        split_lines_spec(s) == seq![s.take(i)] + split_lines_spec(s.skip(i + 1)),
    decreases i,
{
    if i == 0 {
        assert(s.drop_first() =~= s.skip(1));
        assert(s.take(0) =~= Seq::<char>::empty());
        assert(split_lines_spec(s) =~= seq![s.take(0)] + split_lines_spec(s.skip(1)));
    } else {
        let d = s.drop_first();
        assert(d[i - 1] == '\n');
        assert(forall|j: int| 0 <= j < i - 1 ==> d[j] != '\n');
        lemma_split_first_nl(d, i - 1);
        let rest = split_lines_spec(d);
        let tail = split_lines_spec(d.skip(i));
        assert(rest == seq![d.take(i - 1)] + tail);
        lemma_split_lines_len(d.skip(i));
        assert(rest[0] == d.take(i - 1));
        assert(seq![s[0]] + d.take(i - 1) =~= s.take(i));
        assert(rest.drop_first() =~= tail);
        assert(d.skip(i) =~= s.skip(i + 1));
        assert(split_lines_spec(s) == seq![seq![s[0]] + rest[0]] + rest.drop_first());
        assert(split_lines_spec(s) =~= seq![s.take(i)] + split_lines_spec(s.skip(i + 1)));
    }
}

/// Splits a text into its lines at every `'\n'`.
pub fn split_lines(s: &str) -> (r: Vec<String>)
    ensures
        r.deep_view() == split_lines_spec(s@),
        r@.len() >= 1,
{
    let n = s.unicode_len();
    let mut out: Vec<String> = Vec::new();
    let mut start: usize = 0;
    let mut i: usize = 0;
    proof {
        assert(s@.skip(0) =~= s@);
        assert(out.deep_view() =~= Seq::<Seq<char>>::empty());
        lemma_seq_concat_empty::<Seq<char>>(split_lines_spec(s@));
    }
    while i < n
        invariant
            n == s@.len(),
            start <= i <= n,
            forall|j: int| start <= j < i ==> s@[j] != '\n',
            split_lines_spec(s@) == out.deep_view() + split_lines_spec(s@.skip(start as int)),
        decreases n - i,
    {
        let c = s.get_char(i);
        if c == '\n' {
            let line = String::from_str(s.substring_char(start, i));
            let ghost old_out = out.deep_view();
            out.push(line);
            proof {
                let tail = s@.skip(start as int);
                assert(tail[i - start as int] == '\n');
                assert(forall|j: int| 0 <= j < i - start as int ==> tail[j] != '\n');
                lemma_split_first_nl(tail, i - start as int);
                assert(tail.take(i - start as int) =~= s@.subrange(start as int, i as int));
                assert(tail.skip(i - start as int + 1) =~= s@.skip(i as int + 1));
                assert(out.deep_view() =~= old_out.push(line@));
                assert(out.deep_view() + split_lines_spec(s@.skip(i as int + 1)) =~= old_out
                    + split_lines_spec(s@.skip(start as int)));
            }
            start = i + 1;
        }
        i += 1;
    }
    let line = String::from_str(s.substring_char(start, n));
    let ghost old_out = out.deep_view();
    out.push(line);
    proof {
        let tail = s@.skip(start as int);
        lemma_split_no_nl(tail);
        assert(tail =~= s@.subrange(start as int, n as int));
        assert(out.deep_view() =~= old_out.push(line@));
        assert(out.deep_view() =~= old_out + split_lines_spec(tail));
    }
    out
}

pub proof fn lemma_join_push(xs: Seq<Seq<char>>, y: Seq<char>)
    requires
        xs.len() >= 1,
    ensures
        join_lines_spec(xs.push(y)) == join_lines_spec(xs) + seq!['\n'] + y,
    decreases xs.len(),
{
    if xs.len() == 1 {
        let p = xs.push(y);
        assert(p.len() == 2);
        assert(p.drop_first() =~= seq![y]);
        assert(p[0] == xs[0]);
        assert(join_lines_spec(p.drop_first()) == y);
        assert(join_lines_spec(p) == xs[0] + seq!['\n'] + y);
    } else {
        lemma_join_push(xs.drop_first(), y);
        let p = xs.push(y);
        assert(p.drop_first() =~= xs.drop_first().push(y));
        assert(join_lines_spec(p) == p[0] + seq!['\n'] + join_lines_spec(p.drop_first()));
        assert(join_lines_spec(p) =~= join_lines_spec(xs) + seq!['\n'] + y);
    }
}

/// Joins lines with `'\n'` between them.
pub fn join_lines(ls: &Vec<String>) -> (r: String)
    ensures
        r@ == join_lines_spec(ls.deep_view()),
{
    if ls.len() == 0 {
        let r = String::new();
        proof {
            assert(ls.deep_view().len() == 0);
        }
        return r;
    }
    let mut acc = ls[0].clone();
    let mut k: usize = 1;
    proof {
        assert(ls.deep_view().take(1) =~= seq![ls@[0]@]);
    }
    while k < ls.len()
        invariant
            1 <= k <= ls@.len(),
            acc@ == join_lines_spec(ls.deep_view().take(k as int)),
        decreases ls@.len() - k,
    {
        acc.append("\n");
        acc.append(ls[k].as_str());
        proof {
            reveal_strlit("\n");
            let pre = ls.deep_view().take(k as int);
            lemma_join_push(pre, ls@[k as int]@);
            assert(pre.push(ls@[k as int]@) =~= ls.deep_view().take(k as int + 1));
            assert("\n"@ =~= seq!['\n']);
        }
        k += 1;
    }
    proof {
        assert(ls.deep_view().take(ls@.len() as int) =~= ls.deep_view());
    }
    acc
}

/// The index right after the last `'/'` of a path; `0` when the path
/// has no `'/'`. The file-name component is everything from there on.
pub open spec fn base_name_start(s: Seq<char>) -> int
    decreases s.len(),
{
    if s.len() == 0 {
        0
    } else if s.last() == '/' {
        s.len() as int
    } else {
        base_name_start(s.drop_last())
    }
}

pub proof fn lemma_base_name_char(s: Seq<char>, k: int)
    requires
        0 <= k <= s.len(),
        k == 0 || s[k - 1] == '/',
        forall|j: int| k <= j < s.len() ==> s[j] != '/',
    ensures
        base_name_start(s) == k,
    decreases s.len(),
{
    if s.len() == 0 {
    } else if k == s.len() {
        assert(s.last() == '/');
    } else {
        assert(s.last() != '/');
        assert(forall|j: int| k <= j < s.drop_last().len() ==> s.drop_last()[j] != '/');
        if k > 0 {
            assert(s.drop_last()[k - 1] == '/');
        }
        lemma_base_name_char(s.drop_last(), k);
    }
}

/// Finds where the file-name component of a path begins: right after
/// the last `'/'`, or at the start when there is none.
pub fn base_name_index(s: &str) -> (r: usize)
    ensures
        r == base_name_start(s@),
{
    let n = s.unicode_len();
    let mut i: usize = n;
    while i > 0
        invariant
            n == s@.len(),
            i <= n,
            forall|j: int| i <= j < n ==> s@[j] != '/',
        decreases i,
    {
        if s.get_char(i - 1) == '/' {
            proof {
                lemma_base_name_char(s@, i as int);
            }
            return i;
        }
        i -= 1;
    }
    proof {
        lemma_base_name_char(s@, 0);
    }
    0
}

} // verus!
