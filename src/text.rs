//! Character-level helpers shared by the parser, the scanner and the patcher.
use vstd::prelude::*;
use vstd::string::*;

verus! {

/// `s` with `t` spliced in before the character at `at`.
pub open spec fn splice(s: Seq<char>, at: int, t: Seq<char>) -> Seq<char> {
    s.subrange(0, at) + t + s.subrange(at, s.len() as int)
}

/// The characters of `s`, one per element, so that they can be indexed cheaply.
pub fn chars_of(s: &str) -> (r: Vec<char>)
    ensures
        r@ == s@,
{
    let n = s.unicode_len();
    let mut r: Vec<char> = Vec::new();
    let mut i: usize = 0;
    while i < n
        invariant
            n == s@.len(),
            i <= n,
            r@ == s@.subrange(0, i as int),
        decreases n - i,
    {
        r.push(s.get_char(i));
        i = i + 1;
    }
    assert(r@ =~= s@);
    r
}

/// A new `String` holding the characters of `s` from `from` up to `to`.
pub fn owned_range(s: &str, from: usize, to: usize) -> (r: String)
    requires
        from <= to <= s@.len(),
    ensures
        r@ == s@.subrange(from as int, to as int),
{
    String::from_str(s.substring_char(from, to))
}

/// `s` with `t` inserted before its character at `at`.
pub fn splice_at(s: &str, at: usize, t: &str) -> (r: String)
    requires
        at <= s@.len(),
    ensures
        r@ == splice(s@, at as int, t@),
{
    let n = s.unicode_len();
    let mut r = owned_range(s, 0, at);
    r.append(t);
    r.append(s.substring_char(at, n));
    r
}


/// The parts of `ps` with `sep` between each two neighbours.
pub open spec fn joined(ps: Seq<Seq<char>>, sep: Seq<char>) -> Seq<char>
    decreases ps.len(),
{
    if ps.len() == 0 {
        Seq::empty()
    } else if ps.len() == 1 {
        ps[0]
    } else {
        joined(ps.drop_last(), sep) + sep + ps.last()
    }
}

/// The views of a vector of strings.
pub open spec fn views(v: Seq<String>) -> Seq<Seq<char>> {
    v.map_values(|s: String| s@)
}

/// The strings of `parts` with `sep` between each two neighbours.
pub fn join(parts: &Vec<String>, sep: &str) -> (r: String)
    ensures
        r@ == joined(views(parts@), sep@),
{
    let ghost ps = views(parts@);
    let mut r = String::new();
    let mut i: usize = 0;
    assert(ps.subrange(0, 0) =~= Seq::<Seq<char>>::empty());
    while i < parts.len()
        invariant
            ps == views(parts@),
            i <= parts@.len(),
            r@ == joined(ps.subrange(0, i as int), sep@),
        decreases parts@.len() - i,
    {
        assert(ps.subrange(0, i + 1).drop_last() =~= ps.subrange(0, i as int));
        if i > 0 {
            r.append(sep);
        } else {
            assert(ps.subrange(0, 1) =~= seq![ps[0]]);
            assert(r@ =~= Seq::<char>::empty());
        }
        r.append(parts[i].as_str());
        proof {
            if i == 0 {
                assert(r@ =~= ps[0]);
            }
        }
        i = i + 1;
    }
    assert(ps.subrange(0, i as int) =~= ps);
    r
}


/// `acc` with `x` added at the end, unless `have` or `acc` already holds it.
pub open spec fn add_fresh(acc: Seq<Seq<char>>, x: Seq<char>, have: Seq<Seq<char>>) -> Seq<Seq<char>> {
    if have.contains(x) || acc.contains(x) {
        acc
    } else {
        acc.push(x)
    }
}

/// The strings of `xs` that `have` lacks: each once, in order of first occurrence.
pub open spec fn fresh_names(xs: Seq<Seq<char>>, have: Seq<Seq<char>>) -> Seq<Seq<char>>
    decreases xs.len(),
{
    if xs.len() == 0 {
        Seq::empty()
    } else {
        add_fresh(fresh_names(xs.drop_last(), have), xs.last(), have)
    }
}


proof fn lemma_contains_drop_last(xs: Seq<Seq<char>>, x: Seq<char>)
    requires
        xs.len() > 0,
    ensures
        xs.contains(x) <==> (xs.drop_last().contains(x) || x == xs.last()),
{
    if xs.contains(x) {
        let i = choose|i: int| 0 <= i < xs.len() && xs[i] == x;
        if i < xs.len() - 1 {
            assert(xs.drop_last()[i] == x);
        }
    }
    if xs.drop_last().contains(x) {
        let i = choose|i: int| 0 <= i < xs.drop_last().len() && xs.drop_last()[i] == x;
        assert(xs[i] == x);
    }
    if x == xs.last() {
        assert(xs[xs.len() - 1] == x);
    }
}

/// `fresh_names(xs, have)` holds each string of `xs` that `have` lacks, and
/// nothing else, each exactly once.
pub proof fn lemma_fresh_names(xs: Seq<Seq<char>>, have: Seq<Seq<char>>)
    ensures
        fresh_names(xs, have).no_duplicates(),
        forall|x: Seq<char>| #[trigger] fresh_names(xs, have).contains(x) <==> (xs.contains(x) && !have.contains(x)),
    decreases xs.len(),
{
    broadcast use vstd::seq_lib::lemma_seq_contains_after_push;

    if xs.len() > 0 {
        let prev = fresh_names(xs.drop_last(), have);
        let last = xs.last();
        lemma_fresh_names(xs.drop_last(), have);
        assert forall|x: Seq<char>| #[trigger] fresh_names(xs, have).contains(x) <==> (xs.contains(x) && !have.contains(x)) by {
            lemma_contains_drop_last(xs, x);
        }
        if !(have.contains(last) || prev.contains(last)) {
            let r = prev.push(last);
            assert forall|i: int, j: int| 0 <= i < r.len() && 0 <= j < r.len() && i != j implies r[i] != r[j] by {
                if i == prev.len() {
                    assert(prev[j] == r[j]);
                } else if j == prev.len() {
                    assert(prev[i] == r[i]);
                } else {
                    assert(prev[i] == r[i] && prev[j] == r[j]);
                }
            }
        }
    }
}

} // verus!
