//! Text helpers: joining lines, reading characters, replacing.
use vstd::prelude::*;

verus! {

/// The lines joined by `sep`.
pub open spec fn join_lines(lines: Seq<Seq<char>>, sep: Seq<char>) -> Seq<char>
    decreases lines.len(),
{
    if lines.len() == 0 {
        Seq::empty()
    } else if lines.len() == 1 {
        lines[0]
    } else {
        join_lines(lines.drop_last(), sep) + sep + lines.last()
    }
}

/// The characters of a text.
pub fn chars_of(s: &str) -> (res: Vec<char>)
    ensures
        res@ == s@,
{
    let n = s.unicode_len();
    let mut res: Vec<char> = Vec::new();
    let mut i: usize = 0;
    while i < n
        invariant
            i <= n,
            n == s@.len(),
            res@ == s@.take(i as int),
        decreases n - i,
    {
        res.push(s.get_char(i));
        assert(res@ =~= s@.take(i + 1));
        i = i + 1;
    }
    assert(s@.take(n as int) =~= s@);
    res
}

/// Whether `pat` occurs in `cs` at position `at`.
pub fn occurs_at(cs: &Vec<char>, pat: &Vec<char>, at: usize) -> (res: bool)
    requires
        at <= cs@.len(),
    ensures
        res == pat@.is_prefix_of(cs@.skip(at as int)),
{
    if cs.len() - at < pat.len() {
        return false;
    }
    let mut k: usize = 0;
    while k < pat.len()
        invariant
            k <= pat.len(),
            at + pat.len() <= cs.len(),
            forall|j: int| 0 <= j < k ==> pat@[j] == cs@[at + j],
        decreases pat.len() - k,
    {
        if pat[k] != cs[at + k] {
            assert(pat@[k as int] != cs@.skip(at as int)[k as int]);
            return false;
        }
        k = k + 1;
    }
    assert(pat@ =~= cs@.skip(at as int).take(pat@.len() as int));
    true
}

/// `s` with every occurrence of `pat`, from left to right and without
/// overlap, replaced by `rep`.
pub open spec fn replace_all(s: Seq<char>, pat: Seq<char>, rep: Seq<char>) -> Seq<char>
    decreases s.len(),
{
    if s.len() == 0 {
        Seq::empty()
    } else if pat.len() > 0 && pat.is_prefix_of(s) {
        rep + replace_all(s.skip(pat.len() as int), pat, rep)
    } else {
        seq![s[0]] + replace_all(s.drop_first(), pat, rep)
    }
}

/// Where `pat` does not occur, nothing is replaced.
pub proof fn law_replace_without_match(s: Seq<char>, pat: Seq<char>, rep: Seq<char>)
    requires
        forall|i: int| 0 <= i <= s.len() ==> !pat.is_prefix_of(#[trigger] s.skip(i)),
    ensures
        replace_all(s, pat, rep) == s,
    decreases s.len(),
{
    if s.len() > 0 {
        assert(s.skip(0) =~= s);
        assert forall|i: int| 0 <= i <= s.drop_first().len() implies !pat.is_prefix_of(
            #[trigger] s.drop_first().skip(i),
        ) by {
            assert(s.drop_first().skip(i) =~= s.skip(i + 1));
        }
        law_replace_without_match(s.drop_first(), pat, rep);
        assert(s =~= seq![s[0]] + s.drop_first());
    }
}

/// An occurrence of `pat` at the start is replaced by `rep`, and the rest is
/// replaced on its own.
pub proof fn law_replace_leading_match(s: Seq<char>, pat: Seq<char>, rep: Seq<char>)
    requires
        pat.len() > 0,
    ensures
        replace_all(pat + s, pat, rep) == rep + replace_all(s, pat, rep),
{
    assert(pat.is_prefix_of(pat + s));
    assert((pat + s).skip(pat.len() as int) =~= s);
}

/// A leading character where `pat` does not start is kept.
pub proof fn law_replace_keeps_other_start(c: char, s: Seq<char>, pat: Seq<char>, rep: Seq<char>)
    requires
        !pat.is_prefix_of(seq![c] + s),
    ensures
        replace_all(seq![c] + s, pat, rep) == seq![c] + replace_all(s, pat, rep),
{
    assert((seq![c] + s).drop_first() =~= s);
}

/// Replaces every occurrence of `pat` in `s`, from left to right and without
/// overlap, by `rep`.
pub fn replace_text(s: &str, pat: &str, rep: &str) -> (res: String)
    requires
        pat@.len() > 0,
    ensures
        res@ == replace_all(s@, pat@, rep@),
{
    let cs = chars_of(s);
    let ps = chars_of(pat);
    let n = cs.len();
    let mut res = String::new();
    let mut run: usize = 0;
    let mut i: usize = 0;
    assert(cs@.skip(0) =~= cs@);
    while i < n
        invariant
            run <= i <= n,
            n == cs@.len(),
            cs@ == s@,
            ps@ == pat@,
            ps@.len() > 0,
            res@ + cs@.subrange(run as int, i as int) + replace_all(cs@.skip(i as int), pat@, rep@)
                == replace_all(s@, pat@, rep@),
        decreases n - i,
    {
        let ghost tail = cs@.skip(i as int);
        assert(tail.len() > 0);
        if occurs_at(&cs, &ps, i) {
            let ghost before = res@;
            let ghost pending = cs@.subrange(run as int, i as int);
            res.append(s.substring_char(run, i));
            res.append(rep);
            assert(tail.skip(pat@.len() as int) =~= cs@.skip(i + ps.len()));
            assert(res@ + cs@.subrange((i + ps.len()) as int, (i + ps.len()) as int) =~= before
                + pending + rep@);
            i = i + ps.len();
            run = i;
        } else {
            assert(tail.drop_first() =~= cs@.skip(i + 1));
            assert(cs@.subrange(run as int, i + 1) =~= cs@.subrange(run as int, i as int) + seq![
                tail[0],
            ]);
            i = i + 1;
        }
    }
    res.append(s.substring_char(run, n));
    assert(cs@.skip(n as int) =~= Seq::<char>::empty());
    res
}

} // verus!
