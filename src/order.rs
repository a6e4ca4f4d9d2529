//! Ordering solves by date.

use vstd::prelude::*;

use crate::models::ResultEntry;

verus! {

/// `a` is no later than `b` in the lexicographic order of their characters.
///
/// On `YYYY-MM-DD` dates this is the chronological order.
pub open spec fn text_le(a: Seq<char>, b: Seq<char>) -> bool
    decreases a.len(),
{
    if a.len() == 0 {
        true
    } else if b.len() == 0 {
        false
    } else if a[0] != b[0] {
        a[0] < b[0]
    } else {
        text_le(a.drop_first(), b.drop_first())
    }
}

/// The dates of `s` never decrease.
pub open spec fn sorted_by_date(s: Seq<ResultEntry>) -> bool {
    forall|i: int, j: int| 0 <= i < j < s.len() ==> text_le(s[i].date@, s[j].date@)
}

/// Whether an entry is dated `d`.
pub open spec fn has_date(d: Seq<char>) -> spec_fn(ResultEntry) -> bool {
    |e: ResultEntry| e.date@ == d
}

/// The entries of `s` dated `d`, in their order in `s`.
pub open spec fn dated(s: Seq<ResultEntry>, d: Seq<char>) -> Seq<ResultEntry> {
    s.filter(has_date(d))
}

proof fn lemma_text_le_reflexive(a: Seq<char>)
    ensures
        text_le(a, a),
    decreases a.len(),
{
    if a.len() > 0 {
        lemma_text_le_reflexive(a.drop_first());
    }
}

proof fn lemma_text_le_total(a: Seq<char>, b: Seq<char>)
    ensures
        text_le(a, b) || text_le(b, a),
    decreases a.len(),
{
    if a.len() > 0 && b.len() > 0 && a[0] == b[0] {
        lemma_text_le_total(a.drop_first(), b.drop_first());
    }
}

proof fn lemma_text_le_transitive(a: Seq<char>, b: Seq<char>, c: Seq<char>)
    requires
        text_le(a, b),
        text_le(b, c),
    ensures
        text_le(a, c),
    decreases a.len(),
{
    if a.len() > 0 && b.len() > 0 && c.len() > 0 && a[0] == b[0] && b[0] == c[0] {
        lemma_text_le_transitive(a.drop_first(), b.drop_first(), c.drop_first());
    }
}

/// Compares two texts in the order of `text_le`.
fn text_le_exec(a: &str, b: &str) -> (r: bool)
    ensures
        r == text_le(a@, b@),
{
    let la = a.unicode_len();
    let lb = b.unicode_len();
    let mut i: usize = 0;
    assert(a@.skip(0) =~= a@);
    assert(b@.skip(0) =~= b@);
    while i < la && i < lb
        invariant
            la == a@.len(),
            lb == b@.len(),
            i <= la,
            i <= lb,
            text_le(a@, b@) == text_le(a@.skip(i as int), b@.skip(i as int)),
        decreases la - i,
    {
        let ca = a.get_char(i);
        let cb = b.get_char(i);
        if ca != cb {
            return ca < cb;
        }
        assert(a@.skip(i as int).drop_first() =~= a@.skip(i + 1));
        assert(b@.skip(i as int).drop_first() =~= b@.skip(i + 1));
        i = i + 1;
    }
    i == la
}

proof fn lemma_dated_none(s: Seq<ResultEntry>, d: Seq<char>)
    requires
        forall|j: int| 0 <= j < s.len() ==> s[j].date@ != d,
    ensures
        dated(s, d) == Seq::<ResultEntry>::empty(),
    decreases s.len(),
{
    reveal(Seq::filter);
    if s.len() > 0 {
        lemma_dated_none(s.drop_last(), d);
    }
}

proof fn lemma_dated_push(s: Seq<ResultEntry>, x: ResultEntry, d: Seq<char>)
    ensures
        dated(s.push(x), d) == if x.date@ == d {
            dated(s, d).push(x)
        } else {
            dated(s, d)
        },
{
    reveal(Seq::filter);
    assert(s.push(x).drop_last() =~= s);
}

/// Inserting `x` before every entry with a later date keeps, for each date,
/// the order of the entries with that date, with `x` last among its own.
proof fn lemma_dated_insert(s: Seq<ResultEntry>, pos: int, x: ResultEntry, d: Seq<char>)
    requires
        0 <= pos <= s.len(),
        forall|j: int| pos <= j < s.len() ==> s[j].date@ != x.date@,
    ensures
        dated(s.insert(pos, x), d) == if x.date@ == d {
            dated(s, d).push(x)
        } else {
            dated(s, d)
        },
{
    let pred = has_date(d);
    let front = s.subrange(0, pos);
    let back = s.subrange(pos, s.len() as int);
    assert(s.insert(pos, x) =~= front + (seq![x] + back));
    assert(s =~= front + back);
    Seq::filter_distributes_over_add(front, seq![x] + back, pred);
    Seq::filter_distributes_over_add(seq![x], back, pred);
    Seq::filter_distributes_over_add(front, back, pred);
    reveal_with_fuel(Seq::filter, 2);
    assert(seq![x].drop_last() =~= Seq::<ResultEntry>::empty());
    if x.date@ == d {
        lemma_dated_none(back, d);
        assert(seq![x].filter(pred) =~= seq![x]);
        assert(front.filter(pred) + (seq![x] + back.filter(pred)) =~= (front.filter(pred)
            + back.filter(pred)).push(x));
    } else {
        assert(seq![x].filter(pred) =~= Seq::<ResultEntry>::empty());
        assert(front.filter(pred) + (Seq::<ResultEntry>::empty() + back.filter(pred))
            =~= front.filter(pred) + back.filter(pred));
    }
}

/// Stable sort of `entries` by date, earliest first.
///
/// For each date, the entries with that date keep their relative order.
pub fn sort_by_date(entries: &[ResultEntry]) -> (r: Vec<ResultEntry>)
    ensures
        r@.len() == entries@.len(),
        sorted_by_date(r@),
        forall|d: Seq<char>| #[trigger] dated(r@, d) == dated(entries@, d),
{
    let n = entries.len();
    let mut out: Vec<ResultEntry> = Vec::new();
    let mut i: usize = 0;
    while i < n
        invariant
            n == entries@.len(),
            i <= n,
            out@.len() == i,
            sorted_by_date(out@),
            forall|d: Seq<char>|
                #[trigger] dated(out@, d) == dated(entries@.subrange(0, i as int), d),
        decreases n - i,
    {
        let x = entries[i].clone();
        let mut pos: usize = 0;
        while pos < out.len() && text_le_exec(out[pos].date.as_str(), x.date.as_str())
            invariant
                pos <= out@.len(),
                forall|j: int| 0 <= j < pos ==> text_le(#[trigger] out@[j].date@, x.date@),
            decreases out@.len() - pos,
        {
            pos = pos + 1;
        }
        let ghost old_out = out@;
        proof {
            assert forall|j: int| pos <= j < old_out.len() implies old_out[j].date@
                != x.date@ && text_le(x.date@, old_out[j].date@) by {
                lemma_text_le_total(old_out[pos as int].date@, x.date@);
                if j > pos {
                    lemma_text_le_transitive(
                        x.date@,
                        old_out[pos as int].date@,
                        old_out[j].date@,
                    );
                }
                if old_out[j].date@ == x.date@ {
                    if j > pos {
                        assert(text_le(old_out[pos as int].date@, old_out[j].date@));
                    } else {
                        lemma_text_le_reflexive(x.date@);
                    }
                }
            }
        }
        out.insert(pos, x);
        proof {
            assert(entries@.subrange(0, i + 1) =~= entries@.subrange(0, i as int).push(
                entries@[i as int],
            ));
            assert forall|d: Seq<char>| #[trigger]
                dated(out@, d) == dated(entries@.subrange(0, i + 1), d) by {
                lemma_dated_insert(old_out, pos as int, entries@[i as int], d);
                lemma_dated_push(entries@.subrange(0, i as int), entries@[i as int], d);
            }
            assert forall|a: int, b: int| 0 <= a < b < out@.len() implies text_le(
                out@[a].date@,
                out@[b].date@,
            ) by {
                if b < pos {
                } else if a > pos {
                } else if a == pos {
                } else if b == pos {
                } else {
                    assert(out@[b] == old_out[b - 1]);
                }
            }
        }
        i = i + 1;
    }
    assert(entries@.subrange(0, n as int) =~= entries@);
    out
}

} // verus!
