//! Lines of text: their order, sorting them, and joining them.
use crate::surface;
use crate::text;
use vstd::prelude::*;

verus! {

/// `a` comes before `b`, or is `b`, in the order of the characters' code points.
pub open spec fn at_or_before(a: Seq<char>, b: Seq<char>) -> bool
    decreases a.len(),
{
    ||| a.len() == 0
    ||| b.len() > 0 && (a[0] < b[0] || (a[0] == b[0] && at_or_before(
        a.drop_first(),
        b.drop_first(),
    )))
}

/// The order of lines, as a relation.
pub open spec fn line_order() -> spec_fn(Seq<char>, Seq<char>) -> bool {
    |a: Seq<char>, b: Seq<char>| at_or_before(a, b)
}

/// `lines` in order.
pub open spec fn sorted(lines: Seq<Seq<char>>) -> Seq<Seq<char>> {
    lines.sort_by(line_order())
}

/// `lines`, with a newline between each and the next.
pub open spec fn joined(lines: Seq<Seq<char>>) -> Seq<char>
    decreases lines.len(),
{
    if lines.len() == 0 {
        Seq::empty()
    } else if lines.len() == 1 {
        lines[0]
    } else {
        joined(lines.drop_last()) + seq!['\n'] + lines.last()
    }
}

/// `s` has no newline.
pub open spec fn is_one_line(s: Seq<char>) -> bool {
    forall|i: int| 0 <= i < s.len() ==> s[i] != '\n'
}

proof fn lemma_order_reflexive(a: Seq<char>)
    ensures
        at_or_before(a, a),
    decreases a.len(),
{
    if a.len() > 0 {
        lemma_order_reflexive(a.drop_first());
    }
}

proof fn lemma_order_total(a: Seq<char>, b: Seq<char>)
    ensures
        at_or_before(a, b) || at_or_before(b, a),
    decreases a.len(),
{
    if a.len() > 0 && b.len() > 0 {
        lemma_order_total(a.drop_first(), b.drop_first());
    }
}

proof fn lemma_order_antisymmetric(a: Seq<char>, b: Seq<char>)
    requires
        at_or_before(a, b),
        at_or_before(b, a),
    ensures
        a == b,
    decreases a.len(),
{
    if a.len() > 0 && b.len() > 0 {
        lemma_order_antisymmetric(a.drop_first(), b.drop_first());
        assert(a =~= seq![a[0]] + a.drop_first());
        assert(b =~= seq![b[0]] + b.drop_first());
    } else {
        assert(a =~= b);
    }
}

proof fn lemma_order_transitive(a: Seq<char>, b: Seq<char>, c: Seq<char>)
    requires
        at_or_before(a, b),
        at_or_before(b, c),
    ensures
        at_or_before(a, c),
    decreases a.len(),
{
    if a.len() > 0 && a[0] == b[0] && b[0] == c[0] {
        lemma_order_transitive(a.drop_first(), b.drop_first(), c.drop_first());
    }
}

/// The order of lines is total.
pub proof fn lemma_line_order_total()
    ensures
        vstd::relations::total_ordering(line_order()),
{
    let leq = line_order();
    assert forall|a: Seq<char>| #[trigger] leq(a, a) by {
        lemma_order_reflexive(a);
    }
    assert forall|a: Seq<char>, b: Seq<char>| #[trigger] leq(a, b) && #[trigger] leq(b, a) implies a
        == b by {
        lemma_order_antisymmetric(a, b);
    }
    assert forall|a: Seq<char>, b: Seq<char>, c: Seq<char>| #[trigger]
        leq(a, b) && #[trigger] leq(b, c) implies leq(a, c) by {
        lemma_order_transitive(a, b, c);
    }
    assert forall|a: Seq<char>, b: Seq<char>| #[trigger] leq(a, b) || #[trigger] leq(b, a) by {
        lemma_order_total(a, b);
    }
}

/// Two collections of lines are the same in order if and only if they hold the
/// same lines, each as often.
pub proof fn lemma_sorted_same(a: Seq<Seq<char>>, b: Seq<Seq<char>>)
    ensures
        sorted(a) == sorted(b) <==> a.to_multiset() == b.to_multiset(),
{
    lemma_line_order_total();
    a.lemma_sort_by_ensures(line_order());
    b.lemma_sort_by_ensures(line_order());
    if a.to_multiset() == b.to_multiset() {
        vstd::seq_lib::lemma_sorted_unique(sorted(a), sorted(b), line_order());
    }
}

/// Sorting neither adds nor drops lines.
pub proof fn lemma_sorted_members(lines: Seq<Seq<char>>)
    ensures
        sorted(lines).len() == lines.len(),
        forall|line: Seq<char>| #[trigger] sorted(lines).contains(line) ==> lines.contains(line),
{
    lemma_line_order_total();
    lines.lemma_sort_by_ensures(line_order());
    broadcast use vstd::seq_lib::group_to_multiset_ensures;

    assert(sorted(lines).to_multiset().len() == lines.to_multiset().len());
}

proof fn lemma_joined_has_newline(lines: Seq<Seq<char>>)
    requires
        lines.len() >= 2,
    ensures
        !is_one_line(joined(lines)),
{
    let at = joined(lines.drop_last()).len() as int;
    assert(joined(lines)[at] == '\n');
}

/// Joining is one-to-one on lines that are not empty and have no newline.
pub proof fn lemma_joined_injective(a: Seq<Seq<char>>, b: Seq<Seq<char>>)
    requires
        joined(a) == joined(b),
        forall|i: int| 0 <= i < a.len() ==> is_one_line(#[trigger] a[i]) && a[i].len() > 0,
        forall|i: int| 0 <= i < b.len() ==> is_one_line(#[trigger] b[i]) && b[i].len() > 0,
    ensures
        a == b,
    decreases a.len(),
{
    if a.len() >= 2 {
        lemma_joined_has_newline(a);
    }
    if b.len() >= 2 {
        lemma_joined_has_newline(b);
    }
    if a.len() == 0 {
        assert(a =~= b);
    } else if a.len() == 1 {
        assert(is_one_line(a[0]));
        assert(b.len() == 1);
        assert(a =~= b);
    } else {
        if b.len() == 1 {
            assert(is_one_line(b[0]));
        }
        assert(b.len() >= 2);
        let whole = joined(a);
        let before_a = joined(a.drop_last());
        let before_b = joined(b.drop_last());
        let (m, n) = (before_a.len() as int, before_b.len() as int);
        assert(whole[m] == '\n');
        assert(whole[n] == '\n');
        if m < n {
            assert(whole[n] == a.last()[n - m - 1]);
        } else if n < m {
            assert(whole[m] == b.last()[m - n - 1]);
        }
        assert(m == n);
        assert(before_a =~= whole.take(m));
        assert(before_b =~= whole.take(m));
        assert(a.last() =~= whole.skip(m + 1));
        assert(b.last() =~= whole.skip(m + 1));
        lemma_joined_injective(a.drop_last(), b.drop_last());
        assert(a =~= a.drop_last().push(a.last()));
        assert(b =~= b.drop_last().push(b.last()));
    }
}

/// Sequences with the same items, each as often, still have the same items once
/// every item is mapped.
pub proof fn lemma_mapped_multiset<A, B>(a: Seq<A>, b: Seq<A>, f: spec_fn(A) -> B)
    requires
        a.to_multiset() == b.to_multiset(),
    ensures
        a.map_values(f).to_multiset() == b.map_values(f).to_multiset(),
    decreases a.len(),
{
    broadcast use vstd::seq_lib::group_to_multiset_ensures;
    broadcast use vstd::multiset::group_multiset_axioms;

    a.to_multiset_ensures();
    b.to_multiset_ensures();
    if a.len() == 0 {
        assert(a.map_values(f) =~= b.map_values(f));
    } else {
        let x = a.last();
        let rest = a.drop_last();
        assert(a.contains(x));
        assert(b.to_multiset().count(x) > 0);
        assert(b.contains(x));
        let k = choose|k: int| 0 <= k < b.len() && b[k] == x;
        assert(rest =~= a.remove(a.len() - 1));
        assert(rest.to_multiset() =~= b.remove(k).to_multiset());
        lemma_mapped_multiset(rest, b.remove(k), f);
        assert(a.map_values(f) =~= rest.map_values(f).push(f(x)));
        assert(b.map_values(f) =~= b.remove(k).map_values(f).insert(k, f(x)));
    }
}

fn comes_at_or_before(a: &str, b: &str) -> (res: bool)
    ensures
        res == at_or_before(a@, b@),
{
    let left = text::chars_of(a);
    let right = text::chars_of(b);
    let mut i: usize = 0;
    assert(a@.skip(0) =~= a@);
    assert(b@.skip(0) =~= b@);
    loop
        invariant
            i <= left.len(),
            i <= right.len(),
            left@ == a@,
            right@ == b@,
            at_or_before(a@, b@) == at_or_before(a@.skip(i as int), b@.skip(i as int)),
        decreases left.len() - i,
    {
        if i == left.len() {
            return true;
        }
        if i == right.len() {
            return false;
        }
        if left[i] != right[i] {
            return left[i] < right[i];
        }
        assert(a@.skip(i as int).drop_first() =~= a@.skip(i + 1));
        assert(b@.skip(i as int).drop_first() =~= b@.skip(i + 1));
        i += 1;
    }
}

/// `lines` in order.
pub(crate) fn sort(lines: Vec<String>) -> (res: Vec<String>)
    ensures
        surface::texts(res@) == sorted(surface::texts(lines@)),
{
    let ghost all = surface::texts(lines@);
    let mut out: Vec<String> = Vec::new();
    let mut i: usize = 0;
    proof {
        lemma_line_order_total();
        assert(surface::texts(out@) =~= all.take(0));
    }
    while i < lines.len()
        invariant
            i <= lines.len(),
            all == surface::texts(lines@),
            vstd::relations::total_ordering(line_order()),
            vstd::relations::sorted_by(surface::texts(out@), line_order()),
            surface::texts(out@).to_multiset() == all.take(i as int).to_multiset(),
        decreases lines.len() - i,
    {
        let line = lines[i].clone();
        let ghost before = surface::texts(out@);
        let mut k: usize = out.len();
        while k > 0 && !comes_at_or_before(out[k - 1].as_str(), line.as_str())
            invariant
                k <= out.len(),
                before == surface::texts(out@),
                vstd::relations::total_ordering(line_order()),
                forall|j: int|
                    k <= j < out@.len() ==> at_or_before(line@, #[trigger] before[j]),
            decreases k,
        {
            proof {
                lemma_order_total(out@[k - 1]@, line@);
                assert(before[k - 1] == out@[k - 1]@);
            }
            k -= 1;
        }
        out.insert(k, line);
        proof {
            broadcast use vstd::seq_lib::group_to_multiset_ensures;

            let after = surface::texts(out@);
            assert(after =~= before.insert(k as int, line@));
            assert(all.take(i + 1) =~= all.take(i as int).push(line@));
            vstd::seq_lib::to_multiset_insert(before, k as int, line@);
            let leq = line_order();
            if k > 0 {
                assert(before[k - 1] == out@[k - 1]@);
                assert(at_or_before(before[k - 1], line@));
            }
            assert forall|p: int, q: int| 0 <= p < q < after.len() implies #[trigger] leq(
                after[p],
                after[q],
            ) by {
                if p < k && q == k && p < k - 1 {
                    assert(leq(before[p], before[k - 1]));
                    lemma_order_transitive(before[p], before[k - 1], line@);
                } else if p < k && q < k {
                    assert(leq(before[p], before[q]));
                } else if p < k && q > k {
                    assert(leq(before[p], before[q - 1]));
                } else if p == k {
                    assert(at_or_before(line@, before[q - 1]));
                } else if p > k {
                    assert(leq(before[p - 1], before[q - 1]));
                }
            }
        }
        i += 1;
    }
    proof {
        assert(all.take(all.len() as int) =~= all);
        all.lemma_sort_by_ensures(line_order());
        vstd::seq_lib::lemma_sorted_unique(surface::texts(out@), sorted(all), line_order());
    }
    out
}

/// `lines`, with a newline between each and the next.
pub(crate) fn join(lines: &Vec<String>) -> (res: String)
    ensures
        res@ == joined(surface::texts(lines@)),
{
    let ghost all = surface::texts(lines@);
    let mut out = String::new();
    let mut i: usize = 0;
    while i < lines.len()
        invariant
            i <= lines.len(),
            all == surface::texts(lines@),
            out@ == joined(all.take(i as int)),
        decreases lines.len() - i,
    {
        proof {
            reveal_strlit("\n");
            assert("\n"@ =~= seq!['\n']);
            assert(all.take(i + 1).drop_last() =~= all.take(i as int));
        }
        if i > 0 {
            out.append("\n");
        }
        out.append(lines[i].as_str());
        assert(i == 0 ==> out@ =~= all[0]);
        i += 1;
    }
    assert(all.take(all.len() as int) =~= all);
    out
}

} // verus!
