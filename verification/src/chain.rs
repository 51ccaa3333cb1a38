//! An effect chain: units run in order, their parameters numbered one after
//! another across the whole chain.

use vstd::prelude::*;

verus! {

/// A named pipeline of effect units, applied first to last.
pub struct EffectChain<E> {
    pub effects: Vec<E>,
    pub name: String,
}

impl<E> EffectChain<E> {
    /// An empty chain under the given name.
    pub fn new(name: &str) -> (r: Self)
        ensures
            r.effects@ == Seq::<E>::empty(),
            r.name@ == name@,
    {
        EffectChain { effects: Vec::new(), name: name.to_owned() }
    }

    /// The chain with one more unit at its end.
    pub fn push(self, e: E) -> (r: Self)
        ensures
            r.effects@ == self.effects@.push(e),
            r.name == self.name,
    {
        let mut s = self;
        s.effects.push(e);
        s
    }
}

/// The sum of a sequence of parameter counts.
pub open spec fn sum_counts(c: Seq<usize>) -> nat
    decreases c.len(),
{
    if c.len() == 0 {
        0
    } else {
        sum_counts(c.drop_last()) + (c.last() as nat)
    }
}

/// The chain-wide index of the first parameter of unit `k`.
pub open spec fn offset_of(c: Seq<usize>, k: int) -> nat {
    sum_counts(c.take(k))
}

/// Adding one unit to the prefix adds its count to the offset.
pub proof fn lemma_offset_step(c: Seq<usize>, k: int)
    requires
        0 <= k < c.len(),
    ensures
        offset_of(c, k + 1) == offset_of(c, k) + c[k],
{
    assert(c.take(k + 1).drop_last() =~= c.take(k));
}

/// Offsets never decrease along the chain, and none passes the total.
pub proof fn lemma_offset_monotone(c: Seq<usize>, a: int, b: int)
    requires
        0 <= a <= b <= c.len(),
    ensures
        offset_of(c, a) <= offset_of(c, b),
        offset_of(c, b) <= sum_counts(c),
    decreases c.len() - a,
{
    if a < b {
        lemma_offset_step(c, a);
        lemma_offset_monotone(c, a + 1, b);
    } else if b < c.len() {
        lemma_offset_step(c, b);
        lemma_offset_monotone(c, b + 1, c.len() as int);
    } else {
        assert(c.take(c.len() as int) =~= c);
    }
}

/// Where a chain-wide parameter index lands: unit `k`, local index `j`.
pub open spec fn lands_at(c: Seq<usize>, index: int, k: int, j: int) -> bool {
    &&& 0 <= k < c.len()
    &&& 0 <= j < c[k]
    &&& offset_of(c, k) + j == index
}

/// At most one unit holds a given chain-wide index.
pub proof fn lemma_lands_unique(c: Seq<usize>, index: int, k1: int, j1: int, k2: int, j2: int)
    requires
        lands_at(c, index, k1, j1),
        lands_at(c, index, k2, j2),
    ensures
        k1 == k2 && j1 == j2,
{
    if k1 < k2 {
        lemma_offset_step(c, k1);
        lemma_offset_monotone(c, k1 + 1, k2);
    } else if k2 < k1 {
        lemma_offset_step(c, k2);
        lemma_offset_monotone(c, k2 + 1, k1);
    }
}

/// Finds the unit and local index that a chain-wide parameter index
/// addresses; `None` when the index is past the last parameter of the chain.
pub fn locate_param(counts: &Vec<usize>, index: usize) -> (r: Option<(usize, usize)>)
    requires
        sum_counts(counts@) <= usize::MAX,
    ensures
        r is Some <==> index < sum_counts(counts@),
        r matches Some((k, j)) ==> lands_at(counts@, index as int, k as int, j as int),
{
    let mut offset: usize = 0;
    let mut k: usize = 0;
    while k < counts.len()
        invariant
            k <= counts@.len(),
            offset == offset_of(counts@, k as int),
            index >= offset,
            sum_counts(counts@) <= usize::MAX,
        decreases counts@.len() - k,
    {
        proof {
            lemma_offset_step(counts@, k as int);
            lemma_offset_monotone(counts@, k as int + 1, counts@.len() as int);
        }
        let n = counts[k];
        if index < offset + n {
            return Some((k, index - offset));
        }
        offset = offset + n;
        k = k + 1;
    }
    proof {
        assert(counts@.take(counts@.len() as int) =~= counts@);
    }
    None
}

/// The chain-wide index of the first parameter of unit `k`.
pub fn param_offset(counts: &Vec<usize>, k: usize) -> (r: usize)
    requires
        k <= counts@.len(),
        sum_counts(counts@) <= usize::MAX,
    ensures
        r == offset_of(counts@, k as int),
{
    let mut offset: usize = 0;
    let mut i: usize = 0;
    while i < k
        invariant
            i <= k <= counts@.len(),
            offset == offset_of(counts@, i as int),
            sum_counts(counts@) <= usize::MAX,
        decreases k - i,
    {
        proof {
            lemma_offset_step(counts@, i as int);
            lemma_offset_monotone(counts@, i as int + 1, counts@.len() as int);
        }
        offset = offset + counts[i];
        i = i + 1;
    }
    offset
}

/// The sequences of a sequence of vectors.
pub open spec fn views_of<T>(s: Seq<Vec<T>>) -> Seq<Seq<T>> {
    s.map_values(|u: Vec<T>| u@)
}

/// Joins the parameter lists of all units into one list, unit after unit.
pub fn flatten_units<T>(units: Vec<Vec<T>>) -> (r: Vec<T>)
    ensures
        r@ == views_of(units@).flatten(),
{
    let ghost whole = views_of(units@).flatten();
    let mut rest = units;
    let mut out: Vec<T> = Vec::new();
    while rest.len() > 0
        invariant
            out@ + views_of(rest@).flatten() == whole,
        decreases rest@.len(),
    {
        let ghost before = views_of(rest@);
        let mut u = rest.remove(0);
        proof {
            assert(before.drop_first() =~= views_of(rest@));
            assert(before.first() == u@);
            assert(before.flatten() == u@ + views_of(rest@).flatten());
            assert(out@ + u@ + views_of(rest@).flatten() == out@ + (u@ + views_of(rest@).flatten()));
        }
        out.append(&mut u);
    }
    proof {
        assert(views_of(rest@).flatten() =~= Seq::<T>::empty());
        assert(out@ + Seq::<T>::empty() =~= out@);
    }
    out
}

/// The units of a list that carry at least one parameter, in their order.
pub open spec fn units_with_params<T>(s: Seq<(String, Vec<T>)>) -> Seq<(String, Vec<T>)>
    decreases s.len(),
{
    if s.len() == 0 {
        Seq::empty()
    } else if s[0].1@.len() > 0 {
        seq![s[0]] + units_with_params(s.drop_first())
    } else {
        units_with_params(s.drop_first())
    }
}

/// Keeps, in order, the (name, parameters) entries whose parameter list is
/// not empty; these are the tabs of the parameter screen.
pub fn keep_units_with_params<T>(units: Vec<(String, Vec<T>)>) -> (r: Vec<(String, Vec<T>)>)
    ensures
        r@ == units_with_params(units@),
{
    let ghost whole = units_with_params(units@);
    let mut rest = units;
    let mut out: Vec<(String, Vec<T>)> = Vec::new();
    while rest.len() > 0
        invariant
            out@ + units_with_params(rest@) == whole,
        decreases rest@.len(),
    {
        let ghost before = rest@;
        let u = rest.remove(0);
        proof {
            assert(before.drop_first() =~= rest@);
        }
        if u.1.len() > 0 {
            proof {
                assert(out@.push(u) + units_with_params(rest@) =~= out@ + (seq![u]
                    + units_with_params(rest@)));
            }
            out.push(u);
        }
    }
    proof {
        assert(out@ + Seq::<(String, Vec<T>)>::empty() =~= out@);
    }
    out
}

/// The parameter lists of a list of (name, parameters) entries.
pub open spec fn unit_lists<T>(s: Seq<(String, Vec<T>)>) -> Seq<Seq<T>> {
    s.map_values(|u: (String, Vec<T>)| u.1@)
}

/// Joining the parameter lists of the parameter screen's tabs (the units
/// with at least one parameter) gives the chain's whole parameter list.
pub proof fn law_tabs_join_to_chain<T>(s: Seq<(String, Vec<T>)>)
    ensures
        unit_lists(units_with_params(s)).flatten() == unit_lists(s).flatten(),
    decreases s.len(),
{
    if s.len() > 0 {
        let rest = s.drop_first();
        law_tabs_join_to_chain(rest);
        assert(unit_lists(s).drop_first() =~= unit_lists(rest));
        assert(unit_lists(s).first() == s[0].1@);
        if s[0].1@.len() > 0 {
            let t = units_with_params(s);
            assert(t == seq![s[0]] + units_with_params(rest));
            assert(unit_lists(t).drop_first() =~= unit_lists(units_with_params(rest)));
            assert(unit_lists(t).first() == s[0].1@);
        } else {
            assert(s[0].1@ + unit_lists(rest).flatten() =~= unit_lists(rest).flatten());
        }
    } else {
        assert(unit_lists(units_with_params(s)) =~= Seq::<Seq<T>>::empty());
    }
}

/// Each tab is one of the units.
proof fn lemma_tab_is_unit<T>(s: Seq<(String, Vec<T>)>, k: int)
    requires
        0 <= k < units_with_params(s).len(),
    ensures
        exists|i: int| 0 <= i < s.len() && #[trigger] s[i] == units_with_params(s)[k],
    decreases s.len(),
{
    let rest = s.drop_first();
    if s[0].1@.len() > 0 && k == 0 {
        assert(s[0] == units_with_params(s)[0]);
    } else {
        let k2 = if s[0].1@.len() > 0 { k - 1 } else { k };
        assert(units_with_params(s)[k] == units_with_params(rest)[k2]);
        lemma_tab_is_unit(rest, k2);
        let i = choose|i: int| 0 <= i < rest.len() && #[trigger] rest[i] == units_with_params(rest)[k2];
        assert(s[i + 1] == rest[i]);
    }
}

/// A slider of the parameter screen addresses the chain's own parameter:
/// where a chain-wide index lands on tab `k` at local index `j`, the
/// chain's whole parameter list holds at that index parameter `j` of the
/// tab's unit.
pub proof fn law_tab_index_addresses_chain<T>(s: Seq<(String, Vec<T>)>, index: int, k: int, j: int)
    requires
        forall|i: int| 0 <= i < s.len() ==> (#[trigger] s[i]).1@.len() <= usize::MAX,
        lands_at(lens_of(unit_lists(units_with_params(s))), index, k, j),
    ensures
        0 <= index < unit_lists(s).flatten().len(),
        unit_lists(s).flatten()[index] == units_with_params(s)[k].1@[j],
{
    let tabs = unit_lists(units_with_params(s));
    assert forall|i: int| 0 <= i < tabs.len() implies (#[trigger] tabs[i]).len() <= usize::MAX by {
        lemma_tab_is_unit(s, i);
    }
    law_read_and_write_agree(tabs, index, k, j);
    law_tabs_join_to_chain(s);
}

/// The tabs of the parameter screen are exactly the units that carry at
/// least one parameter, in chain order: every tab has a parameter, and no
/// unit with a parameter is left out.
pub proof fn law_tabs_are_units_with_params<T>(s: Seq<(String, Vec<T>)>)
    ensures
        units_with_params(s) == s.filter(|u: (String, Vec<T>)| u.1@.len() > 0),
        forall|k: int|
            0 <= k < units_with_params(s).len() ==> (#[trigger] units_with_params(s)[k]).1@.len()
                > 0,
        forall|i: int|
            0 <= i < s.len() && (#[trigger] s[i]).1@.len() > 0 ==> units_with_params(s).contains(
                s[i],
            ),
    decreases s.len(),
{
    let p = |u: (String, Vec<T>)| u.1@.len() > 0;
    s.lemma_filter_eq_filter_alt(p);
    if s.len() > 0 {
        law_tabs_are_units_with_params(s.drop_first());
    } else {
        assert(units_with_params(s) =~= s.filter(p));
    }
    let f = s.filter(p);
    assert forall|k: int| 0 <= k < f.len() implies (#[trigger] f[k]).1@.len() > 0 by {
        s.lemma_filter_pred(p, k);
    }
    assert forall|i: int| 0 <= i < s.len() && (#[trigger] s[i]).1@.len() > 0 implies f.contains(
        s[i],
    ) by {
        s.lemma_filter_contains(p, i);
    }
}

/// The sum of counts, taken from the front.
pub proof fn lemma_sum_front(c: Seq<usize>)
    requires
        c.len() > 0,
    ensures
        sum_counts(c) == c[0] + sum_counts(c.drop_first()),
    decreases c.len(),
{
    if c.len() > 1 {
        lemma_sum_front(c.drop_last());
        assert(c.drop_last().drop_first() =~= c.drop_first().drop_last());
    } else {
        assert(c.drop_first() =~= Seq::<usize>::empty());
        assert(c.drop_last() =~= Seq::<usize>::empty());
    }
}

/// The parameter counts of a sequence of parameter lists.
pub open spec fn lens_of<T>(s: Seq<Seq<T>>) -> Seq<usize> {
    s.map_values(|u: Seq<T>| u.len() as usize)
}

/// Reading parameter `index` of the whole chain and setting parameter
/// `index` of the whole chain address the same parameter: `locate_param`
/// sends the index to the unit `k` and local index `j` at which the joined
/// list holds `units[k][j]`.
pub proof fn law_read_and_write_agree<T>(units: Seq<Seq<T>>, index: int, k: int, j: int)
    requires
        forall|i: int| 0 <= i < units.len() ==> (#[trigger] units[i]).len() <= usize::MAX,
        lands_at(lens_of(units), index, k, j),
    ensures
        0 <= index < units.flatten().len(),
        units.flatten()[index] == units[k][j],
    decreases units.len(),
{
    let c = lens_of(units);
    assert(units.len() > 0);
    assert(units.flatten() == units[0] + units.drop_first().flatten());
    lemma_flat_len(units);
    if k == 0 {
        assert(c.take(0) =~= Seq::<usize>::empty());
    } else {
        let d = lens_of(units.drop_first());
        assert(c.take(k).drop_first() =~= d.take(k - 1));
        lemma_sum_front(c.take(k));
        assert(lands_at(d, index - units[0].len(), k - 1, j));
        law_read_and_write_agree(units.drop_first(), index - units[0].len(), k - 1, j);
    }
}

/// The joined list is as long as all parameter lists together.
pub proof fn lemma_flat_len<T>(units: Seq<Seq<T>>)
    requires
        forall|i: int| 0 <= i < units.len() ==> (#[trigger] units[i]).len() <= usize::MAX,
    ensures
        units.flatten().len() == sum_counts(lens_of(units)),
    decreases units.len(),
{
    if units.len() > 0 {
        lemma_flat_len(units.drop_first());
        lemma_sum_front(lens_of(units));
        assert(lens_of(units).drop_first() =~= lens_of(units.drop_first()));
    } else {
        assert(lens_of(units) =~= Seq::<usize>::empty());
    }
}

/// Parameter `j` of unit `k` has the chain-wide index `offset + j`, which is
/// inside the chain, and no other unit holds that index; so `locate_param`
/// sends it back to unit `k`, local index `j`.
pub proof fn law_locate_finds_offset(counts: Seq<usize>, k: int, j: int)
    requires
        0 <= k < counts.len(),
        0 <= j < counts[k],
    ensures
        lands_at(counts, offset_of(counts, k) + j, k, j),
        offset_of(counts, k) + j < sum_counts(counts),
        forall|k2: int, j2: int|
            #[trigger] lands_at(counts, offset_of(counts, k) + j, k2, j2) ==> k2 == k && j2 == j,
{
    lemma_offset_step(counts, k);
    lemma_offset_monotone(counts, k + 1, counts.len() as int);
    assert forall|k2: int, j2: int|
        #[trigger] lands_at(counts, offset_of(counts, k) + j, k2, j2) implies k2 == k && j2 == j by {
        lemma_lands_unique(counts, offset_of(counts, k) + j, k, j, k2, j2);
    }
}

} // verus!
