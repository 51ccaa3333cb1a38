//! Presets: a named chain of effect keys with parameter values per key, and
//! the operations that build, save and restore them.

use vstd::prelude::*;
use crate::catalog::{EffectKind, kind_named, lemma_param_names_distinct, param_slot, law_param_names_match_slots};
use crate::chain::{sum_counts, offset_of, lemma_offset_step, lemma_offset_monotone};

verus! {

/// A preset as stored: its name, the keys of its effects in chain order,
/// and for each key the values of named parameters.
#[derive(Clone, Debug)]
pub struct PresetDef<V> {
    pub name: String,
    pub chain: Vec<String>,
    pub params: Vec<(String, Vec<(String, V)>)>,
}

/// What building one stage of a preset asks for: the kind of unit to make
/// and the parameters, by index, to set on it after it is made.
#[derive(Debug)]
pub struct StagePlan<V> {
    pub kind: EffectKind,
    pub overrides: Vec<(usize, V)>,
}

/// The texts of a sequence of strings.
pub open spec fn texts(s: Seq<String>) -> Seq<Seq<char>> {
    s.map_values(|x: String| x@)
}

/// The keys of a list of entries.
pub open spec fn keys_of<W>(e: Seq<(String, W)>) -> Seq<Seq<char>> {
    e.map_values(|x: (String, W)| x.0@)
}

/// The keys of a list of entries whose keys are texts.
pub open spec fn key_seq<X>(e: Seq<(Seq<char>, X)>) -> Seq<Seq<char>> {
    e.map_values(|x: (Seq<char>, X)| x.0)
}

/// A parameter map with its names taken as texts.
pub open spec fn map_view<V>(m: Seq<(String, V)>) -> Seq<(Seq<char>, V)> {
    m.map_values(|x: (String, V)| (x.0@, x.1))
}

/// The parameter maps of a preset, with keys and names taken as texts.
pub open spec fn params_view<V>(p: Seq<(String, Vec<(String, V)>)>) -> Seq<
    (Seq<char>, Seq<(Seq<char>, V)>),
> {
    p.map_values(|x: (String, Vec<(String, V)>)| (x.0@, map_view(x.1@)))
}

/// The position, from `start` on, of the first occurrence of `key`; -1 when
/// there is none.
pub open spec fn first_index(keys: Seq<Seq<char>>, key: Seq<char>, start: int) -> int
    decreases keys.len() - start,
{
    if 0 <= start < keys.len() {
        if keys[start] == key {
            start
        } else {
            first_index(keys, key, start + 1)
        }
    } else {
        -1
    }
}

/// What `first_index` finds: the first match from `start` on, or no match.
pub proof fn lemma_first_index(keys: Seq<Seq<char>>, key: Seq<char>, start: int)
    requires
        0 <= start,
    ensures
        first_index(keys, key, start) == -1 ==> forall|i: int|
            start <= i < keys.len() ==> keys[i] != key,
        first_index(keys, key, start) != -1 ==> {
            let r = first_index(keys, key, start);
            &&& start <= r < keys.len()
            &&& keys[r] == key
            &&& forall|i: int| start <= i < r ==> keys[i] != key
        },
    decreases keys.len() - start,
{
    if start < keys.len() && keys[start] != key {
        lemma_first_index(keys, key, start + 1);
    }
}

/// The value stored under `key`: that of its first entry.
pub open spec fn lookup<X>(e: Seq<(Seq<char>, X)>, key: Seq<char>) -> Option<X> {
    let i = first_index(key_seq(e), key, 0);
    if i >= 0 {
        Some(e[i].1)
    } else {
        None
    }
}

/// A map with `key` set to `val`: its first entry replaced, or a new entry
/// at the end.
pub open spec fn put<X>(e: Seq<(Seq<char>, X)>, key: Seq<char>, val: X) -> Seq<(Seq<char>, X)> {
    let i = first_index(key_seq(e), key, 0);
    if i >= 0 {
        e.update(i, (key, val))
    } else {
        e.push((key, val))
    }
}

/// The position of the first entry of `e` under `key`.
pub fn key_position<W>(e: &Vec<(String, W)>, key: &str) -> (r: Option<usize>)
    ensures
        match r {
            Some(i) => i as int == first_index(keys_of(e@), key@, 0),
            None => first_index(keys_of(e@), key@, 0) == -1,
        },
        r matches Some(i) ==> i < e@.len() && e@[i as int].0@ == key@,
{
    proof {
        lemma_first_index(keys_of(e@), key@, 0);
    }
    let mut i: usize = 0;
    while i < e.len()
        invariant
            i <= e@.len(),
            first_index(keys_of(e@), key@, 0) == first_index(keys_of(e@), key@, i as int),
        decreases e@.len() - i,
    {
        let k: &str = e[i].0.as_str();
        if crate::catalog::text_eq(k, key) {
            return Some(i);
        }
        i = i + 1;
    }
    None
}

/// No key occurs twice: the list is a map.
pub open spec fn no_key_twice(keys: Seq<Seq<char>>) -> bool {
    forall|i: int, j: int| 0 <= i < j < keys.len() ==> keys[i] != keys[j]
}

/// Sets `key` to `val` in the map: the first entry under the key is
/// replaced, or, where there is none, the entry is added at the end. A map
/// with no key twice keeps no key twice.
pub fn put_entry<W>(m: &mut Vec<(String, W)>, key: String, val: W)
    ensures
        ({
            let i = first_index(keys_of(old(m)@), key@, 0);
            if i >= 0 {
                final(m)@ == old(m)@.update(i, (key, val))
            } else {
                final(m)@ == old(m)@.push((key, val))
            }
        }),
        no_key_twice(keys_of(old(m)@)) ==> no_key_twice(keys_of(final(m)@)),
{
    proof {
        lemma_first_index(keys_of(old(m)@), key@, 0);
    }
    let ghost before = keys_of(m@);
    let ghost kv = key@;
    match key_position(m, key.as_str()) {
        Some(i) => {
            m.set(i, (key, val));
            proof {
                assert(keys_of(m@) =~= before);
            }
        },
        None => {
            m.push((key, val));
            proof {
                assert(keys_of(m@) =~= before.push(kv));
            }
        },
    }
}

/// The keys of a parameter map are the same texts whichever way they are
/// read.
pub proof fn lemma_keys_of_view<V>(m: Seq<(String, V)>)
    ensures
        key_seq(map_view(m)) == keys_of(m),
{
    assert(key_seq(map_view(m)) =~= keys_of(m));
}

/// The keys of a preset's parameter maps, whichever way they are read.
pub proof fn lemma_keys_of_params<V>(p: Seq<(String, Vec<(String, V)>)>)
    ensures
        key_seq(params_view(p)) == keys_of(p),
{
    assert(key_seq(params_view(p)) =~= keys_of(p));
}

/// The (index, value) pairs that a parameter map gives to a unit whose
/// parameters are named `names`, from index `i` on, for each name the map
/// holds.
pub open spec fn overrides_from<V>(names: Seq<Seq<char>>, pmap: Seq<(Seq<char>, V)>, i: int) -> Seq<
    (usize, V),
>
    decreases names.len() - i,
{
    if 0 <= i < names.len() {
        let rest = overrides_from(names, pmap, i + 1);
        match lookup(pmap, names[i]) {
            Some(v) => seq![(i as usize, v)] + rest,
            None => rest,
        }
    } else {
        Seq::empty()
    }
}

/// The parameters set on a unit of kind `k` that stands in a chain under
/// `key`, from the preset's map for that key.
pub open spec fn stage_overrides<V>(
    k: EffectKind,
    params: Seq<(Seq<char>, Seq<(Seq<char>, V)>)>,
    key: Seq<char>,
) -> Seq<(usize, V)> {
    match lookup(params, key) {
        Some(pm) => overrides_from(k.param_names_text(), pm, 0),
        None => Seq::empty(),
    }
}

/// The parameters, by index, that a parameter map sets on a unit of kind
/// `kind`: each of its parameters whose name the map holds, in index order.
pub fn unit_overrides<V: Copy>(kind: EffectKind, pmap: &Vec<(String, V)>) -> (r: Vec<(usize, V)>)
    ensures
        r@ == overrides_from(kind.param_names_text(), map_view(pmap@), 0),
{
    let names = kind.param_names();
    let ghost nt = kind.param_names_text();
    let ghost pv = map_view(pmap@);
    proof {
        lemma_keys_of_view(pmap@);
    }
    let mut out: Vec<(usize, V)> = Vec::new();
    let mut j: usize = 0;
    while j < names.len()
        invariant
            j <= names@.len() == nt.len(),
            forall|i: int| 0 <= i < names@.len() ==> #[trigger] names@[i]@ == nt[i],
            pv == map_view(pmap@),
            key_seq(pv) == keys_of(pmap@),
            out@ + overrides_from(nt, pv, j as int) == overrides_from(nt, pv, 0),
        decreases names@.len() - j,
    {
        let ghost rest = overrides_from(nt, pv, j as int + 1);
        assert(names@[j as int]@ == nt[j as int]);
        match key_position(pmap, names[j]) {
            Some(q) => {
                let v: V = pmap[q].1;
                proof {
                    assert(lookup(pv, nt[j as int]) == Some(v));
                    assert(out@.push((j, v)) + rest =~= out@ + (seq![(j, v)] + rest));
                }
                out.push((j, v));
            },
            None => {
                assert(lookup(pv, nt[j as int]) is None);
            },
        }
        j = j + 1;
    }
    proof {
        assert(out@ + Seq::<(usize, V)>::empty() =~= out@);
    }
    out
}

/// Plans the effects of a preset: for each key of its chain, in order, the
/// kind it names and the parameters its map sets. There is no plan when a
/// key names no kind.
pub fn build_plan<V: Copy>(def: &PresetDef<V>) -> (r: Option<Vec<StagePlan<V>>>)
    ensures
        r is None <==> exists|i: int|
            0 <= i < def.chain@.len() && #[trigger] kind_named(def.chain@[i]@) is None,
        r matches Some(p) ==> {
            &&& p@.len() == def.chain@.len()
            &&& forall|i: int|
                0 <= i < p@.len() ==> kind_named(def.chain@[i]@) == Some(#[trigger] p@[i].kind)
                    && p@[i].overrides@ == stage_overrides(
                    p@[i].kind,
                    params_view(def.params@),
                    def.chain@[i]@,
                )
        },
{
    let ghost pv = params_view(def.params@);
    proof {
        lemma_keys_of_params(def.params@);
    }
    let mut plan: Vec<StagePlan<V>> = Vec::new();
    let mut i: usize = 0;
    while i < def.chain.len()
        invariant
            i <= def.chain@.len(),
            pv == params_view(def.params@),
            key_seq(pv) == keys_of(def.params@),
            plan@.len() == i,
            forall|t: int|
                0 <= t < i ==> kind_named(def.chain@[t]@) == Some(#[trigger] plan@[t].kind)
                    && plan@[t].overrides@ == stage_overrides(
                    plan@[t].kind,
                    pv,
                    def.chain@[t]@,
                ),
        decreases def.chain@.len() - i,
    {
        let key: &str = def.chain[i].as_str();
        let kind = match EffectKind::from_key(key) {
            Some(k) => k,
            None => {
                return None;
            },
        };
        let ov = match key_position(&def.params, key) {
            Some(q) => {
                let ov = unit_overrides(kind, &def.params[q].1);
                proof {
                    assert(pv[q as int].1 == map_view(def.params@[q as int].1@));
                }
                ov
            },
            None => Vec::new(),
        };
        plan.push(StagePlan { kind, overrides: ov });
        i = i + 1;
    }
    assert forall|t: int| 0 <= t < def.chain@.len() implies #[trigger] kind_named(
        def.chain@[t]@,
    ) is Some by {
        assert(kind_named(def.chain@[t]@) == Some(plan@[t].kind));
    }
    Some(plan)
}

/// The names of a list of presets.
pub open spec fn preset_names<V>(s: Seq<PresetDef<V>>) -> Seq<Seq<char>> {
    s.map_values(|p: PresetDef<V>| p.name@)
}

/// A preset list after storing `def`: the first preset of the same name is
/// overwritten, or `def` is added at the end.
pub open spec fn stored<V>(list: Seq<PresetDef<V>>, def: PresetDef<V>) -> Seq<PresetDef<V>> {
    let i = first_index(preset_names(list), def.name@, 0);
    if i >= 0 {
        list.update(i, def)
    } else {
        list.push(def)
    }
}

/// The position of the first preset named `name`.
pub fn preset_position<V>(presets: &Vec<PresetDef<V>>, name: &str) -> (r: Option<usize>)
    ensures
        match r {
            Some(i) => i as int == first_index(preset_names(presets@), name@, 0),
            None => first_index(preset_names(presets@), name@, 0) == -1,
        },
        r matches Some(i) ==> i < presets@.len() && presets@[i as int].name@ == name@,
{
    proof {
        lemma_first_index(preset_names(presets@), name@, 0);
    }
    let mut i: usize = 0;
    while i < presets.len()
        invariant
            i <= presets@.len(),
            first_index(preset_names(presets@), name@, 0) == first_index(
                preset_names(presets@),
                name@,
                i as int,
            ),
        decreases presets@.len() - i,
    {
        if crate::catalog::text_eq(presets[i].name.as_str(), name) {
            return Some(i);
        }
        i = i + 1;
    }
    None
}

/// Stores a preset in the list: it overwrites the first preset with the
/// same name, or, where there is none, is added at the end.
pub fn store_preset<V>(presets: &mut Vec<PresetDef<V>>, def: PresetDef<V>)
    ensures
        final(presets)@ == stored(old(presets)@, def),
{
    match preset_position(presets, def.name.as_str()) {
        Some(i) => {
            presets.set(i, def);
        },
        None => {
            presets.push(def);
        },
    }
}

/// The chain of the first preset named `name`, or an empty chain where no
/// preset has that name.
pub fn chain_of<V>(presets: &Vec<PresetDef<V>>, name: &str) -> (r: Vec<String>)
    ensures
        ({
            let i = first_index(preset_names(presets@), name@, 0);
            if i >= 0 {
                r@ == presets@[i].chain@
            } else {
                r@.len() == 0
            }
        }),
{
    match preset_position(presets, name) {
        Some(i) => {
            let src = &presets[i].chain;
            let mut out: Vec<String> = Vec::new();
            let mut j: usize = 0;
            while j < src.len()
                invariant
                    j <= src@.len(),
                    out@ == src@.take(j as int),
                decreases src@.len() - j,
            {
                let c = src[j].clone();
                out.push(c);
                proof {
                    assert(src@.take(j as int + 1) =~= src@.take(j as int).push(c));
                }
                j = j + 1;
            }
            proof {
                assert(src@.take(src@.len() as int) =~= src@);
            }
            out
        },
        None => Vec::new(),
    }
}

/// Storing a preset makes it the one found under its name, keeps every
/// other position, and adds one preset exactly when none had that name.
pub proof fn law_stored_preset_is_found<V>(list: Seq<PresetDef<V>>, def: PresetDef<V>)
    ensures
        ({
            let after = stored(list, def);
            let j = first_index(preset_names(after), def.name@, 0);
            &&& j >= 0
            &&& after[j] == def
            &&& after.len() == if first_index(preset_names(list), def.name@, 0) >= 0 {
                list.len()
            } else {
                list.len() + 1
            }
            &&& forall|m: int| 0 <= m < list.len() && m != j ==> after[m] == list[m]
        }),
{
    let i = first_index(preset_names(list), def.name@, 0);
    lemma_first_index(preset_names(list), def.name@, 0);
    let after = stored(list, def);
    if i >= 0 {
        assert forall|m: int| 0 <= m < i implies preset_names(after)[m] != def.name@ by {
            assert(preset_names(after)[m] == preset_names(list)[m]);
        }
        lemma_first_index_at(preset_names(after), def.name@, i);
    } else {
        assert forall|m: int| 0 <= m < list.len() implies preset_names(after)[m] != def.name@ by {
            assert(preset_names(after)[m] == preset_names(list)[m]);
        }
        lemma_first_index_at(preset_names(after), def.name@, list.len() as int);
    }
}

/// A key found at `r`, with no earlier occurrence, is the first occurrence.
pub proof fn lemma_first_index_at(keys: Seq<Seq<char>>, key: Seq<char>, r: int)
    requires
        0 <= r < keys.len(),
        keys[r] == key,
        forall|i: int| 0 <= i < r ==> keys[i] != key,
    ensures
        first_index(keys, key, 0) == r,
{
    lemma_first_index(keys, key, 0);
}

/// The (name, value) entries that a unit whose parameters are named `names`
/// takes from the chain-wide value list `flat`, its first parameter at
/// `off`: one per name, while values last.
pub open spec fn unit_values<V>(names: Seq<Seq<char>>, flat: Seq<V>, off: int) -> Seq<
    (Seq<char>, V),
> {
    let avail: int = if flat.len() - off > 0 {
        flat.len() - off
    } else {
        0
    };
    let m: int = if names.len() < avail {
        names.len() as int
    } else {
        avail
    };
    Seq::new(m as nat, |j: int| (names[j], flat[off + j]))
}

/// Folds the chain from key `i` on into the parameter maps `acc`: a key that
/// names a kind takes that kind's values from `flat` at `off`, and stores
/// them under the key where there are any; a key that names no kind is
/// passed over and takes no values.
pub open spec fn snapshot_from<V>(
    chain: Seq<Seq<char>>,
    flat: Seq<V>,
    i: int,
    off: int,
    acc: Seq<(Seq<char>, Seq<(Seq<char>, V)>)>,
) -> Seq<(Seq<char>, Seq<(Seq<char>, V)>)>
    decreases chain.len() - i,
{
    if 0 <= i < chain.len() {
        match kind_named(chain[i]) {
            None => snapshot_from(chain, flat, i + 1, off, acc),
            Some(k) => {
                let pm = unit_values(k.param_names_text(), flat, off);
                let acc2 = if pm.len() > 0 {
                    put(acc, chain[i], pm)
                } else {
                    acc
                };
                snapshot_from(chain, flat, i + 1, off + k.spec_param_count(), acc2)
            },
        }
    } else {
        acc
    }
}

/// The parameter maps that record the chain-wide values `flat` of a chain.
pub open spec fn snapshot<V>(chain: Seq<Seq<char>>, flat: Seq<V>) -> Seq<
    (Seq<char>, Seq<(Seq<char>, V)>),
> {
    snapshot_from(chain, flat, 0, 0, Seq::empty())
}

/// Setting a key in a preset's maps, read as texts.
pub proof fn lemma_put_params_view<V>(
    p: Seq<(String, Vec<(String, V)>)>,
    key: String,
    m: Vec<(String, V)>,
)
    ensures
        ({
            let i = first_index(keys_of(p), key@, 0);
            let after = if i >= 0 {
                p.update(i, (key, m))
            } else {
                p.push((key, m))
            };
            params_view(after) == put(params_view(p), key@, map_view(m@))
        }),
{
    lemma_keys_of_params(p);
    let i = first_index(keys_of(p), key@, 0);
    lemma_first_index(keys_of(p), key@, 0);
    if i >= 0 {
        assert(params_view(p.update(i, (key, m))) =~= params_view(p).update(
            i,
            (key@, map_view(m@)),
        ));
    } else {
        assert(params_view(p.push((key, m))) =~= params_view(p).push((key@, map_view(m@))));
    }
}

/// Records the current chain-wide parameter values of a chain as parameter
/// maps, one per key of the chain: each key that names a kind takes as many
/// values as the kind has parameters, under the kind's parameter names, and
/// is stored only where it took at least one value.
pub fn snapshot_params<V: Copy>(chain: &Vec<String>, flat: &Vec<V>) -> (r: Vec<
    (String, Vec<(String, V)>),
>)
    requires
        chain@.len() <= usize::MAX / 8,
    ensures
        params_view(r@) == snapshot(texts(chain@), flat@),
        no_key_twice(keys_of(r@)),
        forall|t: int| 0 <= t < r@.len() ==> no_key_twice(keys_of((#[trigger] r@[t]).1@)),
{
    let ghost ct = texts(chain@);
    let mut out: Vec<(String, Vec<(String, V)>)> = Vec::new();
    let mut offset: usize = 0;
    let mut i: usize = 0;
    proof {
        assert(params_view(out@) =~= Seq::<(Seq<char>, Seq<(Seq<char>, V)>)>::empty());
    }
    while i < chain.len()
        invariant
            i <= chain@.len() <= usize::MAX / 8,
            ct == texts(chain@),
            offset <= 7 * i,
            snapshot(ct, flat@) == snapshot_from(ct, flat@, i as int, offset as int, params_view(out@)),
            no_key_twice(keys_of(out@)),
            forall|t: int| 0 <= t < out@.len() ==> no_key_twice(keys_of((#[trigger] out@[t]).1@)),
        decreases chain@.len() - i,
    {
        assert(ct[i as int] == chain@[i as int]@);
        match EffectKind::from_key(chain[i].as_str()) {
            None => {},
            Some(k) => {
                let names = k.param_names();
                let n = names.len();
                let ghost nt = k.param_names_text();
                let mut pm: Vec<(String, V)> = Vec::new();
                let mut j: usize = 0;
                while j < n
                    invariant
                        j <= n == names@.len() == nt.len() <= 7,
                        offset <= 7 * i,
                        i < chain@.len() <= usize::MAX / 8,
                        forall|t: int| 0 <= t < names@.len() ==> #[trigger] names@[t]@ == nt[t],
                        map_view(pm@) == unit_values(nt, flat@, offset as int).take(
                            if (j as int) < unit_values(nt, flat@, offset as int).len() {
                                j as int
                            } else {
                                unit_values(nt, flat@, offset as int).len() as int
                            },
                        ),
                    decreases n - j,
                {
                    let idx = offset + j;
                    let ghost uv = unit_values(nt, flat@, offset as int);
                    if idx < flat.len() {
                        let name: String = names[j].to_owned();
                        let v: V = flat[idx];
                        proof {
                            assert(j < uv.len());
                            assert(map_view(pm@) == uv.take(j as int));
                            assert(names@[j as int]@ == nt[j as int]);
                            assert(uv[j as int] == (nt[j as int], flat@[idx as int]));
                            assert(name@ == nt[j as int]);
                            assert(v == flat@[idx as int]);
                            assert(map_view(pm@.push((name, v))) =~= map_view(pm@).push((name@, v)));
                            assert(map_view(pm@.push((name, v))) =~= uv.take(j as int + 1));
                        }
                        pm.push((name, v));
                    } else {
                        proof {
                            assert(uv.len() <= j);
                        }
                    }
                    j = j + 1;
                }
                proof {
                    assert(map_view(pm@) =~= unit_values(nt, flat@, offset as int));
                    lemma_param_names_distinct(k);
                    assert forall|a: int, b: int| 0 <= a < b < keys_of(pm@).len() implies
                        keys_of(pm@)[a] != keys_of(pm@)[b] by {
                        assert(keys_of(pm@)[a] == map_view(pm@)[a].0);
                        assert(keys_of(pm@)[b] == map_view(pm@)[b].0);
                    }
                }
                if pm.len() > 0 {
                    let key: String = chain[i].clone();
                    proof {
                        lemma_put_params_view(out@, key, pm);
                    }
                    let ghost before = out@;
                    let ghost pmv = pm@;
                    let ghost fi = first_index(keys_of(out@), key@, 0);
                    proof {
                        lemma_first_index(keys_of(out@), key@, 0);
                    }
                    put_entry(&mut out, key, pm);
                    proof {
                        assert forall|t: int| 0 <= t < out@.len() implies no_key_twice(
                            keys_of((#[trigger] out@[t]).1@),
                        ) by {
                            if fi >= 0 {
                                assert(out@ == before.update(fi, out@[fi]));
                                if t != fi {
                                    assert(out@[t] == before[t]);
                                }
                            } else {
                                assert(out@ == before.push(out@[before.len() as int]));
                                if t < before.len() {
                                    assert(out@[t] == before[t]);
                                }
                            }
                        }
                    }
                }
                offset = offset + n;
            },
        }
        i = i + 1;
    }
    out
}

/// The entries of a list of (name, value) pairs, with names as texts.
pub open spec fn pairs_view<V>(e: Seq<(&str, V)>) -> Seq<(Seq<char>, V)> {
    e.map_values(|x: (&str, V)| (x.0@, x.1))
}

/// Sets each entry of `e`, from entry `i` on, into the map `acc`, later
/// entries overwriting earlier ones of the same name.
pub open spec fn collect_from<V>(e: Seq<(Seq<char>, V)>, i: int, acc: Seq<(Seq<char>, V)>) -> Seq<
    (Seq<char>, V),
>
    decreases e.len() - i,
{
    if 0 <= i < e.len() {
        collect_from(e, i + 1, put(acc, e[i].0, e[i].1))
    } else {
        acc
    }
}

/// The key under which a preset made from a bare parameter list keeps it.
pub open spec fn flat_key() -> Seq<char> {
    "_params"@
}

/// A preset holding a bare parameter list: no chain, and the parameters,
/// by name, under one key (or no map at all when the list is empty).
pub fn effect_to_preset_def<V: Copy>(name: &str, params: &Vec<(&str, V)>) -> (r: PresetDef<V>)
    ensures
        r.name@ == name@,
        r.chain@.len() == 0,
        ({
            let m = collect_from(pairs_view(params@), 0, Seq::empty());
            params_view(r.params@) == if m.len() > 0 {
                seq![(flat_key(), m)]
            } else {
                Seq::empty()
            }
        }),
        no_key_twice(keys_of(r.params@)),
        forall|t: int| 0 <= t < r.params@.len() ==> no_key_twice(keys_of((#[trigger] r.params@[t]).1@)),
{
    let ghost pv = pairs_view(params@);
    let mut flat: Vec<(String, V)> = Vec::new();
    let mut i: usize = 0;
    proof {
        assert(map_view(flat@) =~= Seq::<(Seq<char>, V)>::empty());
    }
    while i < params.len()
        invariant
            i <= params@.len(),
            pv == pairs_view(params@),
            collect_from(pv, 0, Seq::empty()) == collect_from(pv, i as int, map_view(flat@)),
            no_key_twice(keys_of(flat@)),
        decreases params@.len() - i,
    {
        let key: String = params[i].0.to_owned();
        let v: V = params[i].1;
        proof {
            lemma_keys_of_view(flat@);
            lemma_first_index(keys_of(flat@), key@, 0);
            let j = first_index(keys_of(flat@), key@, 0);
            if j >= 0 {
                assert(map_view(flat@.update(j, (key, v))) =~= map_view(flat@).update(j, (key@, v)));
            } else {
                assert(map_view(flat@.push((key, v))) =~= map_view(flat@).push((key@, v)));
            }
        }
        put_entry(&mut flat, key, v);
        i = i + 1;
    }
    let mut maps: Vec<(String, Vec<(String, V)>)> = Vec::new();
    if flat.len() > 0 {
        let key: String = "_params".to_owned();
        maps.push((key, flat));
        proof {
            assert(params_view(maps@) =~= seq![(flat_key(), map_view(flat@))]);
        }
    } else {
        proof {
            assert(params_view(maps@) =~= Seq::<(Seq<char>, Seq<(Seq<char>, V)>)>::empty());
        }
    }
    PresetDef { name: name.to_owned(), chain: Vec::new(), params: maps }
}

/// The parameter counts of the kinds that the keys of a chain name.
pub open spec fn chain_counts(chain: Seq<Seq<char>>) -> Seq<usize> {
    chain.map_values(|key: Seq<char>| kind_named(key).unwrap().spec_param_count() as usize)
}

/// Lookups in a map after an entry is added at its end.
pub proof fn lemma_lookup_push<X>(e: Seq<(Seq<char>, X)>, k: Seq<char>, v: X, key: Seq<char>)
    ensures
        lookup(e.push((k, v)), key) == if lookup(e, key) is Some {
            lookup(e, key)
        } else if k == key {
            Some(v)
        } else {
            None
        },
{
    let ks = key_seq(e);
    let ks2 = key_seq(e.push((k, v)));
    assert(ks2 =~= ks.push(k));
    lemma_first_index(ks, key, 0);
    lemma_first_index(ks2, key, 0);
    let i = first_index(ks, key, 0);
    if i >= 0 {
        lemma_first_index_at(ks2, key, i);
    } else if k == key {
        lemma_first_index_at(ks2, key, ks.len() as int);
    } else {
        assert(forall|m: int| 0 <= m < ks2.len() ==> ks2[m] != key);
    }
}

/// The maps folded from the first `i` keys of a chain of known, distinct
/// keys: each of those keys whose kind has parameters maps to its values,
/// and no other key of the chain is present.
pub open spec fn recorded_upto<V>(
    chain: Seq<Seq<char>>,
    flat: Seq<V>,
    i: int,
    acc: Seq<(Seq<char>, Seq<(Seq<char>, V)>)>,
) -> bool {
    forall|t: int|
        0 <= t < chain.len() ==> #[trigger] lookup(acc, chain[t]) == if t < i && kind_named(
            chain[t],
        ).unwrap().spec_param_count() > 0 {
            Some(
                unit_values(
                    kind_named(chain[t]).unwrap().param_names_text(),
                    flat,
                    offset_of(chain_counts(chain), t) as int,
                ),
            )
        } else {
            None
        }
}

/// A chain whose keys all name kinds, no key twice, with one value for each
/// parameter of the chain.
pub open spec fn full_distinct_chain<V>(chain: Seq<Seq<char>>, flat: Seq<V>) -> bool {
    &&& forall|t: int| 0 <= t < chain.len() ==> #[trigger] kind_named(chain[t]) is Some
    &&& forall|a: int, b: int| 0 <= a < b < chain.len() ==> chain[a] != chain[b]
    &&& flat.len() == sum_counts(chain_counts(chain))
}

/// Folding the rest of such a chain records every key.
pub proof fn lemma_snapshot_fold<V>(
    chain: Seq<Seq<char>>,
    flat: Seq<V>,
    i: int,
    acc: Seq<(Seq<char>, Seq<(Seq<char>, V)>)>,
)
    requires
        full_distinct_chain(chain, flat),
        0 <= i <= chain.len(),
        recorded_upto(chain, flat, i, acc),
    ensures
        recorded_upto(
            chain,
            flat,
            chain.len() as int,
            snapshot_from(chain, flat, i, offset_of(chain_counts(chain), i) as int, acc),
        ),
    decreases chain.len() - i,
{
    let cc = chain_counts(chain);
    if i < chain.len() {
        assert(kind_named(chain[i]) is Some);
        let k = kind_named(chain[i]).unwrap();
        let off = offset_of(cc, i) as int;
        lemma_offset_step(cc, i);
        lemma_offset_monotone(cc, i + 1, chain.len() as int);
        assert(cc[i] == k.spec_param_count());
        let pm = unit_values(k.param_names_text(), flat, off);
        assert(pm.len() == k.spec_param_count());
        let acc2 = if pm.len() > 0 {
            put(acc, chain[i], pm)
        } else {
            acc
        };
        if pm.len() > 0 {
            assert(lookup(acc, chain[i]) is None);
            lemma_first_index(key_seq(acc), chain[i], 0);
            assert(put(acc, chain[i], pm) == acc.push((chain[i], pm)));
            assert forall|t: int| 0 <= t < chain.len() implies #[trigger] lookup(acc2, chain[t])
                == if t < i + 1 && kind_named(chain[t]).unwrap().spec_param_count() > 0 {
                Some(
                    unit_values(
                        kind_named(chain[t]).unwrap().param_names_text(),
                        flat,
                        offset_of(cc, t) as int,
                    ),
                )
            } else {
                None
            } by {
                lemma_lookup_push(acc, chain[i], pm, chain[t]);
                if t != i {
                    if t < i {
                        assert(chain[t] != chain[i]);
                    } else {
                        assert(chain[i] != chain[t]);
                    }
                }
            }
        } else {
            assert forall|t: int| 0 <= t < chain.len() implies #[trigger] lookup(acc2, chain[t])
                == if t < i + 1 && kind_named(chain[t]).unwrap().spec_param_count() > 0 {
                Some(
                    unit_values(
                        kind_named(chain[t]).unwrap().param_names_text(),
                        flat,
                        offset_of(cc, t) as int,
                    ),
                )
            } else {
                None
            } by {
            }
        }
        assert(recorded_upto(chain, flat, i + 1, acc2));
        lemma_snapshot_fold(chain, flat, i + 1, acc2);
    }
}

/// A full unit's values give back every parameter of the unit, in order.
pub proof fn lemma_overrides_all<V>(names: Seq<Seq<char>>, flat: Seq<V>, off: int, j: int)
    requires
        forall|a: int, b: int| 0 <= a < b < names.len() ==> names[a] != names[b],
        names.len() <= usize::MAX,
        0 <= off,
        off + names.len() <= flat.len(),
        0 <= j <= names.len(),
    ensures
        overrides_from(names, unit_values(names, flat, off), j) == Seq::new(
            (names.len() - j) as nat,
            |t: int| ((j + t) as usize, flat[off + j + t]),
        ),
    decreases names.len() - j,
{
    let pm = unit_values(names, flat, off);
    if j < names.len() {
        lemma_overrides_all(names, flat, off, j + 1);
        assert(key_seq(pm) =~= names);
        lemma_first_index_at(names, names[j], j);
        assert(lookup(pm, names[j]) == Some(flat[off + j]));
        assert(overrides_from(names, pm, j) =~= Seq::new(
            (names.len() - j) as nat,
            |t: int| ((j + t) as usize, flat[off + j + t]),
        ));
    } else {
        assert(overrides_from(names, pm, j) =~= Seq::new(
            (names.len() - j) as nat,
            |t: int| ((j + t) as usize, flat[off + j + t]),
        ));
    }
}

/// Saving the current state of a chain and building the saved preset gives
/// every unit back all of its values: for a chain whose keys all name
/// kinds, no key twice, with one value per parameter, the maps recorded by
/// `snapshot_params` make `build_plan` set each parameter `j` of unit `i` to
/// the value at the unit's offset plus `j`.
pub proof fn law_snapshot_restores<V>(chain: Seq<Seq<char>>, flat: Seq<V>, i: int)
    requires
        full_distinct_chain(chain, flat),
        0 <= i < chain.len(),
    ensures
        ({
            let k = kind_named(chain[i]).unwrap();
            let off = offset_of(chain_counts(chain), i) as int;
            stage_overrides(k, snapshot(chain, flat), chain[i]) == Seq::new(
                k.spec_param_count(),
                |j: int| (j as usize, flat[off + j]),
            )
        }),
{
    let cc = chain_counts(chain);
    let e = Seq::<(Seq<char>, Seq<(Seq<char>, V)>)>::empty();
    assert forall|t: int| 0 <= t < chain.len() implies #[trigger] lookup(e, chain[t]) is None by {
        assert(key_seq(e).len() == 0);
    }
    assert(cc.take(0) =~= Seq::<usize>::empty());
    assert(offset_of(cc, 0) == 0);
    assert(recorded_upto(chain, flat, 0, e));
    lemma_snapshot_fold(chain, flat, 0, e);
    let snap = snapshot(chain, flat);
    assert(kind_named(chain[i]) is Some);
    let k = kind_named(chain[i]).unwrap();
    let off = offset_of(cc, i) as int;
    lemma_offset_step(cc, i);
    lemma_offset_monotone(cc, i + 1, chain.len() as int);
    if k.spec_param_count() > 0 {
        lemma_param_names_distinct(k);
        lemma_overrides_all(k.param_names_text(), flat, off, 0);
        assert(Seq::new((k.param_names_text().len() - 0) as nat, |t: int| ((0 + t) as usize, flat[off + 0 + t]))
            =~= Seq::new(k.spec_param_count(), |j: int| (j as usize, flat[off + j])));
    } else {
        assert(Seq::new(k.spec_param_count(), |j: int| (j as usize, flat[off + j])) =~= Seq::<(usize, V)>::empty());
    }
}

/// In a map with no key twice, the value stored under a key is the value of
/// the one entry with that key.
pub proof fn lemma_lookup_entry<X>(e: Seq<(Seq<char>, X)>, k: Seq<char>)
    requires
        no_key_twice(key_seq(e)),
    ensures
        forall|v: X| lookup(e, k) == Some(v) <==> e.contains((k, v)),
{
    let ks = key_seq(e);
    lemma_first_index(ks, k, 0);
    let i = first_index(ks, k, 0);
    assert forall|v: X| lookup(e, k) == Some(v) <==> e.contains((k, v)) by {
        if e.contains((k, v)) {
            let q = choose|q: int| 0 <= q < e.len() && e[q] == (k, v);
            assert(ks[q] == k);
            assert(i >= 0);
            if i != q {
                assert(ks[i] == ks[q]);
            }
        }
        if lookup(e, k) == Some(v) {
            assert(ks[i] == e[i].0);
            assert(e[i] == (k, v));
        }
    }
}

/// The shape of the overrides from index `i` on: in index order, once per
/// index, each taking the value that the map holds under its parameter's name.
proof fn lemma_overrides_shape<V>(names: Seq<Seq<char>>, pmap: Seq<(Seq<char>, V)>, i: int)
    requires
        0 <= i <= names.len() <= usize::MAX,
        no_key_twice(key_seq(pmap)),
    ensures
        ({
            let r = overrides_from(names, pmap, i);
            &&& forall|t: int|
                0 <= t < r.len() ==> i <= (#[trigger] r[t]).0 < names.len() && pmap.contains(
                    (names[r[t].0 as int], r[t].1),
                )
            &&& forall|a: int, b: int| 0 <= a < b < r.len() ==> r[a].0 < r[b].0
            &&& forall|j: int, v: V|
                i <= j < names.len() && #[trigger] pmap.contains((names[j], v)) ==> r.contains(
                    (j as usize, v),
                )
        }),
    decreases names.len() - i,
{
    if i < names.len() {
        lemma_overrides_shape(names, pmap, i + 1);
        lemma_lookup_entry(pmap, names[i]);
        let rest = overrides_from(names, pmap, i + 1);
        let r = overrides_from(names, pmap, i);
        match lookup(pmap, names[i]) {
            Some(w) => {
                assert(r == seq![(i as usize, w)] + rest);
                assert forall|t: int| 0 <= t < r.len() implies i <= (#[trigger] r[t]).0 < names.len()
                    && pmap.contains((names[r[t].0 as int], r[t].1)) by {
                    if t > 0 {
                        assert(r[t] == rest[t - 1]);
                    }
                }
                assert forall|a: int, b: int| 0 <= a < b < r.len() implies r[a].0 < r[b].0 by {
                    assert(r[b] == rest[b - 1]);
                    if a > 0 {
                        assert(r[a] == rest[a - 1]);
                    }
                }
                assert forall|j: int, v: V|
                    i <= j < names.len() && #[trigger] pmap.contains((names[j], v)) implies r.contains(
                    (j as usize, v),
                ) by {
                    if j == i {
                        assert(r[0] == (j as usize, v));
                    } else {
                        let t = choose|t: int| 0 <= t < rest.len() && rest[t] == (j as usize, v);
                        assert(r[t + 1] == rest[t]);
                    }
                }
            },
            None => {
                assert forall|j: int, v: V|
                    i <= j < names.len() && #[trigger] pmap.contains((names[j], v)) implies r.contains(
                    (j as usize, v),
                ) by {
                    if j == i {
                        assert(lookup(pmap, names[i]) == Some(v));
                    }
                }
            },
        }
    }
}

/// Each parameter takes the value stored under its own name: in a map with
/// no key twice, index `j` of a unit whose parameters are named `names` gets
/// exactly the value the map holds under `names[j]`, and nothing where the
/// map holds none; the overrides come in index order, one per index.
pub proof fn law_overrides_by_name<V>(names: Seq<Seq<char>>, pmap: Seq<(Seq<char>, V)>)
    requires
        names.len() <= usize::MAX,
        no_key_twice(key_seq(pmap)),
    ensures
        ({
            let r = overrides_from(names, pmap, 0);
            &&& forall|j: int, v: V|
                0 <= j < names.len() ==> (r.contains((j as usize, v)) <==> pmap.contains(
                    (names[j], v),
                ))
            &&& forall|t: int| 0 <= t < r.len() ==> (#[trigger] r[t]).0 < names.len()
            &&& forall|a: int, b: int| 0 <= a < b < r.len() ==> r[a].0 < r[b].0
        }),
{
    lemma_overrides_shape(names, pmap, 0);
    let r = overrides_from(names, pmap, 0);
    assert forall|j: int, v: V|
        0 <= j < names.len() implies (r.contains((j as usize, v)) <==> pmap.contains(
        (names[j], v),
    )) by {
        if r.contains((j as usize, v)) {
            let t = choose|t: int| 0 <= t < r.len() && r[t] == (j as usize, v);
            assert(r[t].0 as int == j);
        }
        if pmap.contains((names[j], v)) {
            assert(r.contains((j as usize, v)));
        }
    }
}

/// Overrides that depend only on what is stored under each name.
proof fn lemma_overrides_same_lookup<V>(
    names: Seq<Seq<char>>,
    p1: Seq<(Seq<char>, V)>,
    p2: Seq<(Seq<char>, V)>,
    i: int,
)
    requires
        0 <= i,
        forall|k: Seq<char>| lookup(p1, k) == lookup(p2, k),
    ensures
        overrides_from(names, p1, i) == overrides_from(names, p2, i),
    decreases names.len() - i,
{
    if i < names.len() {
        lemma_overrides_same_lookup(names, p1, p2, i + 1);
        assert(lookup(p1, names[i]) == lookup(p2, names[i]));
    }
}

/// The order of a map's entries does not matter: two maps with no key twice
/// and the same entries give every unit the same overrides.
pub proof fn law_overrides_ignore_entry_order<V>(
    names: Seq<Seq<char>>,
    p1: Seq<(Seq<char>, V)>,
    p2: Seq<(Seq<char>, V)>,
)
    requires
        no_key_twice(key_seq(p1)),
        no_key_twice(key_seq(p2)),
        forall|e: (Seq<char>, V)| p1.contains(e) <==> p2.contains(e),
    ensures
        overrides_from(names, p1, 0) == overrides_from(names, p2, 0),
{
    assert forall|k: Seq<char>| lookup(p1, k) == lookup(p2, k) by {
        lemma_lookup_entry(p1, k);
        lemma_lookup_entry(p2, k);
        match lookup(p1, k) {
            Some(v) => {
                assert(p2.contains((k, v)));
            },
            None => {
                match lookup(p2, k) {
                    Some(w) => {
                        assert(p1.contains((k, w)));
                    },
                    None => {},
                }
            },
        }
    }
    lemma_overrides_same_lookup(names, p1, p2, 0);
}

/// Each value in a preset's map reaches the parameter it is named for: in a
/// map with no key twice, a value stored under a name that the kind has is
/// set at the index where the kind takes that name, and every value set at
/// an index is the one stored under a name the kind takes at that index.
pub proof fn law_overrides_by_slot<V>(k: EffectKind, pmap: Seq<(Seq<char>, V)>)
    requires
        no_key_twice(key_seq(pmap)),
    ensures
        ({
            let r = overrides_from(k.param_names_text(), pmap, 0);
            &&& forall|name: Seq<char>, v: V|
                #[trigger] pmap.contains((name, v)) && #[trigger] param_slot(k, name) is Some
                    ==> r.contains((param_slot(k, name).unwrap() as usize, v))
            &&& forall|t: int|
                0 <= t < r.len() ==> exists|name: Seq<char>|
                    pmap.contains((name, (#[trigger] r[t]).1)) && param_slot(k, name) == Some(
                        r[t].0 as nat,
                    )
        }),
{
    let names = k.param_names_text();
    law_param_names_match_slots(k);
    law_overrides_by_name(names, pmap);
    let r = overrides_from(names, pmap, 0);
    assert forall|name: Seq<char>, v: V|
        #[trigger] pmap.contains((name, v)) && #[trigger] param_slot(k, name) is Some implies r.contains(
        (param_slot(k, name).unwrap() as usize, v),
    ) by {
        let j = param_slot(k, name).unwrap();
        assert(names[j as int] == name);
    }
    assert forall|t: int| 0 <= t < r.len() implies exists|name: Seq<char>|
        pmap.contains((name, (#[trigger] r[t]).1)) && param_slot(k, name) == Some(
            r[t].0 as nat,
        ) by {
        let j = r[t].0 as int;
        assert(r.contains((j as usize, r[t].1)));
        assert(param_slot(k, names[j]) == Some(j as nat));
        assert(pmap.contains((names[j], r[t].1)));
    }
}

} // verus!

