use funpedals::catalog::EffectKind;
use funpedals::preset::{
    build_plan, chain_of, effect_to_preset_def, key_position, preset_position, put_entry,
    snapshot_params, store_preset, unit_overrides, PresetDef,
};

fn s(x: &str) -> String {
    x.to_string()
}

fn preset(name: &str, chain: &[&str], params: &[(&str, &[(&str, f32)])]) -> PresetDef<f32> {
    PresetDef {
        name: s(name),
        chain: chain.iter().map(|c| s(c)).collect(),
        params: params
            .iter()
            .map(|(k, m)| (s(k), m.iter().map(|(n, v)| (s(n), *v)).collect()))
            .collect(),
    }
}

#[test]
fn key_position_finds_first_entry() {
    let m = vec![(s("a"), 1), (s("b"), 2), (s("a"), 3)];
    assert_eq!(key_position(&m, "a"), Some(0));
    assert_eq!(key_position(&m, "b"), Some(1));
    assert_eq!(key_position(&m, "c"), None);
}

#[test]
fn put_entry_replaces_or_appends() {
    let mut m = vec![(s("gain"), 1.0f32)];
    put_entry(&mut m, s("gain"), 2.0);
    assert_eq!(m, vec![(s("gain"), 2.0)]);
    put_entry(&mut m, s("wet"), 0.5);
    assert_eq!(m, vec![(s("gain"), 2.0), (s("wet"), 0.5)]);
}

#[test]
fn unit_overrides_follow_parameter_order() {
    let pmap = vec![(s("wet"), 0.3f32), (s("room_size"), 3.0), (s("unknown"), 9.0)];
    let ov = unit_overrides(EffectKind::Reverb, &pmap);
    assert_eq!(ov, vec![(0, 3.0), (4, 0.3)]);
}

#[test]
fn plan_of_default_style_preset() {
    let def = preset(
        "OD>EQ>Reverb",
        &["overdrive", "eq3band", "reverb"],
        &[
            ("overdrive", &[("gain", 15.0)]),
            ("eq3band", &[("low_db", -8.1), ("gain_db", 1.8)]),
            ("reverb", &[("damping", 0.56), ("dry", 0.9)]),
        ],
    );
    let plan = build_plan(&def).unwrap();
    assert_eq!(plan.len(), 3);
    assert_eq!(plan[0].kind, EffectKind::Overdrive);
    assert_eq!(plan[0].overrides, vec![(0, 15.0)]);
    assert_eq!(plan[1].kind, EffectKind::Eq3Band);
    assert_eq!(plan[1].overrides, vec![(1, -8.1), (6, 1.8)]);
    assert_eq!(plan[2].kind, EffectKind::Reverb);
    assert_eq!(plan[2].overrides, vec![(2, 0.56), (3, 0.9)]);
}

#[test]
fn plan_without_maps_sets_nothing() {
    let def = preset("OctaveUp", &["octaveup", "bypass"], &[]);
    let plan = build_plan(&def).unwrap();
    assert_eq!(plan.len(), 2);
    assert_eq!(plan[0].kind, EffectKind::OctaveUp);
    assert!(plan[0].overrides.is_empty());
    assert_eq!(plan[1].kind, EffectKind::Bypass);
}

#[test]
fn plan_fails_on_unknown_key() {
    let def = preset("Bad", &["overdrive", "fuzz", "reverb"], &[]);
    assert!(build_plan(&def).is_none());
    let empty = preset("Empty", &[], &[]);
    assert_eq!(build_plan(&empty).unwrap().len(), 0);
}

#[test]
fn store_overwrites_same_name() {
    let mut list = vec![preset("A", &["echo"], &[]), preset("B", &["reverb"], &[])];
    store_preset(&mut list, preset("B", &["chorus"], &[]));
    assert_eq!(list.len(), 2);
    assert_eq!(list[1].chain, vec![s("chorus")]);
    assert_eq!(list[0].chain, vec![s("echo")]);
}

#[test]
fn store_appends_new_name() {
    let mut list = vec![preset("A", &["echo"], &[])];
    store_preset(&mut list, preset("C", &["phaser"], &[]));
    assert_eq!(list.len(), 2);
    assert_eq!(list[1].name, "C");
    assert_eq!(preset_position(&list, "C"), Some(1));
    assert_eq!(preset_position(&list, "Z"), None);
}

#[test]
fn chain_of_known_and_unknown_preset() {
    let list = vec![
        preset("Wah>OD>Reverb", &["autowah", "overdrive", "reverb"], &[]),
        preset("Echo", &["echo"], &[]),
    ];
    assert_eq!(chain_of(&list, "Wah>OD>Reverb"), vec![s("autowah"), s("overdrive"), s("reverb")]);
    assert!(chain_of(&list, "Missing").is_empty());
}

#[test]
fn snapshot_splits_values_by_kind() {
    let chain = vec![s("overdrive"), s("echo")];
    let flat = vec![5.7f32, 0.35, 0.2, 0.55];
    let maps = snapshot_params(&chain, &flat);
    assert_eq!(
        maps,
        vec![
            (s("overdrive"), vec![(s("gain"), 5.7)]),
            (
                s("echo"),
                vec![(s("delay_time"), 0.35), (s("feedback"), 0.2), (s("wet"), 0.55)]
            ),
        ]
    );
}

#[test]
fn snapshot_skips_unknown_and_empty_units() {
    let chain = vec![s("bypass"), s("mystery"), s("phaser")];
    let flat = vec![0.3f32, 0.36];
    let maps = snapshot_params(&chain, &flat);
    // the phaser takes the two values there are; its third name has none
    assert_eq!(maps, vec![(s("phaser"), vec![(s("rate"), 0.3), (s("depth"), 0.36)])]);
}

#[test]
fn snapshot_of_repeated_key_keeps_last() {
    let chain = vec![s("overdrive"), s("overdrive")];
    let flat = vec![1.0f32, 2.0];
    let maps = snapshot_params(&chain, &flat);
    assert_eq!(maps, vec![(s("overdrive"), vec![(s("gain"), 2.0)])]);
}

#[test]
fn saved_state_builds_back_the_same_values() {
    let chain = vec![s("overdrive"), s("eq3band"), s("reverb")];
    let flat: Vec<f32> = (0..13).map(|i| i as f32 * 0.5 + 1.0).collect();
    let def = PresetDef { name: s("Mine"), chain: chain.clone(), params: snapshot_params(&chain, &flat) };
    let plan = build_plan(&def).unwrap();
    let mut off = 0;
    for st in &plan {
        let n = st.kind.param_count();
        let expect: Vec<(usize, f32)> = (0..n).map(|j| (j, flat[off + j])).collect();
        assert_eq!(st.overrides, expect);
        off += n;
    }
    assert_eq!(off, flat.len());
}

#[test]
fn bare_parameter_list_goes_under_one_key() {
    let params = vec![("gain", 15.0f32), ("low_db", -6.0), ("gain", 3.0)];
    let def = effect_to_preset_def("Crunch", &params);
    assert_eq!(def.name, "Crunch");
    assert!(def.chain.is_empty());
    assert_eq!(def.params, vec![(s("_params"), vec![(s("gain"), 3.0), (s("low_db"), -6.0)])]);
    let none: Vec<(&str, f32)> = Vec::new();
    let def2 = effect_to_preset_def("Bypass", &none);
    assert!(def2.params.is_empty());
}

fn keys_distinct<W>(m: &[(String, W)]) -> bool {
    (0..m.len()).all(|i| (i + 1..m.len()).all(|j| m[i].0 != m[j].0))
}

#[test]
fn saved_maps_hold_no_key_twice() {
    let chain = vec![s("eq3band"), s("phaser"), s("eq3band"), s("nosuch"), s("phaser")];
    let flat: Vec<f32> = (0..20).map(|i| i as f32).collect();
    let maps = snapshot_params(&chain, &flat);
    assert!(keys_distinct(&maps));
    assert_eq!(maps.len(), 2);
    for (_, m) in &maps {
        assert!(keys_distinct(m));
    }
    let mut m = vec![(s("a"), 1), (s("b"), 2)];
    for (k, v) in [("b", 3), ("c", 4), ("a", 5), ("c", 6)] {
        put_entry(&mut m, s(k), v);
        assert!(keys_distinct(&m));
    }
    assert_eq!(m, vec![(s("a"), 5), (s("b"), 3), (s("c"), 6)]);
}
