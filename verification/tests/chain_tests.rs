use funpedals::chain::{flatten_units, keep_units_with_params, locate_param, param_offset, EffectChain};

#[test]
fn new_chain_is_empty_and_push_appends() {
    let c: EffectChain<u32> = EffectChain::new("OD>EQ>Reverb");
    assert_eq!(c.name, "OD>EQ>Reverb");
    assert!(c.effects.is_empty());
    let c = c.push(7).push(9);
    assert_eq!(c.effects, vec![7, 9]);
    assert_eq!(c.name, "OD>EQ>Reverb");
}

#[test]
fn locate_routes_across_units() {
    // overdrive (1), eq3band (7), reverb (5)
    let counts = vec![1usize, 7, 5];
    assert_eq!(locate_param(&counts, 0), Some((0, 0)));
    assert_eq!(locate_param(&counts, 1), Some((1, 0)));
    assert_eq!(locate_param(&counts, 7), Some((1, 6)));
    assert_eq!(locate_param(&counts, 8), Some((2, 0)));
    assert_eq!(locate_param(&counts, 12), Some((2, 4)));
    assert_eq!(locate_param(&counts, 13), None);
    assert_eq!(locate_param(&counts, usize::MAX), None);
}

#[test]
fn locate_skips_units_without_parameters() {
    let counts = vec![0usize, 3, 0, 2];
    assert_eq!(locate_param(&counts, 0), Some((1, 0)));
    assert_eq!(locate_param(&counts, 2), Some((1, 2)));
    assert_eq!(locate_param(&counts, 3), Some((3, 0)));
    assert_eq!(locate_param(&counts, 5), None);
    assert_eq!(locate_param(&Vec::new(), 0), None);
}

#[test]
fn offsets_are_prefix_sums() {
    let counts = vec![1usize, 7, 5];
    assert_eq!(param_offset(&counts, 0), 0);
    assert_eq!(param_offset(&counts, 1), 1);
    assert_eq!(param_offset(&counts, 2), 8);
    assert_eq!(param_offset(&counts, 3), 13);
}

#[test]
fn flatten_joins_in_order() {
    let units = vec![vec!["gain"], vec![], vec!["rate", "depth", "wet"]];
    assert_eq!(flatten_units(units), vec!["gain", "rate", "depth", "wet"]);
    let empty: Vec<Vec<u8>> = Vec::new();
    assert!(flatten_units(empty).is_empty());
}

#[test]
fn read_and_write_agree_on_concrete_chain() {
    let units = vec![vec![10, 11], vec![], vec![20, 21, 22]];
    let counts: Vec<usize> = units.iter().map(|u| u.len()).collect();
    let flat = flatten_units(units.clone());
    for i in 0..flat.len() {
        let (k, j) = locate_param(&counts, i).unwrap();
        assert_eq!(flat[i], units[k][j]);
        assert_eq!(param_offset(&counts, k) + j, i);
    }
}

#[test]
fn only_units_with_parameters_are_kept() {
    let units = vec![
        ("Bypass".to_string(), Vec::<f32>::new()),
        ("Overdrive".to_string(), vec![15.0]),
        ("OctaveUp".to_string(), vec![]),
        ("Reverb".to_string(), vec![3.0, 0.3, 0.2, 0.9, 0.3]),
    ];
    let kept = keep_units_with_params(units);
    assert_eq!(kept.len(), 2);
    assert_eq!(kept[0].0, "Overdrive");
    assert_eq!(kept[1].0, "Reverb");
    assert_eq!(kept[1].1, vec![3.0, 0.3, 0.2, 0.9, 0.3]);
}

#[test]
fn tabs_join_to_the_whole_parameter_list() {
    let units = vec![
        (String::from("Bypass"), Vec::<u32>::new()),
        (String::from("Overdrive"), vec![1]),
        (String::from("OctaveUp"), vec![]),
        (String::from("Phaser"), vec![2, 3, 4]),
    ];
    let whole = flatten_units(units.iter().map(|u| u.1.clone()).collect());
    let tabs = keep_units_with_params(units);
    assert_eq!(tabs.len(), 2);
    let counts: Vec<usize> = tabs.iter().map(|t| t.1.len()).collect();
    let joined = flatten_units(tabs.iter().map(|t| t.1.clone()).collect());
    assert_eq!(joined, whole);
    assert_eq!(whole, vec![1, 2, 3, 4]);
    // slider 2 of the second tab is chain-wide parameter 3
    let index = param_offset(&counts, 1) + 2;
    assert_eq!(locate_param(&counts, index), Some((1, 2)));
    assert_eq!(whole[index], tabs[1].1[2]);
}
