use funpedals::catalog::{text_eq, EffectKind, QuickPreset};

const ALL_KINDS: [EffectKind; 16] = [
    EffectKind::Bypass,
    EffectKind::Overdrive,
    EffectKind::Distortion,
    EffectKind::AutoWah,
    EffectKind::OctaveUp,
    EffectKind::RingMod,
    EffectKind::Eq3Band,
    EffectKind::NoiseGate,
    EffectKind::Echo,
    EffectKind::Reverb,
    EffectKind::Chorus,
    EffectKind::Flanger,
    EffectKind::Phaser,
    EffectKind::GuitarSynth,
    EffectKind::Compressor,
    EffectKind::Limiter,
];

#[test]
fn text_eq_compares_characters() {
    assert!(text_eq("echo", "echo"));
    assert!(!text_eq("echo", "Echo"));
    assert!(!text_eq("echo", "echo "));
    assert!(text_eq("", ""));
}

#[test]
fn every_preset_key_names_its_kind() {
    let keys = [
        ("bypass", EffectKind::Bypass),
        ("overdrive", EffectKind::Overdrive),
        ("distortion", EffectKind::Distortion),
        ("autowah", EffectKind::AutoWah),
        ("octaveup", EffectKind::OctaveUp),
        ("ringmod", EffectKind::RingMod),
        ("eq3band", EffectKind::Eq3Band),
        ("noisegate", EffectKind::NoiseGate),
        ("echo", EffectKind::Echo),
        ("reverb", EffectKind::Reverb),
        ("chorus", EffectKind::Chorus),
        ("flanger", EffectKind::Flanger),
        ("phaser", EffectKind::Phaser),
        ("guitarsynth", EffectKind::GuitarSynth),
        ("compressor", EffectKind::Compressor),
        ("limiter", EffectKind::Limiter),
    ];
    for (key, kind) in keys {
        assert_eq!(EffectKind::from_key(key), Some(kind));
        assert_eq!(kind.key(), key);
    }
}

#[test]
fn unknown_keys_name_no_kind() {
    assert_eq!(EffectKind::from_key(""), None);
    assert_eq!(EffectKind::from_key("Echo"), None);
    assert_eq!(EffectKind::from_key("eq3"), None);
    assert_eq!(EffectKind::from_key("reverb "), None);
    assert_eq!(EffectKind::from_key("_params"), None);
}

#[test]
fn key_roundtrip_for_all_kinds() {
    for k in ALL_KINDS {
        assert_eq!(EffectKind::from_key(k.key()), Some(k));
    }
}

#[test]
fn parameter_names_in_index_order() {
    assert_eq!(
        EffectKind::Eq3Band.param_names(),
        vec!["low_freq", "low_db", "mid_freq", "mid_db", "high_freq", "high_db", "gain_db"]
    );
    assert_eq!(
        EffectKind::AutoWah.param_names(),
        vec!["min_freq", "max_freq", "attack_ms", "release_ms", "q"]
    );
    assert_eq!(EffectKind::NoiseGate.param_names(), vec!["threshold", "attack", "decay"]);
    assert_eq!(
        EffectKind::Limiter.param_names(),
        vec!["threshold", "ratio", "attack", "release", "gain"]
    );
    assert_eq!(EffectKind::Distortion.param_names(), vec!["gain"]);
    assert!(EffectKind::Bypass.param_names().is_empty());
    assert!(EffectKind::OctaveUp.param_names().is_empty());
}

#[test]
fn parameter_units_and_counts_agree() {
    assert_eq!(EffectKind::NoiseGate.param_units(), vec!["dB", "ms", "ms"]);
    assert_eq!(EffectKind::AutoWah.param_units(), vec!["Hz", "Hz", "ms", "ms", ""]);
    assert_eq!(EffectKind::Compressor.param_units(), vec!["dB", "", "ms", "ms", "dB"]);
    assert_eq!(EffectKind::GuitarSynth.param_units(), vec!["", "ms", "ms"]);
    assert_eq!(EffectKind::Reverb.param_units(), vec!["", "", "", "", ""]);
    for k in ALL_KINDS {
        let names = k.param_names();
        assert_eq!(names.len(), k.param_count());
        assert_eq!(k.param_units().len(), k.param_count());
        for i in 0..names.len() {
            for j in (i + 1)..names.len() {
                assert_ne!(names[i], names[j]);
            }
        }
    }
}

#[test]
fn quick_keys_and_titles() {
    let table = [
        ("b", QuickPreset::Bypass, "Bypass"),
        ("d", QuickPreset::Overdrive, "Overdrive"),
        ("D", QuickPreset::Distortion, "Distortion"),
        ("a", QuickPreset::AutoWah, "AutoWah"),
        ("o", QuickPreset::OctaveUp, "OctaveUp"),
        ("x", QuickPreset::RingMod, "RingMod"),
        ("q", QuickPreset::Eq3Band, "EQ3Band"),
        ("g", QuickPreset::NoiseGate, "NoiseGate"),
        ("e", QuickPreset::Echo, "Echo"),
        ("r", QuickPreset::Reverb, "Reverb"),
        ("c", QuickPreset::Chorus, "Chorus"),
        ("f", QuickPreset::Flanger, "Flanger"),
        ("p", QuickPreset::Phaser, "Phaser"),
        ("1", QuickPreset::OdEqReverb, "OD>EQ>Reverb"),
        ("2", QuickPreset::OdEqPhaser, "OD>EQ>Phaser"),
        ("3", QuickPreset::WahOdReverb, "Wah>OD>Reverb"),
    ];
    for (key, preset, title) in table {
        assert_eq!(QuickPreset::from_key(key), Some(preset));
        assert_eq!(preset.title(), title);
    }
    assert_eq!(QuickPreset::from_key("B"), None);
    assert_eq!(QuickPreset::from_key("4"), None);
    assert_eq!(QuickPreset::from_key("bypass"), None);
}

#[test]
fn quick_chains_list_their_kinds() {
    assert_eq!(
        QuickPreset::OdEqReverb.kinds(),
        vec![EffectKind::Overdrive, EffectKind::Eq3Band, EffectKind::Reverb]
    );
    assert_eq!(
        QuickPreset::OdEqPhaser.kinds(),
        vec![EffectKind::Overdrive, EffectKind::Eq3Band, EffectKind::Phaser]
    );
    assert_eq!(
        QuickPreset::WahOdReverb.kinds(),
        vec![EffectKind::AutoWah, EffectKind::Overdrive, EffectKind::Reverb]
    );
    assert_eq!(QuickPreset::Distortion.kinds(), vec![EffectKind::Distortion]);
    assert_eq!(QuickPreset::Eq3Band.kinds(), vec![EffectKind::Eq3Band]);
    assert_eq!(QuickPreset::Bypass.kinds(), vec![EffectKind::Bypass]);
}
