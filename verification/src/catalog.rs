//! The catalogue of effect kinds: the keys by which presets name them and
//! the parameters each kind exposes, in index order.

use vstd::prelude::*;

verus! {

/// Whether two pieces of text hold the same characters.
pub fn text_eq(a: &str, b: &str) -> (r: bool)
    ensures
        r == (a@ == b@),
{
    let x: String = a.to_owned();
    let y: String = b.to_owned();
    x == y
}

/// One kind of effect unit that a preset chain can hold.
#[derive(Clone, Copy, Debug, PartialEq, Eq, Structural)]
pub enum EffectKind {
    Bypass,
    Overdrive,
    Distortion,
    AutoWah,
    OctaveUp,
    RingMod,
    Eq3Band,
    NoiseGate,
    Echo,
    Reverb,
    Chorus,
    Flanger,
    Phaser,
    GuitarSynth,
    Compressor,
    Limiter,
}

/// The kind that a chain key names, if any.
pub open spec fn kind_named(s: Seq<char>) -> Option<EffectKind> {
    if s == "bypass"@ {
        Some(EffectKind::Bypass)
    } else if s == "overdrive"@ {
        Some(EffectKind::Overdrive)
    } else if s == "distortion"@ {
        Some(EffectKind::Distortion)
    } else if s == "autowah"@ {
        Some(EffectKind::AutoWah)
    } else if s == "octaveup"@ {
        Some(EffectKind::OctaveUp)
    } else if s == "ringmod"@ {
        Some(EffectKind::RingMod)
    } else if s == "eq3band"@ {
        Some(EffectKind::Eq3Band)
    } else if s == "noisegate"@ {
        Some(EffectKind::NoiseGate)
    } else if s == "echo"@ {
        Some(EffectKind::Echo)
    } else if s == "reverb"@ {
        Some(EffectKind::Reverb)
    } else if s == "chorus"@ {
        Some(EffectKind::Chorus)
    } else if s == "flanger"@ {
        Some(EffectKind::Flanger)
    } else if s == "phaser"@ {
        Some(EffectKind::Phaser)
    } else if s == "guitarsynth"@ {
        Some(EffectKind::GuitarSynth)
    } else if s == "compressor"@ {
        Some(EffectKind::Compressor)
    } else if s == "limiter"@ {
        Some(EffectKind::Limiter)
    } else {
        None
    }
}

impl EffectKind {
    /// The chain key of this kind, as presets write it.
    pub open spec fn key_text(self) -> Seq<char> {
        match self {
            EffectKind::Bypass => "bypass"@,
            EffectKind::Overdrive => "overdrive"@,
            EffectKind::Distortion => "distortion"@,
            EffectKind::AutoWah => "autowah"@,
            EffectKind::OctaveUp => "octaveup"@,
            EffectKind::RingMod => "ringmod"@,
            EffectKind::Eq3Band => "eq3band"@,
            EffectKind::NoiseGate => "noisegate"@,
            EffectKind::Echo => "echo"@,
            EffectKind::Reverb => "reverb"@,
            EffectKind::Chorus => "chorus"@,
            EffectKind::Flanger => "flanger"@,
            EffectKind::Phaser => "phaser"@,
            EffectKind::GuitarSynth => "guitarsynth"@,
            EffectKind::Compressor => "compressor"@,
            EffectKind::Limiter => "limiter"@,
        }
    }

    /// The names of this kind's parameters, in the order of their indices.
    pub open spec fn param_names_text(self) -> Seq<Seq<char>> {
        match self {
            EffectKind::Bypass => seq![],
            EffectKind::Overdrive => seq!["gain"@],
            EffectKind::Distortion => seq!["gain"@],
            EffectKind::AutoWah => seq![
                "min_freq"@,
                "max_freq"@,
                "attack_ms"@,
                "release_ms"@,
                "q"@,
            ],
            EffectKind::OctaveUp => seq![],
            EffectKind::RingMod => seq!["carrier_freq"@, "mix"@],
            EffectKind::Eq3Band => seq![
                "low_freq"@,
                "low_db"@,
                "mid_freq"@,
                "mid_db"@,
                "high_freq"@,
                "high_db"@,
                "gain_db"@,
            ],
            EffectKind::NoiseGate => seq!["threshold"@, "attack"@, "decay"@],
            EffectKind::Echo => seq!["delay_time"@, "feedback"@, "wet"@],
            EffectKind::Reverb => seq!["room_size"@, "time"@, "damping"@, "dry"@, "wet"@],
            EffectKind::Chorus => seq!["rate"@, "depth"@, "wet"@],
            EffectKind::Flanger => seq!["rate"@, "depth"@, "feedback"@, "wet"@],
            EffectKind::Phaser => seq!["rate"@, "depth"@, "wet"@],
            EffectKind::GuitarSynth => seq!["volume"@, "attack_ms"@, "release_ms"@],
            EffectKind::Compressor => seq![
                "threshold"@,
                "ratio"@,
                "attack"@,
                "release"@,
                "gain"@,
            ],
            EffectKind::Limiter => seq![
                "threshold"@,
                "ratio"@,
                "attack"@,
                "release"@,
                "gain"@,
            ],
        }
    }

    /// The display units of this kind's parameters, index by index
    /// (the empty text where a parameter has no unit).
    pub open spec fn param_units_text(self) -> Seq<Seq<char>> {
        match self {
            EffectKind::AutoWah => seq!["Hz"@, "Hz"@, "ms"@, "ms"@, ""@],
            EffectKind::NoiseGate => seq!["dB"@, "ms"@, "ms"@],
            EffectKind::GuitarSynth => seq![""@, "ms"@, "ms"@],
            EffectKind::Compressor => seq!["dB"@, ""@, "ms"@, "ms"@, "dB"@],
            EffectKind::Limiter => seq!["dB"@, ""@, "ms"@, "ms"@, "dB"@],
            _ => Seq::new(self.param_names_text().len(), |i: int| ""@),
        }
    }

    /// The number of parameters of this kind.
    pub open spec fn spec_param_count(self) -> nat {
        self.param_names_text().len()
    }

    /// The kind that a chain key names; `None` for a key that names no kind.
    pub fn from_key(key: &str) -> (r: Option<EffectKind>)
        ensures
            r == kind_named(key@),
    {
        if text_eq(key, "bypass") {
            Some(EffectKind::Bypass)
        } else if text_eq(key, "overdrive") {
            Some(EffectKind::Overdrive)
        } else if text_eq(key, "distortion") {
            Some(EffectKind::Distortion)
        } else if text_eq(key, "autowah") {
            Some(EffectKind::AutoWah)
        } else if text_eq(key, "octaveup") {
            Some(EffectKind::OctaveUp)
        } else if text_eq(key, "ringmod") {
            Some(EffectKind::RingMod)
        } else if text_eq(key, "eq3band") {
            Some(EffectKind::Eq3Band)
        } else if text_eq(key, "noisegate") {
            Some(EffectKind::NoiseGate)
        } else if text_eq(key, "echo") {
            Some(EffectKind::Echo)
        } else if text_eq(key, "reverb") {
            Some(EffectKind::Reverb)
        } else if text_eq(key, "chorus") {
            Some(EffectKind::Chorus)
        } else if text_eq(key, "flanger") {
            Some(EffectKind::Flanger)
        } else if text_eq(key, "phaser") {
            Some(EffectKind::Phaser)
        } else if text_eq(key, "guitarsynth") {
            Some(EffectKind::GuitarSynth)
        } else if text_eq(key, "compressor") {
            Some(EffectKind::Compressor)
        } else if text_eq(key, "limiter") {
            Some(EffectKind::Limiter)
        } else {
            None
        }
    }

    /// The chain key of this kind.
    pub fn key(&self) -> (r: &'static str)
        ensures
            r@ == self.key_text(),
    {
        match self {
            EffectKind::Bypass => "bypass",
            EffectKind::Overdrive => "overdrive",
            EffectKind::Distortion => "distortion",
            EffectKind::AutoWah => "autowah",
            EffectKind::OctaveUp => "octaveup",
            EffectKind::RingMod => "ringmod",
            EffectKind::Eq3Band => "eq3band",
            EffectKind::NoiseGate => "noisegate",
            EffectKind::Echo => "echo",
            EffectKind::Reverb => "reverb",
            EffectKind::Chorus => "chorus",
            EffectKind::Flanger => "flanger",
            EffectKind::Phaser => "phaser",
            EffectKind::GuitarSynth => "guitarsynth",
            EffectKind::Compressor => "compressor",
            EffectKind::Limiter => "limiter",
        }
    }

    /// The names of this kind's parameters, in index order.
    pub fn param_names(&self) -> (r: Vec<&'static str>)
        ensures
            r@.len() == self.param_names_text().len(),
            forall|i: int| 0 <= i < r@.len() ==> #[trigger] r@[i]@ == self.param_names_text()[i],
    {
        let r: Vec<&'static str> = match self {
            EffectKind::Bypass => vec![],
            EffectKind::Overdrive => vec!["gain"],
            EffectKind::Distortion => vec!["gain"],
            EffectKind::AutoWah => vec!["min_freq", "max_freq", "attack_ms", "release_ms", "q"],
            EffectKind::OctaveUp => vec![],
            EffectKind::RingMod => vec!["carrier_freq", "mix"],
            EffectKind::Eq3Band => vec![
                "low_freq",
                "low_db",
                "mid_freq",
                "mid_db",
                "high_freq",
                "high_db",
                "gain_db",
            ],
            EffectKind::NoiseGate => vec!["threshold", "attack", "decay"],
            EffectKind::Echo => vec!["delay_time", "feedback", "wet"],
            EffectKind::Reverb => vec!["room_size", "time", "damping", "dry", "wet"],
            EffectKind::Chorus => vec!["rate", "depth", "wet"],
            EffectKind::Flanger => vec!["rate", "depth", "feedback", "wet"],
            EffectKind::Phaser => vec!["rate", "depth", "wet"],
            EffectKind::GuitarSynth => vec!["volume", "attack_ms", "release_ms"],
            EffectKind::Compressor => vec!["threshold", "ratio", "attack", "release", "gain"],
            EffectKind::Limiter => vec!["threshold", "ratio", "attack", "release", "gain"],
        };
        r
    }

    /// The display units of this kind's parameters, in index order.
    pub fn param_units(&self) -> (r: Vec<&'static str>)
        ensures
            r@.len() == self.param_units_text().len(),
            forall|i: int| 0 <= i < r@.len() ==> #[trigger] r@[i]@ == self.param_units_text()[i],
    {
        let r: Vec<&'static str> = match self {
            EffectKind::AutoWah => vec!["Hz", "Hz", "ms", "ms", ""],
            EffectKind::NoiseGate => vec!["dB", "ms", "ms"],
            EffectKind::GuitarSynth => vec!["", "ms", "ms"],
            EffectKind::Compressor => vec!["dB", "", "ms", "ms", "dB"],
            EffectKind::Limiter => vec!["dB", "", "ms", "ms", "dB"],
            EffectKind::Bypass | EffectKind::OctaveUp => vec![],
            EffectKind::Overdrive | EffectKind::Distortion => vec![""],
            EffectKind::RingMod => vec!["", ""],
            EffectKind::Eq3Band => vec!["", "", "", "", "", "", ""],
            EffectKind::Reverb => vec!["", "", "", "", ""],
            EffectKind::Flanger => vec!["", "", "", ""],
            EffectKind::Echo | EffectKind::Chorus | EffectKind::Phaser => vec!["", "", ""],
        };
        r
    }

    /// The number of parameters of this kind.
    pub fn param_count(&self) -> (r: usize)
        ensures
            r == self.spec_param_count(),
    {
        match self {
            EffectKind::Bypass | EffectKind::OctaveUp => 0,
            EffectKind::Overdrive | EffectKind::Distortion => 1,
            EffectKind::RingMod => 2,
            EffectKind::NoiseGate | EffectKind::Echo | EffectKind::Chorus | EffectKind::Phaser
            | EffectKind::GuitarSynth => 3,
            EffectKind::Flanger => 4,
            EffectKind::AutoWah | EffectKind::Reverb | EffectKind::Compressor
            | EffectKind::Limiter => 5,
            EffectKind::Eq3Band => 7,
        }
    }
}

/// A preset reachable by a one-character key: a single effect, or one of
/// the built-in chains.
#[derive(Clone, Copy, Debug, PartialEq, Eq, Structural)]
pub enum QuickPreset {
    Bypass,
    Overdrive,
    Distortion,
    AutoWah,
    OctaveUp,
    RingMod,
    Eq3Band,
    NoiseGate,
    Echo,
    Reverb,
    Chorus,
    Flanger,
    Phaser,
    OdEqReverb,
    OdEqPhaser,
    WahOdReverb,
}

/// The quick preset that a one-character key selects, if any.
pub open spec fn quick_named(s: Seq<char>) -> Option<QuickPreset> {
    if s == "b"@ {
        Some(QuickPreset::Bypass)
    } else if s == "d"@ {
        Some(QuickPreset::Overdrive)
    } else if s == "D"@ {
        Some(QuickPreset::Distortion)
    } else if s == "a"@ {
        Some(QuickPreset::AutoWah)
    } else if s == "o"@ {
        Some(QuickPreset::OctaveUp)
    } else if s == "x"@ {
        Some(QuickPreset::RingMod)
    } else if s == "q"@ {
        Some(QuickPreset::Eq3Band)
    } else if s == "g"@ {
        Some(QuickPreset::NoiseGate)
    } else if s == "e"@ {
        Some(QuickPreset::Echo)
    } else if s == "r"@ {
        Some(QuickPreset::Reverb)
    } else if s == "c"@ {
        Some(QuickPreset::Chorus)
    } else if s == "f"@ {
        Some(QuickPreset::Flanger)
    } else if s == "p"@ {
        Some(QuickPreset::Phaser)
    } else if s == "1"@ {
        Some(QuickPreset::OdEqReverb)
    } else if s == "2"@ {
        Some(QuickPreset::OdEqPhaser)
    } else if s == "3"@ {
        Some(QuickPreset::WahOdReverb)
    } else {
        None
    }
}

impl QuickPreset {
    /// The name under which the chain built for this preset is shown.
    pub open spec fn title_text(self) -> Seq<char> {
        match self {
            QuickPreset::Bypass => "Bypass"@,
            QuickPreset::Overdrive => "Overdrive"@,
            QuickPreset::Distortion => "Distortion"@,
            QuickPreset::AutoWah => "AutoWah"@,
            QuickPreset::OctaveUp => "OctaveUp"@,
            QuickPreset::RingMod => "RingMod"@,
            QuickPreset::Eq3Band => "EQ3Band"@,
            QuickPreset::NoiseGate => "NoiseGate"@,
            QuickPreset::Echo => "Echo"@,
            QuickPreset::Reverb => "Reverb"@,
            QuickPreset::Chorus => "Chorus"@,
            QuickPreset::Flanger => "Flanger"@,
            QuickPreset::Phaser => "Phaser"@,
            QuickPreset::OdEqReverb => "OD>EQ>Reverb"@,
            QuickPreset::OdEqPhaser => "OD>EQ>Phaser"@,
            QuickPreset::WahOdReverb => "Wah>OD>Reverb"@,
        }
    }

    /// The quick preset that a key selects; `None` for any other key.
    pub fn from_key(key: &str) -> (r: Option<QuickPreset>)
        ensures
            r == quick_named(key@),
    {
        if text_eq(key, "b") {
            Some(QuickPreset::Bypass)
        } else if text_eq(key, "d") {
            Some(QuickPreset::Overdrive)
        } else if text_eq(key, "D") {
            Some(QuickPreset::Distortion)
        } else if text_eq(key, "a") {
            Some(QuickPreset::AutoWah)
        } else if text_eq(key, "o") {
            Some(QuickPreset::OctaveUp)
        } else if text_eq(key, "x") {
            Some(QuickPreset::RingMod)
        } else if text_eq(key, "q") {
            Some(QuickPreset::Eq3Band)
        } else if text_eq(key, "g") {
            Some(QuickPreset::NoiseGate)
        } else if text_eq(key, "e") {
            Some(QuickPreset::Echo)
        } else if text_eq(key, "r") {
            Some(QuickPreset::Reverb)
        } else if text_eq(key, "c") {
            Some(QuickPreset::Chorus)
        } else if text_eq(key, "f") {
            Some(QuickPreset::Flanger)
        } else if text_eq(key, "p") {
            Some(QuickPreset::Phaser)
        } else if text_eq(key, "1") {
            Some(QuickPreset::OdEqReverb)
        } else if text_eq(key, "2") {
            Some(QuickPreset::OdEqPhaser)
        } else if text_eq(key, "3") {
            Some(QuickPreset::WahOdReverb)
        } else {
            None
        }
    }

    /// The name under which the chain built for this preset is shown.
    pub fn title(&self) -> (r: &'static str)
        ensures
            r@ == self.title_text(),
    {
        match self {
            QuickPreset::Bypass => "Bypass",
            QuickPreset::Overdrive => "Overdrive",
            QuickPreset::Distortion => "Distortion",
            QuickPreset::AutoWah => "AutoWah",
            QuickPreset::OctaveUp => "OctaveUp",
            QuickPreset::RingMod => "RingMod",
            QuickPreset::Eq3Band => "EQ3Band",
            QuickPreset::NoiseGate => "NoiseGate",
            QuickPreset::Echo => "Echo",
            QuickPreset::Reverb => "Reverb",
            QuickPreset::Chorus => "Chorus",
            QuickPreset::Flanger => "Flanger",
            QuickPreset::Phaser => "Phaser",
            QuickPreset::OdEqReverb => "OD>EQ>Reverb",
            QuickPreset::OdEqPhaser => "OD>EQ>Phaser",
            QuickPreset::WahOdReverb => "Wah>OD>Reverb",
        }
    }

    /// The kinds of the units of the chain built for this preset, in order:
    /// one unit for a single effect, three for a built-in chain.
    pub open spec fn kinds_seq(self) -> Seq<EffectKind> {
        match self {
            QuickPreset::Bypass => seq![EffectKind::Bypass],
            QuickPreset::Overdrive => seq![EffectKind::Overdrive],
            QuickPreset::Distortion => seq![EffectKind::Distortion],
            QuickPreset::AutoWah => seq![EffectKind::AutoWah],
            QuickPreset::OctaveUp => seq![EffectKind::OctaveUp],
            QuickPreset::RingMod => seq![EffectKind::RingMod],
            QuickPreset::Eq3Band => seq![EffectKind::Eq3Band],
            QuickPreset::NoiseGate => seq![EffectKind::NoiseGate],
            QuickPreset::Echo => seq![EffectKind::Echo],
            QuickPreset::Reverb => seq![EffectKind::Reverb],
            QuickPreset::Chorus => seq![EffectKind::Chorus],
            QuickPreset::Flanger => seq![EffectKind::Flanger],
            QuickPreset::Phaser => seq![EffectKind::Phaser],
            QuickPreset::OdEqReverb => seq![EffectKind::Overdrive, EffectKind::Eq3Band, EffectKind::Reverb],
            QuickPreset::OdEqPhaser => seq![EffectKind::Overdrive, EffectKind::Eq3Band, EffectKind::Phaser],
            QuickPreset::WahOdReverb => seq![EffectKind::AutoWah, EffectKind::Overdrive, EffectKind::Reverb],
        }
    }

    /// The kinds of the units of the chain built for this preset, in order.
    pub fn kinds(&self) -> (r: Vec<EffectKind>)
        ensures
            r@ == self.kinds_seq(),
    {
        let r = match self {
            QuickPreset::Bypass => vec![EffectKind::Bypass],
            QuickPreset::Overdrive => vec![EffectKind::Overdrive],
            QuickPreset::Distortion => vec![EffectKind::Distortion],
            QuickPreset::AutoWah => vec![EffectKind::AutoWah],
            QuickPreset::OctaveUp => vec![EffectKind::OctaveUp],
            QuickPreset::RingMod => vec![EffectKind::RingMod],
            QuickPreset::Eq3Band => vec![EffectKind::Eq3Band],
            QuickPreset::NoiseGate => vec![EffectKind::NoiseGate],
            QuickPreset::Echo => vec![EffectKind::Echo],
            QuickPreset::Reverb => vec![EffectKind::Reverb],
            QuickPreset::Chorus => vec![EffectKind::Chorus],
            QuickPreset::Flanger => vec![EffectKind::Flanger],
            QuickPreset::Phaser => vec![EffectKind::Phaser],
            QuickPreset::OdEqReverb => vec![EffectKind::Overdrive, EffectKind::Eq3Band, EffectKind::Reverb],
            QuickPreset::OdEqPhaser => vec![EffectKind::Overdrive, EffectKind::Eq3Band, EffectKind::Phaser],
            QuickPreset::WahOdReverb => vec![EffectKind::AutoWah, EffectKind::Overdrive, EffectKind::Reverb],
        };
        proof {
            assert(r@ =~= self.kinds_seq());
        }
        r
    }
}

/// Every kind is found again by its own key, so that writing a kind into a
/// preset and reading it back gives the same kind.
pub proof fn law_key_names_kind(k: EffectKind)
    ensures
        kind_named(k.key_text()) == Some(k),
{
    reveal_strlit("bypass");
    reveal_strlit("overdrive");
    reveal_strlit("distortion");
    reveal_strlit("autowah");
    reveal_strlit("octaveup");
    reveal_strlit("ringmod");
    reveal_strlit("eq3band");
    reveal_strlit("noisegate");
    reveal_strlit("echo");
    reveal_strlit("reverb");
    reveal_strlit("chorus");
    reveal_strlit("flanger");
    reveal_strlit("phaser");
    reveal_strlit("guitarsynth");
    reveal_strlit("compressor");
    reveal_strlit("limiter");
    assert("bypass"@[0] == 'b' && "bypass"@.len() == 6);
    assert("overdrive"@[0] == 'o' && "overdrive"@.len() == 9);
    assert("distortion"@[0] == 'd' && "distortion"@.len() == 10);
    assert("autowah"@[0] == 'a' && "autowah"@.len() == 7);
    assert("octaveup"@[0] == 'o' && "octaveup"@.len() == 8);
    assert("ringmod"@[0] == 'r' && "ringmod"@.len() == 7);
    assert("eq3band"@[0] == 'e' && "eq3band"@.len() == 7);
    assert("noisegate"@[0] == 'n' && "noisegate"@.len() == 9);
    assert("echo"@[0] == 'e' && "echo"@.len() == 4);
    assert("reverb"@[0] == 'r' && "reverb"@.len() == 6);
    assert("chorus"@[0] == 'c' && "chorus"@.len() == 6);
    assert("flanger"@[0] == 'f' && "flanger"@.len() == 7);
    assert("phaser"@[0] == 'p' && "phaser"@.len() == 6);
    assert("guitarsynth"@[0] == 'g' && "guitarsynth"@.len() == 11);
    assert("compressor"@[0] == 'c' && "compressor"@.len() == 10);
    assert("limiter"@[0] == 'l' && "limiter"@.len() == 7);
    match k {
        EffectKind::Bypass => { assert(kind_named("bypass"@) == Some(EffectKind::Bypass)); }
        EffectKind::Overdrive => { assert(kind_named("overdrive"@) == Some(EffectKind::Overdrive)); }
        EffectKind::Distortion => { assert(kind_named("distortion"@) == Some(EffectKind::Distortion)); }
        EffectKind::AutoWah => { assert(kind_named("autowah"@) == Some(EffectKind::AutoWah)); }
        EffectKind::OctaveUp => { assert(kind_named("octaveup"@) == Some(EffectKind::OctaveUp)); }
        EffectKind::RingMod => { assert(kind_named("ringmod"@) == Some(EffectKind::RingMod)); }
        EffectKind::Eq3Band => { assert(kind_named("eq3band"@) == Some(EffectKind::Eq3Band)); }
        EffectKind::NoiseGate => { assert(kind_named("noisegate"@) == Some(EffectKind::NoiseGate)); }
        EffectKind::Echo => { assert(kind_named("echo"@) == Some(EffectKind::Echo)); }
        EffectKind::Reverb => { assert(kind_named("reverb"@) == Some(EffectKind::Reverb)); }
        EffectKind::Chorus => { assert(kind_named("chorus"@) == Some(EffectKind::Chorus)); }
        EffectKind::Flanger => { assert(kind_named("flanger"@) == Some(EffectKind::Flanger)); }
        EffectKind::Phaser => { assert(kind_named("phaser"@) == Some(EffectKind::Phaser)); }
        EffectKind::GuitarSynth => { assert(kind_named("guitarsynth"@) == Some(EffectKind::GuitarSynth)); }
        EffectKind::Compressor => { assert(kind_named("compressor"@) == Some(EffectKind::Compressor)); }
        EffectKind::Limiter => { assert(kind_named("limiter"@) == Some(EffectKind::Limiter)); }
    }
}

/// Within one kind no two parameters share a name, and each parameter has
/// exactly one unit.
pub proof fn lemma_param_names_distinct(k: EffectKind)
    ensures
        k.param_units_text().len() == k.param_names_text().len(),
        forall|i: int, j: int|
            0 <= i < j < k.param_names_text().len() ==> k.param_names_text()[i]
                != k.param_names_text()[j],
{
    match k {
        EffectKind::Bypass => {
        }
        EffectKind::Overdrive => {
            reveal_strlit("gain");
            assert("gain"@.len() == 4);
        }
        EffectKind::Distortion => {
            reveal_strlit("gain");
            assert("gain"@.len() == 4);
        }
        EffectKind::AutoWah => {
            reveal_strlit("attack_ms");
            assert("attack_ms"@.len() == 9);
            reveal_strlit("max_freq");
            assert("max_freq"@.len() == 8);
            reveal_strlit("min_freq");
            assert("min_freq"@.len() == 8);
            reveal_strlit("q");
            assert("q"@.len() == 1);
            reveal_strlit("release_ms");
            assert("release_ms"@.len() == 10);
            assert("min_freq"@[1] != "max_freq"@[1]);
        }
        EffectKind::OctaveUp => {
        }
        EffectKind::RingMod => {
            reveal_strlit("carrier_freq");
            assert("carrier_freq"@.len() == 12);
            reveal_strlit("mix");
            assert("mix"@.len() == 3);
        }
        EffectKind::Eq3Band => {
            reveal_strlit("gain_db");
            assert("gain_db"@.len() == 7);
            reveal_strlit("high_db");
            assert("high_db"@.len() == 7);
            reveal_strlit("high_freq");
            assert("high_freq"@.len() == 9);
            reveal_strlit("low_db");
            assert("low_db"@.len() == 6);
            reveal_strlit("low_freq");
            assert("low_freq"@.len() == 8);
            reveal_strlit("mid_db");
            assert("mid_db"@.len() == 6);
            reveal_strlit("mid_freq");
            assert("mid_freq"@.len() == 8);
            assert("low_freq"@[0] != "mid_freq"@[0]);
            assert("low_db"@[0] != "mid_db"@[0]);
            assert("high_db"@[0] != "gain_db"@[0]);
        }
        EffectKind::NoiseGate => {
            reveal_strlit("attack");
            assert("attack"@.len() == 6);
            reveal_strlit("decay");
            assert("decay"@.len() == 5);
            reveal_strlit("threshold");
            assert("threshold"@.len() == 9);
        }
        EffectKind::Echo => {
            reveal_strlit("delay_time");
            assert("delay_time"@.len() == 10);
            reveal_strlit("feedback");
            assert("feedback"@.len() == 8);
            reveal_strlit("wet");
            assert("wet"@.len() == 3);
        }
        EffectKind::Reverb => {
            reveal_strlit("damping");
            assert("damping"@.len() == 7);
            reveal_strlit("dry");
            assert("dry"@.len() == 3);
            reveal_strlit("room_size");
            assert("room_size"@.len() == 9);
            reveal_strlit("time");
            assert("time"@.len() == 4);
            reveal_strlit("wet");
            assert("wet"@.len() == 3);
            assert("dry"@[0] != "wet"@[0]);
        }
        EffectKind::Chorus => {
            reveal_strlit("depth");
            assert("depth"@.len() == 5);
            reveal_strlit("rate");
            assert("rate"@.len() == 4);
            reveal_strlit("wet");
            assert("wet"@.len() == 3);
        }
        EffectKind::Flanger => {
            reveal_strlit("depth");
            assert("depth"@.len() == 5);
            reveal_strlit("feedback");
            assert("feedback"@.len() == 8);
            reveal_strlit("rate");
            assert("rate"@.len() == 4);
            reveal_strlit("wet");
            assert("wet"@.len() == 3);
        }
        EffectKind::Phaser => {
            reveal_strlit("depth");
            assert("depth"@.len() == 5);
            reveal_strlit("rate");
            assert("rate"@.len() == 4);
            reveal_strlit("wet");
            assert("wet"@.len() == 3);
        }
        EffectKind::GuitarSynth => {
            reveal_strlit("attack_ms");
            assert("attack_ms"@.len() == 9);
            reveal_strlit("release_ms");
            assert("release_ms"@.len() == 10);
            reveal_strlit("volume");
            assert("volume"@.len() == 6);
        }
        EffectKind::Compressor => {
            reveal_strlit("attack");
            assert("attack"@.len() == 6);
            reveal_strlit("gain");
            assert("gain"@.len() == 4);
            reveal_strlit("ratio");
            assert("ratio"@.len() == 5);
            reveal_strlit("release");
            assert("release"@.len() == 7);
            reveal_strlit("threshold");
            assert("threshold"@.len() == 9);
        }
        EffectKind::Limiter => {
            reveal_strlit("attack");
            assert("attack"@.len() == 6);
            reveal_strlit("gain");
            assert("gain"@.len() == 4);
            reveal_strlit("ratio");
            assert("ratio"@.len() == 5);
            reveal_strlit("release");
            assert("release"@.len() == 7);
            reveal_strlit("threshold");
            assert("threshold"@.len() == 9);
        }
    }
}

/// The index at which a unit of kind `k` takes the parameter named `name`
/// (the index its `set_param` writes that parameter at); `None` for a name
/// the kind does not have.
pub open spec fn param_slot(k: EffectKind, name: Seq<char>) -> Option<nat> {
    match k {
        EffectKind::Bypass => None,
        EffectKind::Overdrive => {
            if name == "gain"@ {
                Some(0)
            } else {
                None
            }
        },
        EffectKind::Distortion => {
            if name == "gain"@ {
                Some(0)
            } else {
                None
            }
        },
        EffectKind::AutoWah => {
            if name == "min_freq"@ {
                Some(0)
            } else if name == "max_freq"@ {
                Some(1)
            } else if name == "attack_ms"@ {
                Some(2)
            } else if name == "release_ms"@ {
                Some(3)
            } else if name == "q"@ {
                Some(4)
            } else {
                None
            }
        },
        EffectKind::OctaveUp => None,
        EffectKind::RingMod => {
            if name == "carrier_freq"@ {
                Some(0)
            } else if name == "mix"@ {
                Some(1)
            } else {
                None
            }
        },
        EffectKind::Eq3Band => {
            if name == "low_freq"@ {
                Some(0)
            } else if name == "low_db"@ {
                Some(1)
            } else if name == "mid_freq"@ {
                Some(2)
            } else if name == "mid_db"@ {
                Some(3)
            } else if name == "high_freq"@ {
                Some(4)
            } else if name == "high_db"@ {
                Some(5)
            } else if name == "gain_db"@ {
                Some(6)
            } else {
                None
            }
        },
        EffectKind::NoiseGate => {
            if name == "threshold"@ {
                Some(0)
            } else if name == "attack"@ {
                Some(1)
            } else if name == "decay"@ {
                Some(2)
            } else {
                None
            }
        },
        EffectKind::Echo => {
            if name == "delay_time"@ {
                Some(0)
            } else if name == "feedback"@ {
                Some(1)
            } else if name == "wet"@ {
                Some(2)
            } else {
                None
            }
        },
        EffectKind::Reverb => {
            if name == "room_size"@ {
                Some(0)
            } else if name == "time"@ {
                Some(1)
            } else if name == "damping"@ {
                Some(2)
            } else if name == "dry"@ {
                Some(3)
            } else if name == "wet"@ {
                Some(4)
            } else {
                None
            }
        },
        EffectKind::Chorus => {
            if name == "rate"@ {
                Some(0)
            } else if name == "depth"@ {
                Some(1)
            } else if name == "wet"@ {
                Some(2)
            } else {
                None
            }
        },
        EffectKind::Flanger => {
            if name == "rate"@ {
                Some(0)
            } else if name == "depth"@ {
                Some(1)
            } else if name == "feedback"@ {
                Some(2)
            } else if name == "wet"@ {
                Some(3)
            } else {
                None
            }
        },
        EffectKind::Phaser => {
            if name == "rate"@ {
                Some(0)
            } else if name == "depth"@ {
                Some(1)
            } else if name == "wet"@ {
                Some(2)
            } else {
                None
            }
        },
        EffectKind::GuitarSynth => {
            if name == "volume"@ {
                Some(0)
            } else if name == "attack_ms"@ {
                Some(1)
            } else if name == "release_ms"@ {
                Some(2)
            } else {
                None
            }
        },
        EffectKind::Compressor => {
            if name == "threshold"@ {
                Some(0)
            } else if name == "ratio"@ {
                Some(1)
            } else if name == "attack"@ {
                Some(2)
            } else if name == "release"@ {
                Some(3)
            } else if name == "gain"@ {
                Some(4)
            } else {
                None
            }
        },
        EffectKind::Limiter => {
            if name == "threshold"@ {
                Some(0)
            } else if name == "ratio"@ {
                Some(1)
            } else if name == "attack"@ {
                Some(2)
            } else if name == "release"@ {
                Some(3)
            } else if name == "gain"@ {
                Some(4)
            } else {
                None
            }
        },
    }
}

/// The names of a kind's parameters stand at the indices at which the kind
/// takes them: parameter `j` is named by the name whose index is `j`, and a
/// name with an index names the parameter at that index.
pub proof fn law_param_names_match_slots(k: EffectKind)
    ensures
        forall|j: int|
            0 <= j < k.param_names_text().len() ==> param_slot(k, #[trigger] k.param_names_text()[j])
                == Some(j as nat),
        forall|name: Seq<char>|
            #[trigger] param_slot(k, name) matches Some(j) ==> j < k.param_names_text().len()
                && k.param_names_text()[j as int] == name,
{
    lemma_param_names_distinct(k);
}


} // verus!
