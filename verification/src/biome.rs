//! Biome identification and the parts of a biome sent to clients.

use vstd::prelude::*;

use crate::ident::Ident;

verus! {

/// Identifies a biome on the server. The default ID refers to the first
/// biome the server was configured with.
#[derive(Clone, Copy, Default, PartialEq, Eq, PartialOrd, Ord, Hash, Debug, Structural)]
pub struct BiomeId(pub u16);

/// The kind of precipitation in a biome.
#[derive(Clone, Copy, PartialEq, Eq, Debug, Structural)]
pub enum BiomePrecipitation {
    Rain,
    Snow,
    NoPrecipitation,
}

impl Default for BiomePrecipitation {
    fn default() -> (p: Self)
        ensures
            p == BiomePrecipitation::Rain,
    {
        BiomePrecipitation::Rain
    }
}

impl BiomePrecipitation {
    /// The name the biome registry gives this kind of precipitation.
    pub fn registry_name(self) -> (s: &'static str)
        ensures
            s@ == (match self {
                BiomePrecipitation::Rain => seq!['r', 'a', 'i', 'n'],
                BiomePrecipitation::Snow => seq!['s', 'n', 'o', 'w'],
                BiomePrecipitation::NoPrecipitation => seq!['n', 'o', 'n', 'e'],
            }),
    {
        match self {
            BiomePrecipitation::Rain => {
                proof {
                    reveal_strlit("rain");
                }
                "rain"
            },
            BiomePrecipitation::Snow => {
                proof {
                    reveal_strlit("snow");
                }
                "snow"
            },
            BiomePrecipitation::NoPrecipitation => {
                proof {
                    reveal_strlit("none");
                }
                "none"
            },
        }
    }
}

/// How the client colors grass in a biome: swamps and dark forests are
/// colored specially.
#[derive(Clone, Copy, PartialEq, Eq, Debug, Structural)]
pub enum BiomeGrassColorModifier {
    Swamp,
    DarkForest,
    NoModifier,
}

impl Default for BiomeGrassColorModifier {
    fn default() -> (m: Self)
        ensures
            m == BiomeGrassColorModifier::NoModifier,
    {
        BiomeGrassColorModifier::NoModifier
    }
}

impl BiomeGrassColorModifier {
    /// The name the biome registry gives this modifier; none for no modifier.
    pub fn registry_name(self) -> (s: Option<&'static str>)
        ensures
            match self {
                BiomeGrassColorModifier::Swamp => s matches Some(n) && n@ == seq![
                    's',
                    'w',
                    'a',
                    'm',
                    'p',
                ],
                BiomeGrassColorModifier::DarkForest => s matches Some(n) && n@ == seq![
                    'd',
                    'a',
                    'r',
                    'k',
                    '_',
                    'f',
                    'o',
                    'r',
                    'e',
                    's',
                    't',
                ],
                BiomeGrassColorModifier::NoModifier => s is None,
            },
    {
        match self {
            BiomeGrassColorModifier::Swamp => {
                proof {
                    reveal_strlit("swamp");
                }
                Some("swamp")
            },
            BiomeGrassColorModifier::DarkForest => {
                proof {
                    reveal_strlit("dark_forest");
                }
                Some("dark_forest")
            },
            BiomeGrassColorModifier::NoModifier => None,
        }
    }
}

/// The music played in a biome.
#[derive(Clone, Debug)]
pub struct BiomeMusic {
    pub replace_current_music: bool,
    pub sound: Ident,
    pub min_delay: i32,
    pub max_delay: i32,
}

} // verus!
