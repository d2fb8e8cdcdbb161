use vstd::prelude::*;

verus! {

/// Pet names configuration.
#[derive(Debug, Clone)]
pub struct PetNamesConfig {
    /// Use pet names instead of requested file names.
    pub enabled: bool,
    /// Count of words that pet name will include.
    pub words: u8,
    /// Separator between the words.
    pub separator: String,
}

/// Random string configuration.
#[derive(Debug, Clone)]
pub struct RandomConfig {
    /// Use random strings instead of requested file names.
    pub enabled: bool,
    /// Length of the random string to generate.
    pub length: usize,
}

/// Paste configuration.
#[derive(Debug, Clone)]
pub struct PasteConfig {
    /// Pet names configuration.
    pub pet_names: PetNamesConfig,
    /// Random string configuration.
    pub random: RandomConfig,
    /// Default file extension.
    pub default_extension: String,
}

} // verus!
