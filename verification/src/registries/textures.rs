use vstd::prelude::*;

use crate::util::identifier::Identifier;
use crate::util::number_text::{decimal, decimal_string};

verus! {

/// Why one texture could not be loaded.
pub enum SingleTextureLoadError {
    FailedToLoadImage { path: String, error: anyhow::Error },
}

impl SingleTextureLoadError {
    /// The message of the error.
    pub fn message(&self) -> (res: String)
        ensures
            res@ == "Cannot load image"@,
    {
        String::from_str("Cannot load image")
    }
}

/// Every texture of a registry that could not be loaded, with why.
pub struct TextureLoadError {
    pub failures: Vec<(Identifier, anyhow::Error)>,
}

/// The message of a `TextureLoadError` with `count` failures.
pub open spec fn texture_load_message(count: nat) -> Seq<char> {
    "There are "@ + decimal(count) + " textures failed to load"@
}

impl TextureLoadError {
    /// The message of the error, which counts the failures.
    pub fn message(&self) -> (res: String)
        ensures
            res@ == texture_load_message(self.failures@.len()),
    {
        let mut res = String::from_str("There are ");
        let count = decimal_string(self.failures.len() as u64);
        res.append(count.as_str());
        res.append(" textures failed to load");
        res
    }

    /// The error of the first failure, which is the error's source.
    pub fn source(&self) -> (res: Option<&anyhow::Error>)
        ensures
            self.failures@.len() == 0 ==> res is None,
            self.failures@.len() > 0 ==> res == Some(&self.failures@[0].1),
    {
        if self.failures.len() > 0 {
            Some(&self.failures[0].1)
        } else {
            None
        }
    }
}

} // verus!
