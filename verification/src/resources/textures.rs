use vstd::prelude::*;

use crate::util::identifier::Identifier;

verus! {

/// A texture of the game: its identifier and encoded image bytes.
pub struct TextureAsset {
    identifier: Identifier,
    raw_bytes: &'static [u8],
}

impl TextureAsset {
    pub closed spec fn spec_identifier(&self) -> (Seq<char>, Seq<char>) {
        self.identifier@
    }

    pub closed spec fn spec_bytes(&self) -> Seq<u8> {
        self.raw_bytes@
    }

    pub fn new(identifier: Identifier, bytes: &'static [u8]) -> (res: Self)
        ensures
            res.spec_identifier() == identifier@,
            res.spec_bytes() == bytes@,
    {
        TextureAsset { identifier, raw_bytes: bytes }
    }

    pub fn identifier(&self) -> (res: &Identifier)
        ensures
            res@ == self.spec_identifier(),
    {
        &self.identifier
    }

    pub fn raw_bytes(&self) -> (res: &'static [u8])
        ensures
            res@ == self.spec_bytes(),
    {
        self.raw_bytes
    }
}

} // verus!
