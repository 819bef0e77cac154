use vstd::prelude::*;

use crate::util::identifier::{game_namespace, Identifier};

verus! {

/// A shader of the game: its identifier and WGSL source.
pub struct Shader {
    identifier: Identifier,
    source: &'static str,
}

impl Shader {
    pub closed spec fn spec_identifier(&self) -> (Seq<char>, Seq<char>) {
        self.identifier@
    }

    pub closed spec fn spec_source(&self) -> Seq<char> {
        self.source@
    }

    /// A shader of the game's namespace at `identifier`, with WGSL `source`.
    pub fn new(identifier: &str, source: &'static str) -> (res: Self)
        ensures
            res.spec_identifier() == (game_namespace(), identifier@),
            res.spec_source() == source@,
    {
        Shader { identifier: Identifier::new(identifier), source }
    }

    pub fn identifier(&self) -> (res: &Identifier)
        ensures
            res@ == self.spec_identifier(),
    {
        &self.identifier
    }

    pub fn source(&self) -> (res: &'static str)
        ensures
            res@ == self.spec_source(),
    {
        self.source
    }

    /// A copy of the shader.
    pub fn duplicate(&self) -> (res: Self)
        ensures
            res.spec_identifier() == self.spec_identifier(),
            res.spec_source() == self.spec_source(),
    {
        Shader { identifier: self.identifier.duplicate(), source: self.source }
    }
}

} // verus!
