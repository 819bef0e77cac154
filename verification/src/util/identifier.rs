use vstd::prelude::*;

verus! {

/// Namespace of every identifier created by the game itself.
pub const GAME_ID: &'static str = "foxiefox";

/// A namespaced name, such as `foxiefox:ui/image`.
#[derive(Clone, Debug, PartialEq, Eq, Hash)]
pub struct Identifier {
    pub namespace: String,
    pub path: String,
}

impl View for Identifier {
    type V = (Seq<char>, Seq<char>);

    open spec fn view(&self) -> (Seq<char>, Seq<char>) {
        (self.namespace@, self.path@)
    }
}

/// The characters of the game's namespace.
pub open spec fn game_namespace() -> Seq<char> {
    seq!['f', 'o', 'x', 'i', 'e', 'f', 'o', 'x']
}

/// How an identifier is displayed: `namespace:path`.
pub open spec fn display_identifier(id: (Seq<char>, Seq<char>)) -> Seq<char> {
    id.0 + seq![':'] + id.1
}

impl Identifier {
    /// An identifier in the game's namespace with the given path.
    pub fn new(path: &str) -> (res: Self)
        ensures
            res@ == (game_namespace(), path@),
    {
        proof {
            reveal_strlit("foxiefox");
        }
        Identifier { namespace: String::from_str(GAME_ID), path: String::from_str(path) }
    }

    /// Same as `new`, for paths known when the program is built.
    pub fn new_const(path: &'static str) -> (res: Self)
        ensures
            res@ == (game_namespace(), path@),
    {
        Self::new(path)
    }

    /// Whether both identifiers name the same thing.
    pub fn same_as(&self, other: &Identifier) -> (res: bool)
        ensures
            res == (self@ == other@),
    {
        self.namespace == other.namespace && self.path == other.path
    }

    /// A copy of this identifier.
    pub fn duplicate(&self) -> (res: Identifier)
        ensures
            res@ == self@,
    {
        Identifier { namespace: self.namespace.clone(), path: self.path.clone() }
    }

    /// The identifier as it is displayed, `namespace:path`.
    pub fn to_string(&self) -> (res: String)
        ensures
            res@ == display_identifier(self@),
    {
        proof {
            reveal_strlit(":");
        }
        let mut res = self.namespace.clone();
        res.append(":");
        res.append(self.path.as_str());
        res
    }
}

} // verus!
