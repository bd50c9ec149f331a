use vstd::prelude::*;
use crate::utils::text::sameText;

verus! {

/// The name of a stage: the key under which its checkpoint is kept and the
/// tag of every event about it. Two ids denote the same stage when their
/// names are equal, character by character.
#[derive(Clone, Copy, Debug, PartialEq, Eq, Hash)]
pub struct StageId(pub &'static str);

impl View for StageId {
    type V = Seq<char>;

    open spec fn view(&self) -> Seq<char> {
        self.0@
    }
}

impl StageId {
    /// Whether both ids name the same stage.
    pub fn sameAs(&self, other: &StageId) -> (same: bool)
        ensures
            same == (self@ == other@),
    {
        sameText(self.0, other.0)
    }
}

} // verus!
