//! Why an operation was refused.

use vstd::prelude::*;

verus! {

/// The reasons for which an operation is refused. A refused operation changes nothing.
#[derive(Clone, Copy, Debug, PartialEq, Eq, Structural, Hash)]
pub enum Error {
    /// The operation is not one that the current state accepts.
    IllegalOperationForPhase,
    /// The wall holds too few copies of a tile that was to be taken from it.
    SupplyUnderflow,
    /// A tile was to be returned to the wall that already holds every copy of it.
    SupplyOverflow,
    /// The initial hand has exposed melds, or neither thirteen nor fourteen tiles.
    InvalidHandInitialization,
    /// The hand does not hold the tile that was to be discarded.
    TileNotHeld,
    /// The hand cannot form the meld that was called.
    InvalidMeld,
    /// A quad turned out to be of a kind that cannot arise in the state it was called from.
    InternalInconsistency,
}

impl Error {
    pub open spec fn text(self) -> Seq<char> {
        match self {
            Error::IllegalOperationForPhase => "Unsupported operation at the current state."@,
            Error::SupplyUnderflow => "Not enough tiles left in haiyama."@,
            Error::SupplyOverflow => "Too many tiles for haiyama."@,
            Error::InvalidHandInitialization =>
                "Cannot initialize tehai: only 13 or 14 juntehai and no fuuro are supported."@,
            Error::TileNotHeld => "Tehai does not hold the tile."@,
            Error::InvalidMeld => "Tehai cannot form the mentsu."@,
            Error::InternalInconsistency => "Logic error: Tehai currently is not able to kan."@,
        }
    }

    /// A sentence that says what went wrong.
    pub fn message(&self) -> (s: &'static str)
        ensures
            s@ == self.text(),
    {
        match self {
            Error::IllegalOperationForPhase => "Unsupported operation at the current state.",
            Error::SupplyUnderflow => "Not enough tiles left in haiyama.",
            Error::SupplyOverflow => "Too many tiles for haiyama.",
            Error::InvalidHandInitialization =>
                "Cannot initialize tehai: only 13 or 14 juntehai and no fuuro are supported.",
            Error::TileNotHeld => "Tehai does not hold the tile.",
            Error::InvalidMeld => "Tehai cannot form the mentsu.",
            Error::InternalInconsistency => "Logic error: Tehai currently is not able to kan.",
        }
    }
}

} // verus!
