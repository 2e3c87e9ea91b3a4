//! Melds.

use super::hai::Hai;
use vstd::prelude::*;
use vstd::string::*;

verus! {

/// A group of tiles that has been, or is to be, set aside as one.
///
/// # Japanese
/// * Mentsu: 面子
/// * Juntsu: 順子
/// * Koutsu: 刻子
/// * Kantsu: 槓子
#[derive(Clone, Copy, Debug, PartialEq, Eq, Structural, Hash)]
pub enum Mentsu {
    /// Three tiles of one suit with consecutive numbers, lowest first.
    Juntsu(Hai, Hai, Hai),
    /// Three copies of one tile.
    Koutsu(Hai),
    /// Four copies of one tile.
    Kantsu(Hai),
}

impl Hai {
    /// Whether the tile belongs to one of the three numbered suits.
    pub open spec fn spec_is_suited(&self) -> bool {
        self is Manzu || self is Pinzu || self is Souzu
    }

    #[verifier::when_used_as_spec(spec_is_suited)]
    pub fn is_suited(&self) -> (b: bool)
        ensures
            b == self.spec_is_suited(),
    {
        match self {
            Hai::Manzu(_) | Hai::Pinzu(_) | Hai::Souzu(_) => true,
            Hai::Kazehai(_) | Hai::Sangenpai(_) => false,
        }
    }
}

impl Mentsu {
    /// How many copies of `hai` the meld holds.
    pub open spec fn count(self, hai: Hai) -> nat {
        match self {
            Mentsu::Juntsu(a, b, c) => (if a == hai {
                1nat
            } else {
                0nat
            }) + (if b == hai {
                1nat
            } else {
                0nat
            }) + (if c == hai {
                1nat
            } else {
                0nat
            }),
            Mentsu::Koutsu(h) => if h == hai {
                3
            } else {
                0
            },
            Mentsu::Kantsu(h) => if h == hai {
                4
            } else {
                0
            },
        }
    }

    /// Whether the meld can exist: a run is three valid tiles of one suit that
    /// follow each other, a triplet or a quad is of a valid tile.
    pub open spec fn spec_is_valid(&self) -> bool {
        match *self {
            Mentsu::Juntsu(a, b, c) => {
                &&& a.spec_is_suited()
                &&& a.spec_is_valid()
                &&& b.spec_is_valid()
                &&& c.spec_is_valid()
                &&& b.spec_key() == a.spec_key() + 1
                &&& c.spec_key() == a.spec_key() + 2
            },
            Mentsu::Koutsu(hai) => hai.spec_is_valid(),
            Mentsu::Kantsu(hai) => hai.spec_is_valid(),
        }
    }

    #[verifier::when_used_as_spec(spec_is_valid)]
    pub fn is_valid(&self) -> (b: bool)
        ensures
            b == self.spec_is_valid(),
    {
        match self {
            Mentsu::Juntsu(a, b, c) => {
                a.is_suited() && a.is_valid() && b.is_valid() && c.is_valid() && b.key() == a.key()
                    + 1 && c.key() == a.key() + 2
            },
            Mentsu::Koutsu(hai) => hai.is_valid(),
            Mentsu::Kantsu(hai) => hai.is_valid(),
        }
    }

    /// How the meld is written: its tiles one after the other.
    pub open spec fn text(self) -> Seq<char> {
        match self {
            Mentsu::Juntsu(a, b, c) => a.text() + b.text() + c.text(),
            Mentsu::Koutsu(hai) => hai.text() + hai.text() + hai.text(),
            Mentsu::Kantsu(hai) => hai.text() + hai.text() + hai.text() + hai.text(),
        }
    }

    /// Writes the meld as [`Mentsu::text`] describes.
    pub fn to_string(&self) -> (s: String)
        ensures
            s@ == self.text(),
    {
        match self {
            Mentsu::Juntsu(a, b, c) => {
                let mut s = a.to_string();
                s.append(b.to_string().as_str());
                s.append(c.to_string().as_str());
                s
            },
            Mentsu::Koutsu(hai) => {
                let one = hai.to_string();
                let mut s = hai.to_string();
                s.append(one.as_str());
                s.append(one.as_str());
                s
            },
            Mentsu::Kantsu(hai) => {
                let one = hai.to_string();
                let mut s = hai.to_string();
                s.append(one.as_str());
                s.append(one.as_str());
                s.append(one.as_str());
                s
            },
        }
    }
}

} // verus!
