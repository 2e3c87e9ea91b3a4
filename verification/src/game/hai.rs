//! Tiles.

use vstd::prelude::*;
use vstd::string::*;

verus! {

/// The number of distinct tile types in a full set.
pub const HAI_KINDS: usize = 34;

/// A wind tile.
///
/// # Japanese
/// * Kazehai: 風牌
/// * Ton, Nan, Shaa, Pei: 東, 南, 西, 北
#[derive(Clone, Copy, Debug, PartialEq, Eq, Structural, Hash)]
pub enum Kazehai {
    Ton,
    Nan,
    Shaa,
    Pei,
}

/// A dragon tile.
///
/// # Japanese
/// * Sangenpai: 三元牌
/// * Haku, Hatsu, Chun: 白, 發, 中
#[derive(Clone, Copy, Debug, PartialEq, Eq, Structural, Hash)]
pub enum Sangenpai {
    Haku,
    Hatsu,
    Chun,
}

/// A tile type. The three suits carry the number printed on the tile, which is
/// between one and nine on every tile that exists in a set.
///
/// # Japanese
/// * Hai: 牌
/// * Manzu, Pinzu, Souzu: 萬子, 筒子, 索子
#[derive(Clone, Copy, Debug, PartialEq, Eq, Structural, Hash)]
pub enum Hai {
    Manzu(u8),
    Pinzu(u8),
    Souzu(u8),
    Kazehai(Kazehai),
    Sangenpai(Sangenpai),
}

impl Kazehai {
    /// Position among the winds, in playing order.
    pub open spec fn spec_ordinal(self) -> int {
        match self {
            Kazehai::Ton => 0,
            Kazehai::Nan => 1,
            Kazehai::Shaa => 2,
            Kazehai::Pei => 3,
        }
    }

    pub fn ordinal(&self) -> (n: u8)
        ensures
            n == self.spec_ordinal(),
    {
        match self {
            Kazehai::Ton => 0,
            Kazehai::Nan => 1,
            Kazehai::Shaa => 2,
            Kazehai::Pei => 3,
        }
    }

    pub open spec fn text(self) -> Seq<char> {
        match self {
            Kazehai::Ton => "東"@,
            Kazehai::Nan => "南"@,
            Kazehai::Shaa => "西"@,
            Kazehai::Pei => "北"@,
        }
    }

    pub fn as_str(&self) -> (s: &'static str)
        ensures
            s@ == self.text(),
    {
        match self {
            Kazehai::Ton => "東",
            Kazehai::Nan => "南",
            Kazehai::Shaa => "西",
            Kazehai::Pei => "北",
        }
    }
}

impl Sangenpai {
    /// Position among the dragons.
    pub open spec fn spec_ordinal(self) -> int {
        match self {
            Sangenpai::Haku => 0,
            Sangenpai::Hatsu => 1,
            Sangenpai::Chun => 2,
        }
    }

    pub fn ordinal(&self) -> (n: u8)
        ensures
            n == self.spec_ordinal(),
    {
        match self {
            Sangenpai::Haku => 0,
            Sangenpai::Hatsu => 1,
            Sangenpai::Chun => 2,
        }
    }

    pub open spec fn text(self) -> Seq<char> {
        match self {
            Sangenpai::Haku => "白"@,
            Sangenpai::Hatsu => "發"@,
            Sangenpai::Chun => "中"@,
        }
    }

    pub fn as_str(&self) -> (s: &'static str)
        ensures
            s@ == self.text(),
    {
        match self {
            Sangenpai::Haku => "白",
            Sangenpai::Hatsu => "發",
            Sangenpai::Chun => "中",
        }
    }
}

/// The decimal digit `d`, as text.
pub open spec fn digit_text(d: int) -> Seq<char> {
    if d == 0 {
        "0"@
    } else if d == 1 {
        "1"@
    } else if d == 2 {
        "2"@
    } else if d == 3 {
        "3"@
    } else if d == 4 {
        "4"@
    } else if d == 5 {
        "5"@
    } else if d == 6 {
        "6"@
    } else if d == 7 {
        "7"@
    } else if d == 8 {
        "8"@
    } else {
        "9"@
    }
}

/// The decimal notation of `n`, without leading zeros.
pub open spec fn decimal_text(n: nat) -> Seq<char>
    decreases n,
{
    if n < 10 {
        digit_text(n as int)
    } else {
        decimal_text(n / 10) + digit_text((n % 10) as int)
    }
}

fn digit_str(d: u8) -> (s: &'static str)
    requires
        d < 10,
    ensures
        s@ == digit_text(d as int),
{
    if d == 0 {
        "0"
    } else if d == 1 {
        "1"
    } else if d == 2 {
        "2"
    } else if d == 3 {
        "3"
    } else if d == 4 {
        "4"
    } else if d == 5 {
        "5"
    } else if d == 6 {
        "6"
    } else if d == 7 {
        "7"
    } else if d == 8 {
        "8"
    } else {
        "9"
    }
}

/// Writes `n` in decimal notation.
pub fn decimal_string(n: u8) -> (s: String)
    ensures
        s@ == decimal_text(n as nat),
{
    let mut s = String::new();
    let ghost m = n as nat;
    if n >= 100 {
        s.append(digit_str(n / 100));
        s.append(digit_str((n / 10) % 10));
        proof {
            let tens = m / 10;
            assert(decimal_text(m) == decimal_text(tens) + digit_text((m % 10) as int));
            assert(decimal_text(tens) == decimal_text(tens / 10) + digit_text((tens % 10) as int));
            assert(decimal_text(tens / 10) == digit_text((tens / 10) as int));
            assert(tens / 10 == (n / 100) as nat);
            assert(tens % 10 == ((n / 10) % 10) as nat);
        }
    } else if n >= 10 {
        s.append(digit_str(n / 10));
        proof {
            assert(decimal_text(m) == decimal_text(m / 10) + digit_text((m % 10) as int));
            assert(decimal_text(m / 10) == digit_text((m / 10) as int));
        }
    }
    s.append(digit_str(n % 10));
    s
}

impl Hai {
    /// Whether a tile of this type exists in a full set.
    pub open spec fn spec_is_valid(&self) -> bool {
        match self {
            Hai::Manzu(n) | Hai::Pinzu(n) | Hai::Souzu(n) => 1 <= *n <= 9,
            Hai::Kazehai(_) | Hai::Sangenpai(_) => true,
        }
    }

    #[verifier::when_used_as_spec(spec_is_valid)]
    pub fn is_valid(&self) -> (b: bool)
        ensures
            b == self.spec_is_valid(),
    {
        match self {
            Hai::Manzu(n) | Hai::Pinzu(n) | Hai::Souzu(n) => 1 <= *n && *n <= 9,
            Hai::Kazehai(_) | Hai::Sangenpai(_) => true,
        }
    }

    /// The number by which tiles are ordered: suits before winds before dragons,
    /// and within a suit by the printed number. Distinct tiles have distinct keys.
    pub open spec fn spec_key(self) -> int {
        match self {
            Hai::Manzu(n) => n as int,
            Hai::Pinzu(n) => 256 + n,
            Hai::Souzu(n) => 512 + n,
            Hai::Kazehai(k) => 768 + k.spec_ordinal(),
            Hai::Sangenpai(s) => 1024 + s.spec_ordinal(),
        }
    }

    pub fn key(&self) -> (k: u16)
        ensures
            k == self.spec_key(),
    {
        match self {
            Hai::Manzu(n) => *n as u16,
            Hai::Pinzu(n) => 256 + *n as u16,
            Hai::Souzu(n) => 512 + *n as u16,
            Hai::Kazehai(k) => 768 + k.ordinal() as u16,
            Hai::Sangenpai(s) => 1024 + s.ordinal() as u16,
        }
    }

    /// Position of a valid tile in the list of all thirty-four tile types.
    pub open spec fn spec_index(self) -> int {
        match self {
            Hai::Manzu(n) => n - 1,
            Hai::Pinzu(n) => 9 + n - 1,
            Hai::Souzu(n) => 18 + n - 1,
            Hai::Kazehai(k) => 27 + k.spec_ordinal(),
            Hai::Sangenpai(s) => 31 + s.spec_ordinal(),
        }
    }

    /// The tile type at position `i` of the list of all tile types.
    pub open spec fn spec_from_index(i: int) -> Hai {
        if i < 9 {
            Hai::Manzu((i + 1) as u8)
        } else if i < 18 {
            Hai::Pinzu((i - 8) as u8)
        } else if i < 27 {
            Hai::Souzu((i - 17) as u8)
        } else if i == 27 {
            Hai::Kazehai(Kazehai::Ton)
        } else if i == 28 {
            Hai::Kazehai(Kazehai::Nan)
        } else if i == 29 {
            Hai::Kazehai(Kazehai::Shaa)
        } else if i == 30 {
            Hai::Kazehai(Kazehai::Pei)
        } else if i == 31 {
            Hai::Sangenpai(Sangenpai::Haku)
        } else if i == 32 {
            Hai::Sangenpai(Sangenpai::Hatsu)
        } else {
            Hai::Sangenpai(Sangenpai::Chun)
        }
    }

    /// The position of this tile in the list of all tile types, if it is valid.
    pub fn index(&self) -> (r: Option<usize>)
        ensures
            r is Some <==> self.is_valid(),
            r matches Some(i) ==> i == self.spec_index() && i < HAI_KINDS,
    {
        if !self.is_valid() {
            return None;
        }
        match self {
            Hai::Manzu(n) => Some((*n - 1) as usize),
            Hai::Pinzu(n) => Some((9 + *n - 1) as usize),
            Hai::Souzu(n) => Some((18 + *n - 1) as usize),
            Hai::Kazehai(k) => Some((27 + k.ordinal()) as usize),
            Hai::Sangenpai(s) => Some((31 + s.ordinal()) as usize),
        }
    }

    /// The tile type at position `i`, for `i` below the number of tile types.
    pub fn from_index(i: usize) -> (r: Option<Hai>)
        ensures
            r is Some <==> i < HAI_KINDS,
            r matches Some(hai) ==> hai == Hai::spec_from_index(i as int) && hai.is_valid()
                && hai.spec_index() == i,
    {
        if i < 9 {
            Some(Hai::Manzu((i + 1) as u8))
        } else if i < 18 {
            Some(Hai::Pinzu((i - 8) as u8))
        } else if i < 27 {
            Some(Hai::Souzu((i - 17) as u8))
        } else if i == 27 {
            Some(Hai::Kazehai(Kazehai::Ton))
        } else if i == 28 {
            Some(Hai::Kazehai(Kazehai::Nan))
        } else if i == 29 {
            Some(Hai::Kazehai(Kazehai::Shaa))
        } else if i == 30 {
            Some(Hai::Kazehai(Kazehai::Pei))
        } else if i == 31 {
            Some(Hai::Sangenpai(Sangenpai::Haku))
        } else if i == 32 {
            Some(Hai::Sangenpai(Sangenpai::Hatsu))
        } else if i == 33 {
            Some(Hai::Sangenpai(Sangenpai::Chun))
        } else {
            None
        }
    }

    /// How the tile is written: the number and a letter for the suit, or the
    /// character printed on an honor tile.
    pub open spec fn text(self) -> Seq<char> {
        match self {
            Hai::Manzu(n) => decimal_text(n as nat) + "m"@,
            Hai::Pinzu(n) => decimal_text(n as nat) + "p"@,
            Hai::Souzu(n) => decimal_text(n as nat) + "s"@,
            Hai::Kazehai(k) => k.text(),
            Hai::Sangenpai(s) => s.text(),
        }
    }

    /// Writes the tile as [`Hai::text`] describes.
    pub fn to_string(&self) -> (s: String)
        ensures
            s@ == self.text(),
    {
        match self {
            Hai::Manzu(n) => {
                let mut s = decimal_string(*n);
                s.append("m");
                s
            },
            Hai::Pinzu(n) => {
                let mut s = decimal_string(*n);
                s.append("p");
                s
            },
            Hai::Souzu(n) => {
                let mut s = decimal_string(*n);
                s.append("s");
                s
            },
            Hai::Kazehai(k) => String::from_str(k.as_str()),
            Hai::Sangenpai(d) => String::from_str(d.as_str()),
        }
    }
}

/// Tiles with the same key are the same tile.
pub proof fn lemma_key_injective(a: Hai, b: Hai)
    requires
        a.spec_key() == b.spec_key(),
    ensures
        a == b,
{
}

/// Valid tiles at the same position are the same tile.
pub proof fn lemma_index_injective(a: Hai, b: Hai)
    requires
        a.is_valid(),
        b.is_valid(),
        a.spec_index() == b.spec_index(),
    ensures
        a == b,
{
}

} // verus!
