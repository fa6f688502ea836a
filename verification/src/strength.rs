//! The strength model: six horses with fixed strengths, and the fixed-point
//! quantities derived from them.

use vstd::prelude::*;
use vstd::string::{StrSliceExecFns, StringSliceAdditionalSpecFns};

verus! {

/// Scale of the fixed-point quantities (four decimal places).
pub const PRECISION: u64 = 10000;

/// Number of horses in every race.
pub const NUM_HORSES: usize = 6;

/// Strength of each horse, by id.
pub const HORSE_STRENGTHS: [u64; 6] = [6, 5, 4, 3, 2, 1];

/// Sum of all strengths.
pub const TOTAL_STRENGTH: u64 = 21;

/// Strength of horse `id`; zero for an id that names no horse.
pub open spec fn strength_of(id: int) -> nat {
    if 0 <= id < NUM_HORSES {
        HORSE_STRENGTHS[id] as nat
    } else {
        0
    }
}

pub fn strength(id: u8) -> (s: u64)
    ensures
        s == strength_of(id as int),
{
    if (id as usize) < NUM_HORSES {
        HORSE_STRENGTHS[id as usize]
    } else {
        0
    }
}

/// Every horse has a strength between one and six.
pub proof fn lemma_strength_bounds(id: int)
    requires
        0 <= id < NUM_HORSES,
    ensures
        1 <= strength_of(id) <= 6,
        strength_of(id) == 6 - id,
{
    if id == 0 {
    } else if id == 1 {
    } else if id == 2 {
    } else if id == 3 {
    } else if id == 4 {
    } else {
        assert(id == 5);
    }
}

/// A horse's share of the total strength, in fixed point, rounded down.
pub open spec fn normalized_share(id: int) -> int {
    strength_of(id) * PRECISION / (TOTAL_STRENGTH as int)
}

/// The six shares, each rounded down on its own. They sum to a little less
/// than `PRECISION`, and nothing makes up the difference.
pub proof fn lemma_normalized_shares()
    ensures
        normalized_share(0) == 2857,
        normalized_share(1) == 2380,
        normalized_share(2) == 1904,
        normalized_share(3) == 1428,
        normalized_share(4) == 952,
        normalized_share(5) == 476,
        normalized_share(0) + normalized_share(1) + normalized_share(2) + normalized_share(3)
            + normalized_share(4) + normalized_share(5) == 9997,
{
    lemma_strength_bounds(0);
    lemma_strength_bounds(1);
    lemma_strength_bounds(2);
    lemma_strength_bounds(3);
    lemma_strength_bounds(4);
    lemma_strength_bounds(5);
}

/// A horse's base speed: fourteen plus its strength.
pub open spec fn base_speed_of(id: int) -> nat {
    14 + strength_of(id)
}

/// A horse's name, as bytes.
pub open spec fn horse_name(id: int) -> Seq<u8> {
    if id == 0 {
        "Thunder Bolt".spec_bytes()
    } else if id == 1 {
        "Silver Arrow".spec_bytes()
    } else if id == 2 {
        "Golden Star".spec_bytes()
    } else if id == 3 {
        "Dark Knight".spec_bytes()
    } else if id == 4 {
        "Wild Spirit".spec_bytes()
    } else if id == 5 {
        "Lucky Charm".spec_bytes()
    } else {
        Seq::empty()
    }
}

/// A horse and what the model derives from its strength.
#[derive(Debug, PartialEq, Eq)]
pub struct Horse {
    pub id: u8,
    pub name: Vec<u8>,
    pub strength: u64,
    /// Share of the total strength, scaled by `PRECISION`.
    pub normalized_strength: u64,
    pub base_speed: u64,
}

/// A horse as a mathematical value.
pub struct HorseView {
    pub id: u8,
    pub name: Seq<u8>,
    pub strength: u64,
    pub normalized_strength: u64,
    pub base_speed: u64,
}

impl View for Horse {
    type V = HorseView;

    open spec fn view(&self) -> HorseView {
        HorseView {
            id: self.id,
            name: self.name@,
            strength: self.strength,
            normalized_strength: self.normalized_strength,
            base_speed: self.base_speed,
        }
    }
}

impl Clone for Horse {
    fn clone(&self) -> (copy: Horse)
        ensures
            copy@ == self@,
    {
        Horse {
            id: self.id,
            name: self.name.clone(),
            strength: self.strength,
            normalized_strength: self.normalized_strength,
            base_speed: self.base_speed,
        }
    }
}

impl Default for Horse {
    fn default() -> (horse: Horse)
        ensures
            horse@ == (HorseView {
                id: 0,
                name: Seq::empty(),
                strength: 0,
                normalized_strength: 0,
                base_speed: 0,
            }),
    {
        Horse { id: 0, name: Vec::new(), strength: 0, normalized_strength: 0, base_speed: 0 }
    }
}

/// The horse with the given id, as the model defines it.
pub open spec fn horse_model(id: int) -> HorseView {
    HorseView {
        id: id as u8,
        name: horse_name(id),
        strength: strength_of(id) as u64,
        normalized_strength: normalized_share(id) as u64,
        base_speed: base_speed_of(id) as u64,
    }
}

/// The six horses of the model, by id.
pub open spec fn horse_models() -> Seq<HorseView> {
    Seq::new(NUM_HORSES as nat, |id: int| horse_model(id))
}

/// The views of a sequence of horses.
pub open spec fn horse_views(horses: Seq<Horse>) -> Seq<HorseView> {
    horses.map_values(|horse: Horse| horse@)
}

fn name_of(id: usize) -> (name: Vec<u8>)
    requires
        id < NUM_HORSES,
    ensures
        name@ == horse_name(id as int),
{
    let names: [&str; 6] = [
        "Thunder Bolt",
        "Silver Arrow",
        "Golden Star",
        "Dark Knight",
        "Wild Spirit",
        "Lucky Charm",
    ];
    names[id].as_bytes_vec()
}

/// Builds the six horses of the model.
pub fn initialize_horses() -> (horses: Vec<Horse>)
    ensures
        horse_views(horses@) == horse_models(),
{
    let mut horses: Vec<Horse> = Vec::new();
    let mut i: usize = 0;
    while i < NUM_HORSES
        invariant
            i <= NUM_HORSES,
            horses.len() == i,
            forall|j: int| 0 <= j < i ==> horses[j]@ == horse_model(j),
        decreases NUM_HORSES - i,
    {
        proof {
            lemma_strength_bounds(i as int);
        }
        let strength = HORSE_STRENGTHS[i];
        let normalized = (strength * PRECISION) / TOTAL_STRENGTH;
        let base_speed = 14 + strength;
        horses.push(
            Horse {
                id: i as u8,
                name: name_of(i),
                strength,
                normalized_strength: normalized,
                base_speed,
            },
        );
        i = i + 1;
    }
    assert(horse_views(horses@) =~= horse_models());
    horses
}

} // verus!
