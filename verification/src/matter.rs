use vstd::prelude::*;

verus! {

/// The kinds of matter a quant (a particle of a planet) can be made of.
///
/// Each kind is known to the rest of the program by a numeric id: the id is
/// what a quant stores and what the table of material properties is keyed by.
#[derive(Clone, Copy, Debug, PartialEq, Eq, Structural)]
pub enum QuantType {
    Stone,
    Water,
}

/// The number of kinds of matter.
pub const QUANT_TYPE_COUNT: u32 = 2;

impl QuantType {
    /// The numeric id of a kind of matter: `Stone` is 0, `Water` is 1.
    pub open spec fn spec_id(self) -> u32 {
        match self {
            QuantType::Stone => 0,
            QuantType::Water => 1,
        }
    }

    /// The kind of matter with a given id, if there is one.
    pub open spec fn spec_from_id(id: u32) -> Option<QuantType> {
        if id == 0 {
            Some(QuantType::Stone)
        } else if id == 1 {
            Some(QuantType::Water)
        } else {
            None
        }
    }

    /// The numeric id of this kind of matter.
    pub fn id(&self) -> (id: u32)
        ensures
            id == self.spec_id(),
            *self == QuantType::Stone ==> id == 0,
            *self == QuantType::Water ==> id == 1,
    {
        match self {
            QuantType::Stone => 0,
            QuantType::Water => 1,
        }
    }

    /// The kind of matter with the given id; `None` for an id that names none.
    pub fn from_id(id: u32) -> (t: Option<QuantType>)
        ensures
            t == QuantType::spec_from_id(id),
            t is Some <==> id < QUANT_TYPE_COUNT,
            id == 0 ==> t == Some(QuantType::Stone),
            id == 1 ==> t == Some(QuantType::Water),
    {
        if id == 0 {
            Some(QuantType::Stone)
        } else if id == 1 {
            Some(QuantType::Water)
        } else {
            None
        }
    }
}

/// Every kind of matter is found again from its id.
pub proof fn lemma_id_round_trip(t: QuantType)
    ensures
        QuantType::spec_from_id(t.spec_id()) == Some(t),
        t.spec_id() < QUANT_TYPE_COUNT,
{
}

/// An id that names a kind of matter is that kind's id.
pub proof fn lemma_from_id_inverse(id: u32)
    ensures
        QuantType::spec_from_id(id) matches Some(t) ==> t.spec_id() == id,
{
}

/// Two kinds of matter with the same id are the same kind.
pub proof fn lemma_id_injective(a: QuantType, b: QuantType)
    ensures
        a.spec_id() == b.spec_id() <==> a == b,
{
}

/// The matter a new planet is made of, in the order in which a random draw
/// indexes it.
pub open spec fn spec_base_matter() -> Seq<QuantType> {
    seq![QuantType::Stone, QuantType::Water]
}

/// The ids of the matter a new planet is made of, in draw order.
pub fn base_matter() -> (ids: Vec<u32>)
    ensures
        ids@ == spec_base_matter().map_values(|t: QuantType| t.spec_id()),
        ids@ == seq![0u32, 1u32],
{
    let ids = vec![QuantType::Stone.id(), QuantType::Water.id()];
    assert(ids@ =~= spec_base_matter().map_values(|t: QuantType| t.spec_id()));
    ids
}

/// Calls `fastrand::usize` on the range `0..bound`, which draws from the
/// thread's generator a number `r` with `0 <= r < bound` and panics on an empty
/// range. The contract claims only that bound on the result; which number comes
/// out rests on chance and is left unsaid.
#[verifier::external_body]
fn random_index(bound: usize) -> (r: usize)
    requires
        bound > 0,
    ensures
        r < bound,
{
    fastrand::usize(0..bound)
}

/// The id of the base matter at place `k` of the draw order.
pub fn base_matter_at(k: usize) -> (id: u32)
    requires
        k < spec_base_matter().len(),
    ensures
        id == spec_base_matter()[k as int].spec_id(),
        k == 0 ==> id == QuantType::Stone.spec_id() && id == 0,
        k == 1 ==> id == QuantType::Water.spec_id() && id == 1,
{
    let ids = base_matter();
    ids[k]
}

/// Draws the matter of one new quant: a place of the draw order picked at
/// random, and the id of the base matter there (`base_matter_at`). Whatever
/// the draw, the id is that of one of the kinds of base matter, so the table
/// of properties knows it.
pub fn random_base_matter() -> (id: u32)
    ensures
        exists|k: int| 0 <= k < spec_base_matter().len() && id == #[trigger] spec_base_matter()[k].spec_id(),
        QuantType::spec_from_id(id) is Some,
{
    let k = random_index(2);
    let id = base_matter_at(k);
    assert(id == spec_base_matter()[k as int].spec_id());
    id
}

/// Every kind of base matter is a kind the table of properties knows by its id.
pub proof fn lemma_base_matter_known(k: int)
    requires
        0 <= k < spec_base_matter().len(),
    ensures
        QuantType::spec_from_id(spec_base_matter()[k].spec_id()) == Some(spec_base_matter()[k]),
{
}

} // verus!
