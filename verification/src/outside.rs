//! The items of other crates that the map is built on, each with the contract
//! that the rest of the library relies on without proof.

use vstd::prelude::*;
use rltk::RandomNumberGenerator;
use rltk::SmallVec;
use specs::Entity;

verus! {

/// `rltk::RandomNumberGenerator`, the random stream that a level is drawn
/// from. Nothing is known of its state.
#[verifier::external_type_specification]
#[verifier::external_body]
pub struct ExRandomNumberGenerator(RandomNumberGenerator);

/// `specs::Entity`, the handle of an actor in the entity table. The map only
/// stores such handles and never looks into one.
#[verifier::external_type_specification]
#[verifier::external_body]
pub struct ExEntity(Entity);

/// The exits of one tile, held in the `SmallVec` of ten inline places that
/// `rltk`'s pathfinder takes them in. An entry is the index of a neighbour and
/// the cost of the step to it, in hundredths.
#[verifier::external_body]
pub struct ExitList {
    inner: SmallVec<[(usize, u32); 10]>,
}

/// What an [`ExitList`] holds, first pushed first.
pub uninterp spec fn exit_list(exits: ExitList) -> Seq<(usize, u32)>;

/// What `rltk::to_cp437` returns for a character: its number in code page
/// 437, or 0 where the page does not have it.
pub uninterp spec fn cp437(c: char) -> u16;

/// `rltk::to_cp437`. The result depends on the character alone; its table
/// gives 46 for the full stop and 35 for the hash.
#[verifier::external_body]
pub(crate) fn to_cp437(c: char) -> (glyph: u16)
    ensures
        glyph == cp437(c),
        c == '.' ==> glyph == 46,
        c == '#' ==> glyph == 35,
{
    rltk::to_cp437(c)
}

/// `RandomNumberGenerator::new`: a generator seeded from the system's entropy
/// or, failing that, from the clock. Nothing is claimed of it.
#[verifier::external_body]
pub(crate) fn new_generator() -> RandomNumberGenerator {
    RandomNumberGenerator::new()
}

/// `RandomNumberGenerator::range` on `i32`: some value from `min` up to, but
/// not including, `max`. It panics on an empty range, which `requires` leaves
/// out.
#[verifier::external_body]
pub(crate) fn random_in_range(rng: &mut RandomNumberGenerator, min: i32, max: i32) -> (value: i32)
    requires
        min < max,
    ensures
        min <= value < max,
{
    rng.range(min, max)
}

/// `RandomNumberGenerator::roll_dice`: the sum of `n` draws, each from 1 to
/// `die_type`. `requires` leaves out a die without faces, on which the draw
/// panics, and the sizes on which `die_type + 1` or the sum could overflow.
#[verifier::external_body]
pub(crate) fn roll_dice(rng: &mut RandomNumberGenerator, n: i32, die_type: i32) -> (total: i32)
    requires
        0 <= n,
        1 <= die_type < i32::MAX,
        n * die_type <= i32::MAX,
    ensures
        n <= total <= n * die_type,
{
    rng.roll_dice(n, die_type)
}

/// `SmallVec::new`: a list that holds nothing.
#[verifier::external_body]
pub(crate) fn empty_exits() -> (exits: ExitList)
    ensures
        exit_list(exits) == Seq::<(usize, u32)>::empty(),
{
    ExitList { inner: SmallVec::new() }
}

/// `SmallVec::push`: the entry is appended and the others stay as they are.
/// With fewer than ten entries held the list has room for one more without
/// growing.
#[verifier::external_body]
pub(crate) fn push_exit(exits: &mut ExitList, exit: (usize, u32))
    requires
        exit_list(*old(exits)).len() < 10,
    ensures
        exit_list(*final(exits)) == exit_list(*old(exits)).push(exit),
{
    exits.inner.push(exit)
}

/// The entries of the `SmallVec`, copied out in order by the `to_vec` of the
/// slice that it dereferences to.
#[verifier::external_body]
pub(crate) fn copy_exits(exits: &ExitList) -> (items: Vec<(usize, u32)>)
    ensures
        items@ == exit_list(*exits),
{
    exits.inner.to_vec()
}

} // verus!
