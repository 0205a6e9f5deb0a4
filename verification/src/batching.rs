//! Which skinned meshes must be kept out of automatic batching.

use bevy_ecs::entity::Entity;
use vstd::prelude::*;

verus! {

/// An entity as the batching gate sees it.
pub struct BatchingCandidate {
    /// The entity.
    pub entity: Entity,
    /// Whether the entity has a skinned mesh.
    pub skinned: bool,
    /// Whether the entity is exempt from automatic batching already.
    pub no_automatic_batching: bool,
}

impl BatchingCandidate {
    /// A skinned mesh that is not exempt yet.
    pub open spec fn needs_exemption(self) -> bool {
        self.skinned && !self.no_automatic_batching
    }
}

/// The entities to exempt from automatic batching, in the order given: with
/// uniform buffers every skinned mesh that is not exempt yet, and otherwise
/// none.
pub open spec fn batching_exemptions(
    candidates: Seq<BatchingCandidate>,
    skins_use_uniform_buffers: bool,
) -> Seq<Entity> {
    if skins_use_uniform_buffers {
        candidates.filter(|c: BatchingCandidate| c.needs_exemption()).map_values(
            |c: BatchingCandidate| c.entity,
        )
    } else {
        Seq::empty()
    }
}

/// Lists the entities that must be marked exempt from automatic batching.
///
/// With uniform buffers the joints of every skinned mesh are bound at a
/// dynamic offset of its own, so its draw cannot be merged with others.
pub fn no_automatic_skin_batching(
    candidates: &Vec<BatchingCandidate>,
    skins_use_uniform_buffers: bool,
) -> (exempt: Vec<Entity>)
    ensures
        exempt@ == batching_exemptions(candidates@, skins_use_uniform_buffers),
{
    let mut exempt: Vec<Entity> = Vec::new();
    if !skins_use_uniform_buffers {
        return exempt;
    }
    let ghost needs = |c: BatchingCandidate| c.needs_exemption();
    let ghost entity = |c: BatchingCandidate| c.entity;
    let mut i: usize = 0;
    assert(candidates@.take(0) =~= Seq::<BatchingCandidate>::empty());
    while i < candidates.len()
        invariant
            i <= candidates@.len(),
            needs == (|c: BatchingCandidate| c.needs_exemption()),
            entity == (|c: BatchingCandidate| c.entity),
            exempt@ == candidates@.take(i as int).filter(needs).map_values(entity),
        decreases candidates@.len() - i,
    {
        let candidate = &candidates[i];
        proof {
            reveal(Seq::filter);
            assert(candidates@.take(i + 1).drop_last() =~= candidates@.take(i as int));
            assert(candidates@.take(i + 1).last() == candidates@[i as int]);
        }
        if candidate.skinned && !candidate.no_automatic_batching {
            exempt.push(candidate.entity);
            assert(exempt@ =~= candidates@.take(i + 1).filter(needs).map_values(entity));
        }
        i += 1;
    }
    assert(candidates@.take(i as int) =~= candidates@);
    exempt
}

} // verus!
