//! A skinned mesh as the packing step sees it.

use crate::matrix::{joint_times_bindpose, JointMatrix, JointTransform};
use bevy_ecs::entity::Entity;
use vstd::prelude::*;

verus! {

/// Maximum number of joints supported for skinned meshes.
///
/// The shader reads a joint binding as an array of this many matrices. The
/// value is chosen because it is guaranteed to work on every GPU.
pub const MAX_JOINTS: usize = 256;

/// The number of joints of a skin that are packed: all of them, but no more
/// than [`MAX_JOINTS`].
pub open spec fn clamped_joints(joint_count: nat) -> nat {
    if joint_count <= MAX_JOINTS {
        joint_count
    } else {
        MAX_JOINTS as nat
    }
}

/// Joint `j` can be paired with its inverse bind pose: the joint's transform
/// was found and the skin has a bind pose at that position.
pub open spec fn pair_resolves(
    joints: Seq<Option<JointTransform>>,
    bindposes: Seq<JointMatrix>,
    j: int,
) -> bool {
    0 <= j < joints.len() && j < bindposes.len() && joints[j] is Some
}

/// Every joint that is to be packed can be paired with its bind pose.
pub open spec fn all_pairs_resolve(
    joints: Seq<Option<JointTransform>>,
    bindposes: Seq<JointMatrix>,
) -> bool {
    forall|j: int| 0 <= j < clamped_joints(joints.len()) ==> pair_resolves(joints, bindposes, j)
}

/// The matrix packed for joint `j`: its world transform times its inverse
/// bind pose.
pub open spec fn pair_matrix(
    joints: Seq<Option<JointTransform>>,
    bindposes: Seq<JointMatrix>,
    j: int,
) -> Seq<u32> {
    joint_times_bindpose(joints[j]->0@, bindposes[j]@)
}

/// The matrices packed for a skin whose pairs all resolve, in joint order.
pub open spec fn skin_matrices(
    joints: Seq<Option<JointTransform>>,
    bindposes: Seq<JointMatrix>,
) -> Seq<Seq<u32>> {
    Seq::new(clamped_joints(joints.len()), |j: int| pair_matrix(joints, bindposes, j))
}

/// The matrices of those among the first `limit` joints that can be paired
/// with their bind pose, in joint order. A joint that cannot be paired is
/// passed over.
pub open spec fn resolved_matrices(
    joints: Seq<Option<JointTransform>>,
    bindposes: Seq<JointMatrix>,
    limit: nat,
) -> Seq<Seq<u32>>
    decreases limit,
{
    if limit == 0 {
        Seq::empty()
    } else {
        let before = resolved_matrices(joints, bindposes, (limit - 1) as nat);
        if pair_resolves(joints, bindposes, limit - 1) {
            before.push(pair_matrix(joints, bindposes, limit - 1))
        } else {
            before
        }
    }
}

/// Passing over a joint leaves fewer matrices than joints: the matrices are
/// as many as the joints exactly when every pair resolves, and then they are
/// the skin's matrices.
pub proof fn lemma_resolved_matrices(
    joints: Seq<Option<JointTransform>>,
    bindposes: Seq<JointMatrix>,
    limit: nat,
)
    ensures
        resolved_matrices(joints, bindposes, limit).len() <= limit,
        (resolved_matrices(joints, bindposes, limit).len() == limit) == (forall|j: int|
            0 <= j < limit ==> pair_resolves(joints, bindposes, j)),
        (forall|j: int| 0 <= j < limit ==> pair_resolves(joints, bindposes, j))
            ==> resolved_matrices(joints, bindposes, limit) == Seq::new(
            limit,
            |j: int| pair_matrix(joints, bindposes, j),
        ),
    decreases limit,
{
    if limit > 0 {
        lemma_resolved_matrices(joints, bindposes, (limit - 1) as nat);
        if forall|j: int| 0 <= j < limit ==> pair_resolves(joints, bindposes, j) {
            assert(resolved_matrices(joints, bindposes, limit) =~= Seq::new(
                limit,
                |j: int| pair_matrix(joints, bindposes, j),
            ));
        }
    } else {
        assert(resolved_matrices(joints, bindposes, limit) =~= Seq::new(
            limit,
            |j: int| pair_matrix(joints, bindposes, j),
        ));
    }
}

/// One skinned mesh of the scene, with what was looked up for it.
pub struct SkinInstance {
    /// The entity that carries the mesh.
    pub entity: Entity,
    /// Whether the mesh is visible in any view.
    pub visible: bool,
    /// The inverse bind poses of the skin, or `None` while that asset is not
    /// loaded.
    pub inverse_bindposes: Option<Vec<JointMatrix>>,
    /// The world transform of each joint of the skin in order, or `None` for
    /// a joint whose transform was not found.
    pub joints: Vec<Option<JointTransform>>,
}

impl SkinInstance {
    /// The number of joints that are packed for this mesh.
    pub open spec fn joint_count(&self) -> nat {
        clamped_joints(self.joints@.len())
    }

    /// Whether this mesh gets a place in the joint buffer: it is visible, its
    /// bind poses are loaded and each joint to be packed resolves with its
    /// bind pose.
    pub open spec fn packs(&self) -> bool {
        &&& self.visible
        &&& self.inverse_bindposes is Some
        &&& all_pairs_resolve(self.joints@, self.inverse_bindposes->0@)
    }

    /// The joint matrices of this mesh, for a mesh that packs.
    pub open spec fn matrices(&self) -> Seq<Seq<u32>> {
        skin_matrices(self.joints@, self.inverse_bindposes->0@)
    }
}

} // verus!
