//! Whether skinning has to fall back to uniform buffers.

use vstd::prelude::*;

verus! {

/// Whether a device with this limit forces skinning to use uniform buffers
/// and dynamic offsets: it does where storage buffers are not supported at
/// all.
pub open spec fn lacks_storage_buffers(max_storage_buffers_per_shader_stage: u32) -> bool {
    max_storage_buffers_per_shader_stage == 0
}

/// The answer for a device, given what was found before: once decided, the
/// answer stays, whatever limit is shown later.
pub open spec fn detected_mode(
    known: Option<bool>,
    max_storage_buffers_per_shader_stage: u32,
) -> bool {
    match known {
        Some(uniform) => uniform,
        None => lacks_storage_buffers(max_storage_buffers_per_shader_stage),
    }
}

/// Remembers whether skinning must use uniform buffers. The device is looked
/// at once; its limits are taken not to change while the process runs.
pub struct SkinCapability {
    known: Option<bool>,
}

impl View for SkinCapability {
    type V = Option<bool>;

    closed spec fn view(&self) -> Option<bool> {
        self.known
    }
}

impl SkinCapability {
    /// Nothing is known of the device yet.
    pub fn new() -> (capability: SkinCapability)
        ensures
            capability@ is None,
    {
        SkinCapability { known: None }
    }
}

impl Default for SkinCapability {
    fn default() -> (capability: SkinCapability)
        ensures
            capability@ is None,
    {
        SkinCapability::new()
    }
}

/// Returns true if skinning must use uniforms (and dynamic offsets) because
/// storage buffers aren't supported on the current platform.
///
/// The first call decides from the device's limit and remembers the answer;
/// every later call returns that answer and does not look at its argument.
pub fn skins_use_uniform_buffers(
    capability: &mut SkinCapability,
    max_storage_buffers_per_shader_stage: u32,
) -> (uniform: bool)
    ensures
        uniform == detected_mode(old(capability)@, max_storage_buffers_per_shader_stage),
        final(capability)@ == Some(uniform),
{
    match capability.known {
        Some(uniform) => uniform,
        None => {
            let uniform = max_storage_buffers_per_shader_stage == 0;
            capability.known = Some(uniform);
            uniform
        },
    }
}

/// The answers of successive calls that are shown the given limits, the
/// first of them with `known` remembered.
pub open spec fn successive_answers(known: Option<bool>, limits: Seq<u32>) -> Seq<bool>
    decreases limits.len(),
{
    if limits.len() == 0 {
        Seq::empty()
    } else {
        let first = detected_mode(known, limits.first());
        seq![first] + successive_answers(Some(first), limits.drop_first())
    }
}

/// Once the detector has answered, a later call gives the same answer,
/// whatever limit it is shown.
pub proof fn detection_is_idempotent(known: Option<bool>, first: u32, later: u32)
    ensures
        detected_mode(Some(detected_mode(known, first)), later) == detected_mode(known, first),
{
}

/// However often the detector is called and whatever limits it is shown,
/// every call gives the answer of the first.
pub proof fn every_detection_repeats_the_first(known: Option<bool>, limits: Seq<u32>, call: int)
    requires
        0 <= call < limits.len(),
    ensures
        successive_answers(known, limits).len() == limits.len(),
        successive_answers(known, limits)[call] == detected_mode(known, limits.first()),
    decreases limits.len(),
{
    lemma_answers_len(known, limits);
    if call > 0 {
        let first = detected_mode(known, limits.first());
        lemma_answers_len(Some(first), limits.drop_first());
        every_detection_repeats_the_first(Some(first), limits.drop_first(), call - 1);
    }
}

/// Each call gives one answer.
pub proof fn lemma_answers_len(known: Option<bool>, limits: Seq<u32>)
    ensures
        successive_answers(known, limits).len() == limits.len(),
    decreases limits.len(),
{
    if limits.len() > 0 {
        lemma_answers_len(Some(detected_mode(known, limits.first())), limits.drop_first());
    }
}

} // verus!
