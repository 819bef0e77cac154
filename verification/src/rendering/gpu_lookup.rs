//! Looking up a GPU (a wgpu adapter) that can render to a surface.

use vstd::prelude::*;

verus! {

/// Why no GPU was found.
#[derive(Clone, Copy, PartialEq, Eq, Debug, Structural)]
pub enum GPULookupError {
    ThereIsNoGPU,
    GPUListNotInitialized,
}

impl GPULookupError {
    /// The message of the error.
    pub fn message(&self) -> (res: &'static str)
        ensures
            res@ == match self {
                GPULookupError::ThereIsNoGPU => "There is no GPU on this system"@,
                GPULookupError::GPUListNotInitialized => "List of GPUs not initialized yet"@,
            },
    {
        match self {
            GPULookupError::ThereIsNoGPU => "There is no GPU on this system",
            GPULookupError::GPUListNotInitialized => "List of GPUs not initialized yet",
        }
    }
}

/// Calls `wgpu::Adapter::is_surface_supported` with `surface` on each adapter
/// of `list`, in the list's order, and hands out the answers in that order.
/// Whether an adapter can present to the surface depends on the machine: of
/// the answers only their number is claimed.
#[verifier::external_body]
fn surface_support(list: &Vec<wgpu::Adapter>, surface: &wgpu::Surface<'_>) -> (res: Vec<bool>)
    ensures
        res@.len() == list@.len(),
{
    list.iter().map(|adapter| adapter.is_surface_supported(surface)).collect()
}

/// The position of the first `true`, if any.
pub fn first_supported(supported: &Vec<bool>) -> (res: Option<usize>)
    ensures
        match res {
            Some(i) => i < supported@.len() && supported@[i as int] && forall|j: int|
                0 <= j < i ==> !#[trigger] supported@[j],
            None => forall|j: int| 0 <= j < supported@.len() ==> !#[trigger] supported@[j],
        },
{
    let mut i: usize = 0;
    while i < supported.len()
        invariant
            i <= supported@.len(),
            forall|j: int| 0 <= j < i ==> !#[trigger] supported@[j],
        decreases supported@.len() - i,
    {
        if supported[i] {
            return Some(i);
        }
        i = i + 1;
    }
    None
}

/// The first index whose answer is `true`, if any.
pub open spec fn first_true(answers: Seq<bool>) -> Option<int> {
    if exists|i: int| 0 <= i < answers.len() && answers[i] {
        Some(choose|i: int| 0 <= i < answers.len() && answers[i] && forall|j: int| 0 <= j < i ==> !answers[j])
    } else {
        None
    }
}

/// The GPU of `list` picked by `answers` (whether each GPU, at the same
/// position, can present to the surface): the first one that can.
pub open spec fn picked_gpu(list: Seq<wgpu::Adapter>, answers: Seq<bool>) -> Result<wgpu::Adapter, GPULookupError> {
    match first_true(answers) {
        Some(i) => Ok(list[i]),
        None => Err(GPULookupError::ThereIsNoGPU),
    }
}

/// Picks from `list` the first GPU whose answer in `answers` (same positions)
/// is `true`; `ThereIsNoGPU` when none is.
pub fn pick_gpu<'a>(list: &'a Vec<wgpu::Adapter>, answers: &Vec<bool>) -> (res: Result<&'a wgpu::Adapter, GPULookupError>)
    requires
        answers@.len() == list@.len(),
    ensures
        match res {
            Ok(adapter) => picked_gpu(list@, answers@) == Ok::<wgpu::Adapter, GPULookupError>(*adapter),
            Err(e) => picked_gpu(list@, answers@) == Err::<wgpu::Adapter, GPULookupError>(e),
        },
{
    match first_supported(answers) {
        Some(i) => {
            proof {
                assert(forall|k: int| 0 <= k < i ==> !#[trigger] answers@[k]);
                let c = choose|k: int| 0 <= k < answers@.len() && answers@[k] && forall|j: int| 0 <= j < k ==> !answers@[j];
                assert(0 <= c < answers@.len() && answers@[c] && forall|j: int| 0 <= j < c ==> !answers@[j]);
                if c < i {
                    assert(!answers@[c]);
                } else if c > i {
                    assert(!answers@[i as int]);
                }
                assert(c == i);
            }
            Ok(&list[i])
        },
        None => Err(GPULookupError::ThereIsNoGPU),
    }
}

/// The first GPU of `gpus` (the list found at start, if it was looked up)
/// that can present to `compatible_with`. The whole list is asked, in order,
/// and `pick_gpu` picks from the answers.
pub fn find_gpu<'a>(gpus: Option<&'a Vec<wgpu::Adapter>>, compatible_with: &wgpu::Surface<'_>) -> (res:
    Result<&'a wgpu::Adapter, GPULookupError>)
    ensures
        gpus is None <==> res == Err::<&wgpu::Adapter, GPULookupError>(
            GPULookupError::GPUListNotInitialized,
        ),
        gpus matches Some(list) ==> exists|answers: Seq<bool>|
            #![trigger picked_gpu(list@, answers)]
            answers.len() == list@.len() && match res {
                Ok(adapter) => picked_gpu(list@, answers) == Ok::<wgpu::Adapter, GPULookupError>(*adapter),
                Err(e) => picked_gpu(list@, answers) == Err::<wgpu::Adapter, GPULookupError>(e),
            },
{
    match gpus {
        None => Err(GPULookupError::GPUListNotInitialized),
        Some(list) => {
            let answers = surface_support(list, compatible_with);
            pick_gpu(list, &answers)
        },
    }
}

} // verus!
