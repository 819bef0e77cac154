//! Waiting for the GPU to finish submitted work.

use vstd::prelude::*;

verus! {

/// What polling the device for a submission answered.
#[derive(PartialEq, Eq, Debug, Structural)]
pub enum PollOutcome {
    /// No submission was in flight any more.
    QueueEmpty,
    /// The awaited submission completed.
    WaitSucceeded,
    /// The device was only polled, not waited on.
    Poll,
    /// The device reported an error (lost device, timeout).
    Failed,
}

/// Why waiting for the device did not succeed.
#[derive(PartialEq, Eq, Debug, Structural)]
pub enum WaitError {
    /// The device answered a wait as if it had been polled.
    NotWaited,
    /// The device reported an error.
    DeviceFailed,
}

/// Calls `wgpu::Device::poll` with a wait for `index` and no timeout, and
/// tells the answer's variants apart. Nothing is claimed of which answer
/// comes: that depends on the GPU.
#[verifier::external_body]
fn poll_wait(device: &wgpu::Device, index: wgpu::SubmissionIndex) -> (res: PollOutcome) {
    match device.poll(wgpu::PollType::Wait { submission_index: Some(index), timeout: None }) {
        Ok(wgpu::PollStatus::QueueEmpty) => PollOutcome::QueueEmpty,
        Ok(wgpu::PollStatus::WaitSucceeded) => PollOutcome::WaitSucceeded,
        Ok(wgpu::PollStatus::Poll) => PollOutcome::Poll,
        Err(_) => PollOutcome::Failed,
    }
}

/// How a wait ends, given what the device answered: it succeeds when the
/// submission is known to be done.
pub open spec fn wait_result_spec(outcome: PollOutcome) -> Result<(), WaitError> {
    match outcome {
        PollOutcome::QueueEmpty | PollOutcome::WaitSucceeded => Ok(()),
        PollOutcome::Poll => Err(WaitError::NotWaited),
        PollOutcome::Failed => Err(WaitError::DeviceFailed),
    }
}

/// How a wait ends, given what the device answered.
pub fn wait_result(outcome: PollOutcome) -> (res: Result<(), WaitError>)
    ensures
        res == wait_result_spec(outcome),
{
    match outcome {
        PollOutcome::QueueEmpty | PollOutcome::WaitSucceeded => Ok(()),
        PollOutcome::Poll => Err(WaitError::NotWaited),
        PollOutcome::Failed => Err(WaitError::DeviceFailed),
    }
}

/// Blocks until the submission `id` has completed on `device`. The result
/// depends on the device: it is `Ok` exactly when the device reports the
/// submission done.
pub fn wait_device(device: &wgpu::Device, id: wgpu::SubmissionIndex) -> (res: Result<(), WaitError>)
    ensures
        exists|outcome: PollOutcome| res == wait_result_spec(outcome),
{
    let outcome = poll_wait(device, id);
    wait_result(outcome)
}

} // verus!
