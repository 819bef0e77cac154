//! Types of other crates that the library's values carry.

use vstd::prelude::*;

verus! {

#[verifier::external_type_specification]
#[verifier::external_body]
pub struct ExAnyhowError(anyhow::Error);

#[verifier::external_type_specification]
#[verifier::external_body]
pub struct ExWgpuDevice(wgpu::Device);

#[verifier::external_type_specification]
#[verifier::external_body]
pub struct ExWgpuQueue(wgpu::Queue);

#[verifier::external_type_specification]
#[verifier::external_body]
pub struct ExWgpuBuffer(wgpu::Buffer);

#[verifier::external_type_specification]
#[verifier::external_body]
pub struct ExWgpuBufferUsages(wgpu::BufferUsages);

#[verifier::external_type_specification]
#[verifier::external_body]
pub struct ExWgpuBufferSlice<'a>(wgpu::BufferSlice<'a>);

#[verifier::external_type_specification]
#[verifier::external_body]
pub struct ExWgpuBufferBinding<'a>(wgpu::BufferBinding<'a>);

#[verifier::external_type_specification]
#[verifier::external_body]
pub struct ExWgpuTexture(wgpu::Texture);

#[verifier::external_type_specification]
#[verifier::external_body]
pub struct ExWgpuShaderModule(wgpu::ShaderModule);

#[verifier::external_type_specification]
#[verifier::external_body]
pub struct ExWgpuSubmissionIndex(wgpu::SubmissionIndex);

} // verus!

verus! {

#[verifier::external_type_specification]
#[verifier::external_body]
pub struct ExWgpuAdapter(wgpu::Adapter);

#[verifier::external_type_specification]
#[verifier::external_body]
pub struct ExWgpuSurface<'window>(wgpu::Surface<'window>);

} // verus!
