use vstd::prelude::*;

pub mod drawable;
pub mod gpu_immediate;
pub mod id_map;
pub mod materials;
pub mod medium;
pub mod name_gen;
pub mod ray_trace_params;
pub mod rng;
pub mod sampler;
pub mod scene;
pub mod shader_error;
pub mod shader_list;
pub mod spectral_image;
pub mod spectrum;
pub mod std_range;
pub mod texture_list;
pub mod traversal_info;
pub mod viewport;

verus! {

} // verus!
