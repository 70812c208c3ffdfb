//! A snapshot of what the compute backend reports about one device.
//!
//! The runtime never talks to the backend while it validates; it works from
//! the values gathered here once, at device discovery.

use vstd::prelude::*;

verus! {

/// How the backend's loader classifies the device.
#[derive(Clone, Copy, Debug, PartialEq, Eq, Structural)]
pub enum LoaderDeviceType {
    Software,
    Pci,
    Platform,
    Other,
}

/// The value the backend reports for "little endian".
pub const ENDIAN_LITTLE: i32 = 0;

/// The bit position of the intermediate representation the runtime emits
/// in the backend's set of supported representations.
pub const SHADER_IR_NIR: u32 = 2;

/// General screen parameters, as the signed integers the backend returns.
#[derive(Clone, Copy, Debug)]
pub struct PipeCaps {
    pub compute: i32,
    pub query_timestamp: i32,
    pub timer_resolution: i32,
    pub max_texture_2d_size: i32,
    pub texture_sampler_independent: i32,
    pub image_store_formatted: i32,
    pub image_load_formatted: i32,
    pub max_shader_buffer_size: i32,
    pub doubles: i32,
    pub cl_gl_sharing: i32,
    pub dmabuf: i32,
    pub int64: i32,
    pub max_texture_3d_levels: i32,
    pub max_texture_array_layers: i32,
    pub linear_image_pitch_alignment: i32,
    pub linear_image_base_address_alignment: i32,
    pub max_texel_buffer_elements: i32,
    pub endianness: i32,
    pub pci_group: i32,
    pub pci_bus: i32,
    pub pci_device: i32,
    pub pci_function: i32,
    pub system_svm: i32,
    pub uma: i32,
    pub vendor_id: i32,
    pub prefer_real_buffer_in_constbuf0: i32,
    pub shareable_shaders: i32,
    pub nir_images_as_deref: i32,
    pub nir_samplers_as_deref: i32,
}

/// Parameters of the compute shader stage.
#[derive(Clone, Copy, Debug)]
pub struct ShaderCaps {
    pub max_shader_images: i32,
    pub max_sampler_views: i32,
    pub supported_irs: i32,
    pub max_const_buffer0_size: i32,
    pub max_const_buffers: i32,
    pub fp16: i32,
    pub max_texture_samplers: i32,
}

/// Parameters of the compute engine.
#[derive(Debug)]
pub struct ComputeCaps {
    pub address_bits: u32,
    pub max_global_size: u64,
    pub max_local_size: u64,
    pub max_block_size: Vec<u64>,
    pub max_grid_size: Vec<u64>,
    pub max_clock_frequency: u32,
    pub max_compute_units: u32,
    pub grid_dimension: u64,
    pub max_mem_alloc_size: u64,
    pub max_threads_per_block: u64,
    pub subgroup_sizes: u32,
    pub max_subgroups: u32,
}

/// What the shader compiler can do natively for this device.
#[derive(Clone, Copy, Debug)]
pub struct CompilerOptions {
    pub has_sdot_4x8: bool,
    pub has_udot_4x8: bool,
    pub has_sudot_4x8: bool,
    pub has_pack_32_4x8: bool,
    pub has_sdot_4x8_sat: bool,
    pub has_udot_4x8_sat: bool,
    pub has_sudot_4x8_sat: bool,
    /// Double precision is emulated entirely in software.
    pub fp64_full_software: bool,
}

/// Memory sizes in kilobytes, where the backend can report them.
#[derive(Clone, Copy, Debug)]
pub struct MemoryInfo {
    pub total_device_memory: u32,
    pub total_staging_memory: u32,
}

/// Everything the backend reports about one device.
#[derive(Debug)]
pub struct ScreenParams {
    pub caps: PipeCaps,
    pub shader: ShaderCaps,
    pub compute: ComputeCaps,
    pub compiler: CompilerOptions,
    pub device_type: LoaderDeviceType,
    pub driver_name: String,
    pub memory_info: Option<MemoryInfo>,
    pub res_handle_supported: bool,
    pub device_uuid: Option<[u8; 16]>,
    pub driver_uuid: Option<[u8; 16]>,
    pub fence_fd_supported: bool,
}

/// Process-wide settings that influence what a device advertises.
#[derive(Debug)]
pub struct PlatformConfig {
    /// Half-precision support was switched on.
    pub fp16: bool,
    /// Double-precision support was switched on.
    pub fp64: bool,
    /// Upper bound applied to every reported grid size.
    pub max_grid_size: u64,
    /// Execution contexts are kept for reuse instead of being torn down.
    pub reuse_context: bool,
    /// Text of the device type override, if one is set.
    pub device_type_override: Option<Vec<u8>>,
    /// Text of the version override, if one is set.
    pub version_override: Option<Vec<u8>>,
}

impl ComputeCaps {
    /// The backend's side of the bargain: addresses are 1 to 64 bits wide,
    /// there are at most three grid dimensions, and a block size limit
    /// exists for each of them.
    pub open spec fn wf(&self) -> bool {
        &&& 1 <= self.address_bits <= 64
        &&& self.grid_dimension <= 3
        &&& self.max_block_size@.len() >= self.grid_dimension
    }

    /// Tests [`ComputeCaps::wf`].
    pub fn is_well_formed(&self) -> (b: bool)
        ensures
            b == self.wf(),
    {
        1 <= self.address_bits && self.address_bits <= 64 && self.grid_dimension <= 3
            && self.max_block_size.len() as u64 >= self.grid_dimension
    }
}

impl ScreenParams {
    /// The snapshot is usable: its compute parameters are well formed and
    /// 3D textures have no more than 32 levels.
    pub open spec fn wf(&self) -> bool {
        &&& self.compute.wf()
        &&& self.caps.max_texture_3d_levels <= 32
    }

    /// Tests [`ScreenParams::wf`].
    pub fn is_well_formed(&self) -> (b: bool)
        ensures
            b == self.wf(),
    {
        self.compute.is_well_formed() && self.caps.max_texture_3d_levels <= 32
    }
}

} // verus!
