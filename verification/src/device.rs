//! Devices: the capability set derived from a backend snapshot.

use vstd::prelude::*;
use crate::extensions::joined;
use crate::extensions::named;
use crate::extensions::texts;
use crate::extensions::versioned;
use crate::format::FormatFlags;
use crate::format::FormatInfo;
use crate::format::FormatTable;
use crate::format::MEM_WRITE_ONLY;
use crate::format::build_format_table;
use crate::screen::CompilerOptions;
use crate::screen::ENDIAN_LITTLE;
use crate::screen::LoaderDeviceType;
use crate::screen::PlatformConfig;
use crate::screen::ScreenParams;
use crate::version::CLVersion;
use crate::version::NameVersion;
use crate::version::copy_range;
use crate::version::mk_cl_version;
use crate::version::parse_version;
use crate::version::spec_parse_version;

verus! {

/// Capabilities that other derived values build on.
#[derive(Clone, Copy, Debug)]
pub struct DeviceCaps {
    pub has_3d_image_writes: bool,
    pub has_images: bool,
    pub has_rw_images: bool,
    pub has_timestamp: bool,
    pub image_2d_size: u32,
    pub max_read_images: u32,
    pub max_write_images: u32,
    pub timer_resolution: u32,
}

/// One compute device and everything derived about it at discovery.
#[derive(Debug)]
pub struct Device {
    pub screen: ScreenParams,
    pub config: PlatformConfig,
    pub cl_version: CLVersion,
    pub clc_version: CLVersion,
    pub clc_versions: Vec<NameVersion>,
    pub custom: bool,
    pub embedded: bool,
    pub extension_string: String,
    pub extensions: Vec<NameVersion>,
    pub spirv_extensions: Vec<String>,
    pub clc_features: Vec<NameVersion>,
    pub formats: Vec<FormatFlags>,
    pub caps: DeviceCaps,
    /// Execution contexts kept for reuse, by token; the one returned last
    /// is taken first.
    pub reusable_ctx: Vec<u64>,
}

impl Device {
    /// The device rests on a usable backend snapshot, and where it has
    /// images the backend reports 1 to 32 levels for 3D textures.
    pub open spec fn wf(&self) -> bool {
        &&& self.screen.wf()
        &&& self.caps.has_images ==> 1 <= self.screen.caps.max_texture_3d_levels
    }

    /// Width of a device address in bits.
    pub fn address_bits(&self) -> (bits: u32)
        ensures
            bits == self.screen.compute.address_bits,
    {
        self.screen.compute.address_bits
    }

    /// The number of dimensions a launch may have at most.
    pub open spec fn spec_max_grid_dimensions(&self) -> u32 {
        self.screen.compute.grid_dimension as u32
    }

    /// The number of dimensions a launch may have at most.
    pub fn max_grid_dimensions(&self) -> (dims: u32)
        ensures
            dims == self.spec_max_grid_dimensions(),
    {
        #[verifier::truncate]
        (self.screen.compute.grid_dimension as u32)
    }

    /// The device shares the host's address space.
    pub open spec fn spec_svm_supported(&self) -> bool {
        self.screen.caps.system_svm == 1
    }

    /// The device shares the host's address space.
    pub fn svm_supported(&self) -> (b: bool)
        ensures
            b == self.spec_svm_supported(),
    {
        self.screen.caps.system_svm == 1
    }

    /// The largest work-group extent in each dimension.
    pub open spec fn spec_max_block_sizes(&self) -> Seq<usize> {
        self.screen.compute.max_block_size@.map_values(|v: u64| v as usize)
    }

    /// The largest work-group extent in each dimension.
    pub fn max_block_sizes(&self) -> (sizes: Vec<usize>)
        ensures
            sizes@ == self.spec_max_block_sizes(),
    {
        let mut sizes: Vec<usize> = Vec::new();
        let mut i: usize = 0;
        while i < self.screen.compute.max_block_size.len()
            invariant
                i <= self.screen.compute.max_block_size@.len(),
                sizes@ == self.screen.compute.max_block_size@.take(i as int).map_values(
                    |v: u64| v as usize,
                ),
            decreases self.screen.compute.max_block_size@.len() - i,
        {
            let v: u64 = self.screen.compute.max_block_size[i];
            sizes.push(
                #[verifier::truncate]
                (v as usize),
            );
            proof {
                let src = self.screen.compute.max_block_size@;
                assert(src.take(i + 1) == src.take(i as int).push(src[i as int]));
                assert(src.take(i + 1).map_values(|v: u64| v as usize) == src.take(
                    i as int,
                ).map_values(|v: u64| v as usize).push(src[i as int] as usize));
            }
            i += 1;
        }
        proof {
            let src = self.screen.compute.max_block_size@;
            assert(src.take(src.len() as int) == src);
        }
        sizes
    }
}

/// The devices found at startup; a device is known by its position here.
#[derive(Debug)]
pub struct Platform {
    pub devs: Vec<Device>,
}

impl Platform {
    /// Every device of the platform is well formed.
    pub open spec fn wf(&self) -> bool {
        forall|i: int| 0 <= i < self.devs@.len() ==> (#[trigger] self.devs@[i]).wf()
    }
}


/// The bits of a signed parameter read as an unsigned number.
pub open spec fn wrap_u32(x: i32) -> u32 {
    if x < 0 {
        (x + 0x1_0000_0000) as u32
    } else {
        x as u32
    }
}

/// The bits of a signed parameter, sign-extended, read as an unsigned number.
pub open spec fn wrap_u64(x: i32) -> u64 {
    if x < 0 {
        (x + 0x1_0000_0000_0000_0000) as u64
    } else {
        x as u64
    }
}

/// The bits of a signed parameter, sign-extended to the machine word, read
/// as an unsigned number.
pub open spec fn wrap_usize(x: i32) -> usize {
    if x < 0 {
        (x + usize::MAX + 1) as usize
    } else {
        x as usize
    }
}

/// Reads a signed parameter as an unsigned number.
pub fn as_u32(x: i32) -> (r: u32)
    ensures
        r == wrap_u32(x),
{
    if x < 0 {
        (x as i64 + 0x1_0000_0000) as u32
    } else {
        x as u32
    }
}

/// Reads a signed parameter, sign-extended, as an unsigned number.
pub fn as_u64(x: i32) -> (r: u64)
    ensures
        r == wrap_u64(x),
{
    if x < 0 {
        (x as i128 + 0x1_0000_0000_0000_0000) as u64
    } else {
        x as u64
    }
}

/// Reads a signed parameter, sign-extended to the machine word, as an
/// unsigned number.
pub fn as_usize(x: i32) -> (r: usize)
    ensures
        r == wrap_usize(x),
{
    if x < 0 {
        usize::MAX - ((-(x + 1)) as usize)
    } else {
        x as usize
    }
}

/// The smaller of two numbers.
pub open spec fn lesser(a: u64, b: u64) -> u64 {
    if a < b {
        a
    } else {
        b
    }
}

/// The smaller of two numbers.
pub fn least(a: u64, b: u64) -> (r: u64)
    ensures
        r == lesser(a, b),
{
    if a < b {
        a
    } else {
        b
    }
}

/// One kibibyte.
pub const KIB: u64 = 1024;

/// The largest size a pixel can have, in bytes.
pub const MAX_PIXEL_SIZE_BYTES: u64 = 16;

/// The largest allocation the backend is trusted with, in bytes.
pub const MAX_ALLOC_CEILING: u64 = 0x8000_0000;

/// The largest constant buffer that is advertised, in bytes.
pub const CONST_SIZE_CEILING: u64 = 0x400_0000;

/// The largest kernel parameter block that is advertised, in bytes.
pub const PARAM_SIZE_CEILING: u32 = 4096;

/// The size of the buffer that kernels print into, in bytes.
pub const PRINTF_BUFFER_SIZE: usize = 0x10_0000;

/// Device type: the platform's default device.
pub const DEVICE_TYPE_DEFAULT: u64 = 0x1;

/// Device type: a host processor.
pub const DEVICE_TYPE_CPU: u64 = 0x2;

/// Device type: a graphics processor.
pub const DEVICE_TYPE_GPU: u64 = 0x4;

/// Device type: a dedicated accelerator.
pub const DEVICE_TYPE_ACCELERATOR: u64 = 0x8;

/// Device type: a device below the minimum the standard asks of others.
pub const DEVICE_TYPE_CUSTOM: u64 = 0x10;

impl DeviceCaps {
    /// The capabilities that follow from the backend's parameters alone.
    ///
    /// Images need independent samplers, formatted stores, eight readable
    /// and eight writable images and 2D images of 2048 texels at least;
    /// without images the image limits are zero. Time is kept where the
    /// backend answers timestamp queries at a positive resolution.
    pub open spec fn spec_new(screen: &ScreenParams) -> DeviceCaps {
        let timer_resolution = wrap_u32(screen.caps.timer_resolution);
        let max_write_images = wrap_u32(screen.shader.max_shader_images);
        let max_read_images = wrap_u32(screen.shader.max_sampler_views);
        let image_2d_size = wrap_u32(screen.caps.max_texture_2d_size);
        let has_images = screen.caps.texture_sampler_independent != 0
            && screen.caps.image_store_formatted != 0 && max_read_images >= 8 && max_write_images
            >= 8 && image_2d_size >= 2048;
        DeviceCaps {
            has_3d_image_writes: false,
            has_images,
            has_rw_images: false,
            has_timestamp: screen.caps.query_timestamp != 0 && timer_resolution > 0,
            image_2d_size: if has_images {
                image_2d_size
            } else {
                0
            },
            max_read_images: if has_images {
                max_read_images
            } else {
                0
            },
            max_write_images: if has_images {
                max_write_images
            } else {
                0
            },
            timer_resolution,
        }
    }

    /// Derives the capabilities that follow from the backend's parameters alone.
    pub fn new(screen: &ScreenParams) -> (caps: DeviceCaps)
        ensures
            caps == Self::spec_new(screen),
    {
        let cap_timestamp = screen.caps.query_timestamp != 0;
        let timer_resolution = as_u32(screen.caps.timer_resolution);
        let max_write_images = as_u32(screen.shader.max_shader_images);
        let max_read_images = as_u32(screen.shader.max_sampler_views);
        let image_2d_size = as_u32(screen.caps.max_texture_2d_size);
        let has_images = screen.caps.texture_sampler_independent != 0
            && screen.caps.image_store_formatted != 0 && max_read_images >= 8 && max_write_images
            >= 8 && image_2d_size >= 2048;
        DeviceCaps {
            has_3d_image_writes: false,
            has_images,
            has_rw_images: false,
            has_timestamp: cap_timestamp && timer_resolution > 0,
            image_2d_size: if has_images {
                image_2d_size
            } else {
                0
            },
            max_read_images: if has_images {
                max_read_images
            } else {
                0
            },
            max_write_images: if has_images {
                max_write_images
            } else {
                0
            },
            timer_resolution,
        }
    }
}

impl Device {
    /// The backend can compute, takes the runtime's intermediate
    /// representation, and offers 128 bytes of kernel parameters at least.
    pub open spec fn spec_check_valid(screen: &ScreenParams) -> bool {
        &&& screen.caps.compute != 0
        &&& screen.shader.supported_irs & 4i32 != 0
        &&& wrap_u32(screen.shader.max_const_buffer0_size) >= 128
    }

    /// Tests [`Device::spec_check_valid`].
    pub fn check_valid(screen: &ScreenParams) -> (b: bool)
        ensures
            b == Self::spec_check_valid(screen),
    {
        if screen.caps.compute == 0 || screen.shader.supported_irs & 4i32 == 0 {
            return false;
        }
        if as_u32(screen.shader.max_const_buffer0_size) < 128 {
            return false;
        }
        true
    }

    /// The largest single allocation, in bytes.
    pub open spec fn spec_max_mem_alloc(&self) -> u64 {
        lesser(self.screen.compute.max_mem_alloc_size, MAX_ALLOC_CEILING)
    }

    /// The largest single allocation, in bytes.
    pub fn max_mem_alloc(&self) -> (n: u64)
        ensures
            n == self.spec_max_mem_alloc(),
    {
        least(self.screen.compute.max_mem_alloc_size, MAX_ALLOC_CEILING)
    }

    /// The size of global memory, in bytes: the backend's memory
    /// information where there is any (device memory, or staging memory if
    /// it reports no device memory), its compute parameter otherwise.
    pub open spec fn spec_global_mem_size(&self) -> u64 {
        match self.screen.memory_info {
            Some(info) => if info.total_device_memory != 0 {
                (info.total_device_memory * 1024) as u64
            } else {
                (info.total_staging_memory * 1024) as u64
            },
            None => self.screen.compute.max_global_size,
        }
    }

    /// The size of global memory, in bytes.
    pub fn global_mem_size(&self) -> (n: u64)
        ensures
            n == self.spec_global_mem_size(),
    {
        match self.screen.memory_info {
            Some(info) => {
                let memory: u64 = if info.total_device_memory != 0 {
                    info.total_device_memory as u64
                } else {
                    info.total_staging_memory as u64
                };
                memory * 1024
            },
            None => self.screen.compute.max_global_size,
        }
    }

    /// The largest block of kernel parameters, in bytes.
    pub open spec fn spec_param_max_size(&self) -> usize {
        if wrap_u32(self.screen.shader.max_const_buffer0_size) < PARAM_SIZE_CEILING {
            wrap_u32(self.screen.shader.max_const_buffer0_size) as usize
        } else {
            PARAM_SIZE_CEILING as usize
        }
    }

    /// The largest block of kernel parameters, in bytes.
    pub fn param_max_size(&self) -> (n: usize)
        ensures
            n == self.spec_param_max_size(),
    {
        let size = as_u32(self.screen.shader.max_const_buffer0_size);
        if size < PARAM_SIZE_CEILING {
            size as usize
        } else {
            PARAM_SIZE_CEILING as usize
        }
    }

    /// The largest constant buffer, in bytes.
    pub open spec fn spec_const_max_size(&self) -> u64 {
        lesser(
            CONST_SIZE_CEILING,
            lesser(self.spec_max_mem_alloc(), wrap_u64(self.screen.caps.max_shader_buffer_size)),
        )
    }

    /// The largest constant buffer, in bytes.
    pub fn const_max_size(&self) -> (n: u64)
        ensures
            n == self.spec_const_max_size(),
    {
        least(
            CONST_SIZE_CEILING,
            least(self.max_mem_alloc(), as_u64(self.screen.caps.max_shader_buffer_size)),
        )
    }

    /// The number of constant buffers a kernel can take.
    pub fn const_max_count(&self) -> (n: u32)
        ensures
            n == wrap_u32(self.screen.shader.max_const_buffers),
    {
        as_u32(self.screen.shader.max_const_buffers)
    }

    /// The size of local memory, in bytes.
    pub fn local_mem_size(&self) -> (n: u64)
        ensures
            n == self.screen.compute.max_local_size,
    {
        self.screen.compute.max_local_size
    }

    /// The number of samplers a kernel can use.
    pub fn max_samplers(&self) -> (n: u32)
        ensures
            n == wrap_u32(self.screen.shader.max_texture_samplers),
    {
        as_u32(self.screen.shader.max_texture_samplers)
    }

    /// 64-bit integers are native.
    pub fn int64_supported(&self) -> (b: bool)
        ensures
            b == (self.screen.caps.int64 == 1),
    {
        self.screen.caps.int64 == 1
    }

    /// The largest number of layers of an image array; zero without images.
    pub open spec fn spec_image_array_size(&self) -> usize {
        if self.caps.has_images {
            wrap_usize(self.screen.caps.max_texture_array_layers)
        } else {
            0
        }
    }

    /// The largest number of layers of an image array; zero without images.
    pub fn image_array_size(&self) -> (n: usize)
        ensures
            n == self.spec_image_array_size(),
    {
        if self.caps.has_images {
            as_usize(self.screen.caps.max_texture_array_layers)
        } else {
            0
        }
    }

    /// The largest number of pixels of an image made from a buffer; zero
    /// without images. It never exceeds what the largest allocation holds
    /// at the largest pixel size, nor the largest positive 32-bit integer.
    pub open spec fn spec_image_buffer_max_size_pixels(&self) -> usize {
        if self.caps.has_images {
            lesser(
                lesser(self.spec_max_mem_alloc() / MAX_PIXEL_SIZE_BYTES, 0x7fff_ffff),
                wrap_u64(self.screen.caps.max_texel_buffer_elements),
            ) as usize
        } else {
            0
        }
    }

    /// The largest number of pixels of an image made from a buffer.
    pub fn image_buffer_max_size_pixels(&self) -> (n: usize)
        ensures
            n == self.spec_image_buffer_max_size_pixels(),
    {
        if self.caps.has_images {
            least(
                least(self.max_mem_alloc() / MAX_PIXEL_SIZE_BYTES, 0x7fff_ffff),
                as_u64(self.screen.caps.max_texel_buffer_elements),
            ) as usize
        } else {
            0
        }
    }

    /// The device falls short of the full profile: with images, of one of
    /// its image minimums; in any case, when 64-bit integers are not native.
    pub open spec fn spec_check_embedded_profile(&self) -> bool {
        if self.caps.has_images && (wrap_u32(self.screen.shader.max_texture_samplers) < 16
            || self.caps.max_read_images < 128 || self.caps.max_write_images < 64
            || self.caps.image_2d_size < 16384 || self.spec_image_array_size() < 2048
            || self.spec_image_buffer_max_size_pixels() < 65536) {
            true
        } else {
            self.screen.caps.int64 != 1
        }
    }

    /// Tests [`Device::spec_check_embedded_profile`].
    pub fn check_embedded_profile(&self) -> (b: bool)
        ensures
            b == self.spec_check_embedded_profile(),
    {
        if self.caps.has_images {
            if self.max_samplers() < 16 || self.caps.max_read_images < 128
                || self.caps.max_write_images < 64 || self.caps.image_2d_size < 16384
                || self.image_array_size() < 2048 || self.image_buffer_max_size_pixels() < 65536 {
                return true;
            }
        }
        !self.int64_supported()
    }

    /// The smallest allocation limit a device that is not custom may have:
    /// a quarter of global memory, but no more than one gibibyte and no
    /// less than 32 mebibytes.
    pub open spec fn spec_alloc_floor(&self) -> u64 {
        let quarter = lesser(0x4000_0000, self.spec_global_mem_size() / 4);
        if quarter < 0x200_0000 {
            0x200_0000
        } else {
            quarter
        }
    }

    /// The device falls short of what the standard asks of any device that
    /// is not custom: of the allocation limit, of three dimensions, of 256
    /// bytes of parameters, or of the profile's minimum of constant memory
    /// (1 KiB embedded, 64 KiB full) or local memory (1 KiB embedded, 16 KiB full).
    pub open spec fn spec_check_custom(&self) -> bool {
        ||| self.spec_max_mem_alloc() < self.spec_alloc_floor()
        ||| self.spec_max_grid_dimensions() < 3
        ||| self.spec_param_max_size() < 256
        ||| self.spec_const_max_size() < (if self.embedded {
            1024u64
        } else {
            0x1_0000u64
        })
        ||| self.screen.compute.max_local_size < (if self.embedded {
            1024u64
        } else {
            0x4000u64
        })
    }

    /// Tests [`Device::spec_check_custom`].
    pub fn check_custom(&self) -> (b: bool)
        ensures
            b == self.spec_check_custom(),
    {
        let quarter = least(0x4000_0000, self.global_mem_size() / 4);
        let limit = if quarter < 0x200_0000 {
            0x200_0000
        } else {
            quarter
        };
        if self.max_mem_alloc() < limit {
            return true;
        }
        if self.max_grid_dimensions() < 3 {
            return true;
        }
        if self.embedded {
            if self.param_max_size() < 256 {
                return true;
            }
            if self.const_max_size() < 1024 {
                return true;
            }
            if self.local_mem_size() < 1024 {
                return true;
            }
        } else {
            if self.param_max_size() < 256 {
                return true;
            }
            if self.const_max_size() < 64 * 1024 {
                return true;
            }
            if self.local_mem_size() < 16 * 1024 {
                return true;
            }
        }
        false
    }
}


/// Where a device sits on the PCI bus.
#[derive(Clone, Copy, Debug, PartialEq, Eq, Structural)]
pub struct PciBusInfo {
    pub pci_domain: u32,
    pub pci_bus: u32,
    pub pci_device: u32,
    pub pci_function: u32,
}

/// The optional features of the kernel language that a device offers.
#[derive(Clone, Copy, Debug, PartialEq, Eq, Structural)]
pub struct OptionalFeatures {
    pub fp16: bool,
    pub fp64: bool,
    pub int64: bool,
    pub images: bool,
    pub images_read_write: bool,
    pub images_write_3d: bool,
    pub integer_dot_product: bool,
    pub subgroups: bool,
    pub subgroups_shuffle: bool,
    pub subgroups_shuffle_relative: bool,
}

/// The bytes of `accelerator`.
pub open spec fn word_accelerator() -> Seq<u8> {
    seq![97u8, 99u8, 99u8, 101u8, 108u8, 101u8, 114u8, 97u8, 116u8, 111u8, 114u8]
}

/// The bytes of `cpu`.
pub open spec fn word_cpu() -> Seq<u8> {
    seq![99u8, 112u8, 117u8]
}

/// The bytes of `custom`.
pub open spec fn word_custom() -> Seq<u8> {
    seq![99u8, 117u8, 115u8, 116u8, 111u8, 109u8]
}

/// The bytes of `gpu`.
pub open spec fn word_gpu() -> Seq<u8> {
    seq![103u8, 112u8, 117u8]
}

/// The bytes of `zink`.
pub open spec fn word_zink() -> Seq<char> {
    seq!['z', 'i', 'n', 'k']
}

/// A byte with an upper-case ASCII letter turned into lower case.
pub open spec fn lower(b: u8) -> u8 {
    if 65 <= b <= 90 {
        (b + 32) as u8
    } else {
        b
    }
}

/// `val` spells `word`, letter case aside.
pub open spec fn spells(val: Seq<u8>, word: Seq<u8>) -> bool {
    &&& val.len() == word.len()
    &&& forall|i: int| 0 <= i < val.len() ==> lower(#[trigger] val[i]) == word[i]
}

/// The device type that the text of an override names, letter case aside.
pub open spec fn spec_parse_device_type(val: Seq<u8>) -> Option<u64> {
    if spells(val, word_accelerator()) {
        Some(DEVICE_TYPE_ACCELERATOR)
    } else if spells(val, word_cpu()) {
        Some(DEVICE_TYPE_CPU)
    } else if spells(val, word_custom()) {
        Some(DEVICE_TYPE_CUSTOM)
    } else if spells(val, word_gpu()) {
        Some(DEVICE_TYPE_GPU)
    } else {
        None
    }
}

/// Tests [`spells`].
fn spells_word(val: &Vec<u8>, word: &[u8]) -> (b: bool)
    ensures
        b == spells(val@, word@),
{
    if val.len() != word.len() {
        return false;
    }
    let mut i: usize = 0;
    while i < val.len()
        invariant
            val@.len() == word@.len(),
            i <= val@.len(),
            forall|j: int| 0 <= j < i ==> lower(#[trigger] val@[j]) == word@[j],
        decreases val@.len() - i,
    {
        let b = val[i];
        let l = if 65 <= b && b <= 90 {
            b + 32
        } else {
            b
        };
        if l != word[i] {
            return false;
        }
        i += 1;
    }
    true
}

/// Reads the device type that the text of an override names.
pub fn parse_device_type(val: &Vec<u8>) -> (r: Option<u64>)
    ensures
        r == spec_parse_device_type(val@),
{
    let accelerator: [u8; 11] = [97, 99, 99, 101, 108, 101, 114, 97, 116, 111, 114];
    let cpu: [u8; 3] = [99, 112, 117];
    let custom: [u8; 6] = [99, 117, 115, 116, 111, 109];
    let gpu: [u8; 3] = [103, 112, 117];
    assert(accelerator@ =~= word_accelerator());
    assert(cpu@ =~= word_cpu());
    assert(custom@ =~= word_custom());
    assert(gpu@ =~= word_gpu());
    if spells_word(val, accelerator.as_slice()) {
        Some(DEVICE_TYPE_ACCELERATOR)
    } else if spells_word(val, cpu.as_slice()) {
        Some(DEVICE_TYPE_CPU)
    } else if spells_word(val, custom.as_slice()) {
        Some(DEVICE_TYPE_CUSTOM)
    } else if spells_word(val, gpu.as_slice()) {
        Some(DEVICE_TYPE_GPU)
    } else {
        None
    }
}

/// The sizes that a mask of subgroup sizes offers, largest first, looking
/// at the lowest `n` bits.
pub open spec fn sizes_in_mask(mask: u32, n: int) -> Seq<usize>
    decreases n,
{
    if n <= 0 {
        Seq::empty()
    } else if (mask >> ((n - 1) as u32)) & 1u32 == 1u32 {
        seq![(1usize << ((n - 1) as usize))] + sizes_in_mask(mask, n - 1)
    } else {
        sizes_in_mask(mask, n - 1)
    }
}

impl Device {
    /// The type of the device without regard to an override.
    ///
    /// A custom device is custom. Otherwise a software device is a CPU, a
    /// device on the PCI bus or the platform a GPU, anything else custom.
    /// Inside the runtime a GPU is also a default device, unless its driver
    /// is the one named `zink`.
    pub open spec fn spec_native_device_type(&self, internal: bool) -> u64 {
        if self.custom {
            DEVICE_TYPE_CUSTOM
        } else {
            match self.screen.device_type {
                LoaderDeviceType::Software => DEVICE_TYPE_CPU,
                LoaderDeviceType::Other => DEVICE_TYPE_CUSTOM,
                _ => if internal && self.screen.driver_name@ != word_zink() {
                    0x5u64
                } else {
                    DEVICE_TYPE_GPU
                },
            }
        }
    }

    /// The type of the device: what a readable override names, else the
    /// device's own type.
    pub open spec fn spec_device_type(&self, internal: bool) -> u64 {
        match self.config.device_type_override {
            Some(val) => match spec_parse_device_type(val@) {
                Some(t) => t,
                None => self.spec_native_device_type(internal),
            },
            None => self.spec_native_device_type(internal),
        }
    }

    /// The type of the device, as a set of type bits.
    pub fn device_type(&self, internal: bool) -> (t: u64)
        ensures
            t == self.spec_device_type(internal),
    {
        if let Some(val) = &self.config.device_type_override {
            if let Some(t) = parse_device_type(val) {
                return t;
            }
        }
        if self.custom {
            return DEVICE_TYPE_CUSTOM;
        }
        match self.screen.device_type {
            LoaderDeviceType::Software => DEVICE_TYPE_CPU,
            LoaderDeviceType::Other => DEVICE_TYPE_CUSTOM,
            _ => {
                proof {
                    reveal_strlit("zink");
                    assert("zink"@ =~= word_zink());
                }
                let zink = "zink".to_owned();
                if internal && self.screen.driver_name != zink {
                    0x5
                } else {
                    DEVICE_TYPE_GPU
                }
            },
        }
    }

    /// Half precision is switched on and native.
    pub fn fp16_supported(&self) -> (b: bool)
        ensures
            b == (self.config.fp16 && self.screen.shader.fp16 != 0),
    {
        if !self.config.fp16 {
            return false;
        }
        self.screen.shader.fp16 != 0
    }

    /// Double precision is switched on and offered by the backend.
    pub fn fp64_supported(&self) -> (b: bool)
        ensures
            b == (self.config.fp64 && self.screen.caps.doubles == 1),
    {
        if !self.config.fp64 {
            return false;
        }
        self.screen.caps.doubles == 1
    }

    /// The device is rendered in software.
    pub fn is_device_software(&self) -> (b: bool)
        ensures
            b == (self.screen.device_type == LoaderDeviceType::Software),
    {
        match self.screen.device_type {
            LoaderDeviceType::Software => true,
            _ => false,
        }
    }

    /// Objects can be shared with the graphics API: the backend offers the
    /// sharing and buffer export, the device is real hardware with a known
    /// identity, and resources and fences can be handed over.
    pub open spec fn spec_gl_sharing(&self) -> bool {
        &&& self.screen.caps.cl_gl_sharing != 0
        &&& self.screen.caps.dmabuf != 0
        &&& self.screen.device_type != LoaderDeviceType::Software
        &&& self.screen.res_handle_supported
        &&& self.screen.device_uuid is Some
        &&& self.screen.fence_fd_supported
    }

    /// Tests [`Device::spec_gl_sharing`].
    pub fn is_gl_sharing_supported(&self) -> (b: bool)
        ensures
            b == self.spec_gl_sharing(),
    {
        self.screen.caps.cl_gl_sharing != 0 && self.screen.caps.dmabuf != 0
            && !self.is_device_software() && self.screen.res_handle_supported
            && self.screen.device_uuid.is_some() && self.screen.fence_fd_supported
    }

    /// What the shader compiler can do natively for this device.
    pub fn get_nir_options(&self) -> (o: CompilerOptions)
        ensures
            o == self.screen.compiler,
    {
        self.screen.compiler
    }

    /// Signed 4x8-bit dot products are native.
    pub fn sdot_4x8_supported(&self) -> (b: bool)
        ensures
            b == self.screen.compiler.has_sdot_4x8,
    {
        self.get_nir_options().has_sdot_4x8
    }

    /// Unsigned 4x8-bit dot products are native.
    pub fn udot_4x8_supported(&self) -> (b: bool)
        ensures
            b == self.screen.compiler.has_udot_4x8,
    {
        self.get_nir_options().has_udot_4x8
    }

    /// Mixed-sign 4x8-bit dot products are native.
    pub fn sudot_4x8_supported(&self) -> (b: bool)
        ensures
            b == self.screen.compiler.has_sudot_4x8,
    {
        self.get_nir_options().has_sudot_4x8
    }

    /// Packing four bytes into a word is native.
    pub fn pack_32_4x8_supported(&self) -> (b: bool)
        ensures
            b == self.screen.compiler.has_pack_32_4x8,
    {
        self.get_nir_options().has_pack_32_4x8
    }

    /// Saturating signed 4x8-bit dot products are native.
    pub fn sdot_4x8_sat_supported(&self) -> (b: bool)
        ensures
            b == self.screen.compiler.has_sdot_4x8_sat,
    {
        self.get_nir_options().has_sdot_4x8_sat
    }

    /// Saturating unsigned 4x8-bit dot products are native.
    pub fn udot_4x8_sat_supported(&self) -> (b: bool)
        ensures
            b == self.screen.compiler.has_udot_4x8_sat,
    {
        self.get_nir_options().has_udot_4x8_sat
    }

    /// Saturating mixed-sign 4x8-bit dot products are native.
    pub fn sudot_4x8_sat_supported(&self) -> (b: bool)
        ensures
            b == self.screen.compiler.has_sudot_4x8_sat,
    {
        self.get_nir_options().has_sudot_4x8_sat
    }

    /// Double precision is emulated entirely in software.
    pub fn fp64_is_softfp(&self) -> (b: bool)
        ensures
            b == self.screen.compiler.fp64_full_software,
    {
        self.get_nir_options().fp64_full_software
    }

    /// The largest extent of a 3D image; zero without images.
    pub open spec fn spec_image_3d_size(&self) -> int {
        if self.caps.has_images {
            vstd::arithmetic::power2::pow2((self.screen.caps.max_texture_3d_levels - 1) as nat) as int
        } else {
            0
        }
    }

    /// The largest extent of a 3D image; zero without images.
    pub fn image_3d_size(&self) -> (n: usize)
        requires
            self.wf(),
        ensures
            n == self.spec_image_3d_size(),
    {
        if self.caps.has_images {
            let shift = (self.screen.caps.max_texture_3d_levels - 1) as usize;
            proof {
                vstd::arithmetic::power2::lemma2_to64();
                vstd::arithmetic::power2::lemma_pow2_strictly_increases(shift as nat, 32);
                vstd::arithmetic::power2::lemma_pow2_pos(shift as nat);
                if shift < 31 {
                    vstd::arithmetic::power2::lemma_pow2_strictly_increases(shift as nat, 31);
                }
                assert(vstd::arithmetic::power2::pow2(shift as nat) <= 0x8000_0000);
                assert(1 * vstd::arithmetic::power2::pow2(shift as nat) <= usize::MAX);
                vstd::bits::lemma_usize_shl_is_mul(1usize, shift);
            }
            1usize << shift
        } else {
            0
        }
    }

    /// 3D images exist.
    pub fn image_3d_supported(&self) -> (b: bool)
        ensures
            b == (self.caps.has_images && self.screen.caps.max_texture_3d_levels != 0),
    {
        self.caps.has_images && self.screen.caps.max_texture_3d_levels != 0
    }

    /// The row pitch alignment of images made from buffers; zero without images.
    pub open spec fn spec_image_pitch_alignment(&self) -> u32 {
        if self.caps.has_images {
            wrap_u32(self.screen.caps.linear_image_pitch_alignment)
        } else {
            0
        }
    }

    /// The row pitch alignment of images made from buffers; zero without images.
    pub fn image_pitch_alignment(&self) -> (n: u32)
        ensures
            n == self.spec_image_pitch_alignment(),
    {
        if self.caps.has_images {
            as_u32(self.screen.caps.linear_image_pitch_alignment)
        } else {
            0
        }
    }

    /// The base address alignment of images made from buffers; zero without images.
    pub open spec fn spec_image_base_address_alignment(&self) -> u32 {
        if self.caps.has_images {
            wrap_u32(self.screen.caps.linear_image_base_address_alignment)
        } else {
            0
        }
    }

    /// The base address alignment of images made from buffers; zero without images.
    pub fn image_base_address_alignment(&self) -> (n: u32)
        ensures
            n == self.spec_image_base_address_alignment(),
    {
        if self.caps.has_images {
            as_u32(self.screen.caps.linear_image_base_address_alignment)
        } else {
            0
        }
    }

    /// 2D images can be made from buffers: both alignments are known.
    pub open spec fn spec_image2d_from_buffer(&self) -> bool {
        self.spec_image_pitch_alignment() != 0 && self.spec_image_base_address_alignment() != 0
    }

    /// Tests [`Device::spec_image2d_from_buffer`].
    pub fn image2d_from_buffer_supported(&self) -> (b: bool)
        ensures
            b == self.spec_image2d_from_buffer(),
    {
        self.image_pitch_alignment() != 0 && self.image_base_address_alignment() != 0
    }

    /// The device stores the low byte first.
    pub fn little_endian(&self) -> (b: bool)
        ensures
            b == (self.screen.caps.endianness == ENDIAN_LITTLE),
    {
        let endianness = self.screen.caps.endianness;
        endianness == ENDIAN_LITTLE
    }

    /// The largest grid extent in each dimension, capped by the platform's setting.
    pub open spec fn spec_max_grid_size(&self) -> Seq<u64> {
        self.screen.compute.max_grid_size@.map_values(
            |a: u64| lesser(a, self.config.max_grid_size),
        )
    }

    /// The largest grid extent in each dimension.
    pub fn max_grid_size(&self) -> (sizes: Vec<u64>)
        ensures
            sizes@ == self.spec_max_grid_size(),
    {
        let mut sizes: Vec<u64> = Vec::new();
        let mut i: usize = 0;
        while i < self.screen.compute.max_grid_size.len()
            invariant
                i <= self.screen.compute.max_grid_size@.len(),
                sizes@ == self.screen.compute.max_grid_size@.take(i as int).map_values(
                    |a: u64| lesser(a, self.config.max_grid_size),
                ),
            decreases self.screen.compute.max_grid_size@.len() - i,
        {
            let a: u64 = self.screen.compute.max_grid_size[i];
            sizes.push(least(a, self.config.max_grid_size));
            proof {
                let src = self.screen.compute.max_grid_size@;
                assert(src.take(i + 1) == src.take(i as int).push(src[i as int]));
                assert(src.take(i + 1).map_values(|a: u64| lesser(a, self.config.max_grid_size))
                    == src.take(i as int).map_values(
                    |a: u64| lesser(a, self.config.max_grid_size),
                ).push(lesser(src[i as int], self.config.max_grid_size)));
            }
            i += 1;
        }
        proof {
            let src = self.screen.compute.max_grid_size@;
            assert(src.take(src.len() as int) == src);
        }
        sizes
    }

    /// The clock frequency, in megahertz.
    pub fn max_clock_freq(&self) -> (n: u32)
        ensures
            n == self.screen.compute.max_clock_frequency,
    {
        self.screen.compute.max_clock_frequency
    }

    /// The number of compute units.
    pub fn max_compute_units(&self) -> (n: u32)
        ensures
            n == self.screen.compute.max_compute_units,
    {
        self.screen.compute.max_compute_units
    }

    /// The largest work-group the device can run.
    pub fn max_threads_per_block(&self) -> (n: usize)
        ensures
            n == self.screen.compute.max_threads_per_block as usize,
    {
        #[verifier::truncate]
        (self.screen.compute.max_threads_per_block as usize)
    }

    /// The size of the buffer that kernels print into, in bytes.
    pub fn printf_buffer_size(&self) -> (n: usize)
        ensures
            n == PRINTF_BUFFER_SIZE,
    {
        PRINTF_BUFFER_SIZE
    }

    /// Where the device sits on the PCI bus, if it sits there.
    pub open spec fn spec_pci_info(&self) -> Option<PciBusInfo> {
        if self.screen.device_type == LoaderDeviceType::Pci {
            Some(
                PciBusInfo {
                    pci_domain: wrap_u32(self.screen.caps.pci_group),
                    pci_bus: wrap_u32(self.screen.caps.pci_bus),
                    pci_device: wrap_u32(self.screen.caps.pci_device),
                    pci_function: wrap_u32(self.screen.caps.pci_function),
                },
            )
        } else {
            None
        }
    }

    /// Where the device sits on the PCI bus, if it sits there.
    pub fn pci_info(&self) -> (r: Option<PciBusInfo>)
        ensures
            r == self.spec_pci_info(),
    {
        match self.screen.device_type {
            LoaderDeviceType::Pci => {},
            _ => {
                return None;
            },
        }
        let pci_domain = as_u32(self.screen.caps.pci_group);
        let pci_bus = as_u32(self.screen.caps.pci_bus);
        let pci_device = as_u32(self.screen.caps.pci_device);
        let pci_function = as_u32(self.screen.caps.pci_function);
        Some(PciBusInfo { pci_domain, pci_bus, pci_device, pci_function })
    }

    /// The backend snapshot the device was derived from.
    pub fn screen(&self) -> (s: &ScreenParams)
        ensures
            s == &self.screen,
    {
        &self.screen
    }

    /// The sizes of subgroups the device offers, largest first.
    pub open spec fn spec_subgroup_sizes(&self) -> Seq<usize> {
        sizes_in_mask(self.screen.compute.subgroup_sizes, 32)
    }

    /// The sizes of subgroups the device offers, largest first.
    pub fn subgroup_sizes(&self) -> (sizes: Vec<usize>)
        ensures
            sizes@ == self.spec_subgroup_sizes(),
    {
        let mask = self.screen.compute.subgroup_sizes;
        let mut sizes: Vec<usize> = Vec::new();
        let mut n: u32 = 32;
        while n > 0
            invariant
                n <= 32,
                mask == self.screen.compute.subgroup_sizes,
                sizes@ + sizes_in_mask(mask, n as int) == sizes_in_mask(mask, 32),
            decreases n,
        {
            let bit: u32 = n - 1;
            let ghost before = sizes@;
            if (mask >> bit) & 1u32 == 1u32 {
                sizes.push(1usize << (bit as usize));
                assert(sizes@ + sizes_in_mask(mask, n - 1) == before + sizes_in_mask(
                    mask,
                    n as int,
                ));
            }
            n = n - 1;
        }
        assert(sizes@ + Seq::<usize>::empty() == sizes@);
        sizes
    }

    /// The largest number of subgroups in a work-group.
    pub fn max_subgroups(&self) -> (n: u32)
        ensures
            n == self.screen.compute.max_subgroups,
    {
        self.screen.compute.max_subgroups
    }

    /// Shaders can be shared between execution contexts.
    pub fn shareable_shaders(&self) -> (b: bool)
        ensures
            b == (self.screen.caps.shareable_shaders == 1),
    {
        self.screen.caps.shareable_shaders == 1
    }

    /// Subgroups are offered: the device can run some, and it has a single
    /// subgroup size, or several and shaders that can be shared.
    pub open spec fn spec_subgroups_supported(&self) -> bool {
        let sizes = self.spec_subgroup_sizes().len();
        self.screen.compute.max_subgroups > 0 && (sizes == 1 || (sizes > 1
            && self.screen.caps.shareable_shaders == 1))
    }

    /// Tests [`Device::spec_subgroups_supported`].
    pub fn subgroups_supported(&self) -> (b: bool)
        ensures
            b == self.spec_subgroups_supported(),
    {
        let subgroup_sizes = self.subgroup_sizes().len();
        self.max_subgroups() > 0 && (subgroup_sizes == 1 || (subgroup_sizes > 1
            && self.shareable_shaders()))
    }

    /// Host and device share one memory.
    pub fn unified_memory(&self) -> (b: bool)
        ensures
            b == (self.screen.caps.uma == 1),
    {
        self.screen.caps.uma == 1
    }

    /// The vendor's identifier; zero where the backend has none.
    pub fn vendor_id(&self) -> (id: u32)
        ensures
            id == (if self.screen.caps.vendor_id == -1 {
                0
            } else {
                wrap_u32(self.screen.caps.vendor_id)
            }),
    {
        let id = self.screen.caps.vendor_id;
        if id == -1 {
            return 0;
        }
        as_u32(id)
    }

    /// The backend wants kernel parameters in a real buffer.
    pub fn prefers_real_buffer_in_cb0(&self) -> (b: bool)
        ensures
            b == (self.screen.caps.prefer_real_buffer_in_constbuf0 == 1),
    {
        self.screen.caps.prefer_real_buffer_in_constbuf0 == 1
    }

    /// The backend takes images by reference.
    pub fn images_as_deref(&self) -> (b: bool)
        ensures
            b == (self.screen.caps.nir_images_as_deref == 1),
    {
        self.screen.caps.nir_images_as_deref == 1
    }

    /// The backend takes samplers by reference.
    pub fn samplers_as_deref(&self) -> (b: bool)
        ensures
            b == (self.screen.caps.nir_samplers_as_deref == 1),
    {
        self.screen.caps.nir_samplers_as_deref == 1
    }

    /// The optional features of the kernel language on this device.
    pub open spec fn spec_cl_features(&self) -> OptionalFeatures {
        OptionalFeatures {
            fp16: self.config.fp16 && self.screen.shader.fp16 != 0,
            fp64: self.config.fp64 && self.screen.caps.doubles == 1,
            int64: self.screen.caps.int64 == 1,
            images: self.caps.has_images,
            images_read_write: self.caps.has_rw_images,
            images_write_3d: self.caps.has_3d_image_writes,
            integer_dot_product: true,
            subgroups: self.spec_subgroups_supported(),
            subgroups_shuffle: self.spec_subgroups_supported(),
            subgroups_shuffle_relative: self.spec_subgroups_supported(),
        }
    }

    /// The optional features of the kernel language on this device.
    pub fn cl_features(&self) -> (f: OptionalFeatures)
        ensures
            f == self.spec_cl_features(),
    {
        let subgroups_supported = self.subgroups_supported();
        OptionalFeatures {
            fp16: self.fp16_supported(),
            fp64: self.fp64_supported(),
            int64: self.int64_supported(),
            images: self.caps.has_images,
            images_read_write: self.caps.has_rw_images,
            images_write_3d: self.caps.has_3d_image_writes,
            integer_dot_product: true,
            subgroups: subgroups_supported,
            subgroups_shuffle: subgroups_supported,
            subgroups_shuffle_relative: subgroups_supported,
        }
    }
}


/// What is known of one screen when devices are discovered.
#[derive(Debug)]
pub struct ScreenProbe {
    pub screen: ScreenParams,
    /// The backend could create an execution context.
    pub context_created: bool,
    /// The kernel library could be loaded.
    pub library_loaded: bool,
}

/// Every format required on the embedded profile can be written on 2D
/// image arrays.
pub open spec fn spec_array_writes(formats: Seq<FormatFlags>, infos: Seq<FormatInfo>) -> bool {
    forall|f: int|
        0 <= f < infos.len() && (#[trigger] infos[f]).req_for_embeded_read_or_write
            ==> formats[f].flags@[4]->0 & MEM_WRITE_ONLY != 0
}

/// The table has a row of six entries for each known format, and offers
/// every format for 2D image arrays.
pub open spec fn rows_for(formats: Seq<FormatFlags>, infos: Seq<FormatInfo>) -> bool {
    &&& formats.len() == infos.len()
    &&& forall|f: int|
        0 <= f < formats.len() ==> (#[trigger] formats[f]).flags@.len() == 6
            && formats[f].flags@[4] is Some
}

/// The versioned name of the kernel language at `major.minor`.
pub open spec fn language_version(major: u32, minor: u32) -> (u32, Seq<char>) {
    versioned(major, minor, 0, "OpenCL C"@)
}

/// The versions of the kernel language a device of revision `v` takes,
/// latest first.
pub open spec fn spec_language_versions(v: CLVersion) -> Seq<(u32, Seq<char>)> {
    let a = if v.rank() >= CLVersion::Cl3_0.rank() {
        seq![language_version(3, 0)]
    } else {
        Seq::empty()
    };
    let b = if v.rank() >= CLVersion::Cl1_2.rank() {
        a.push(language_version(1, 2))
    } else {
        a
    };
    let c = if v.rank() >= CLVersion::Cl1_1.rank() {
        b.push(language_version(1, 1))
    } else {
        b
    };
    c.push(language_version(1, 0))
}

impl Device {
    /// The device advertises the extension `name`.
    pub open spec fn has_extension(&self, name: Seq<char>) -> bool {
        exists|i: int| 0 <= i < self.extensions@.len() && (#[trigger] self.extensions@[i]).name@ == name
    }

    /// Tests [`Device::has_extension`].
    pub fn advertises(&self, name: &str) -> (b: bool)
        ensures
            b == self.has_extension(name@),
    {
        let wanted = name.to_owned();
        let mut i: usize = 0;
        while i < self.extensions.len()
            invariant
                i <= self.extensions@.len(),
                wanted@ == name@,
                forall|j: int| 0 <= j < i ==> (#[trigger] self.extensions@[j]).name@ != name@,
            decreases self.extensions@.len() - i,
        {
            if self.extensions[i].name == wanted {
                return true;
            }
            i += 1;
        }
        false
    }

    /// The revision the device conforms to, without regard to an override.
    ///
    /// It is the latest revision, unless the device falls short of it: an
    /// embedded device with images needs 3D images of 2048 texels and
    /// writable image arrays, or it is 1.2; a device with images needs
    /// arrays of 256 layers and buffer images of 2048 pixels, and any
    /// device a print buffer of its profile's size, or it is 1.1; and
    /// without the byte store and the four 32-bit atomics extensions, 1 KiB
    /// of parameters and 32 KiB of local memory it is 1.0.
    pub open spec fn spec_derived_version(&self, infos: Seq<FormatInfo>) -> CLVersion {
        if !self.has_extension("cl_khr_byte_addressable_store"@) || !self.has_extension(
            "cl_khr_global_int32_base_atomics"@,
        ) || !self.has_extension("cl_khr_global_int32_extended_atomics"@) || !self.has_extension(
            "cl_khr_local_int32_base_atomics"@,
        ) || !self.has_extension("cl_khr_local_int32_extended_atomics"@)
            || self.spec_param_max_size() < 1024 || self.screen.compute.max_local_size < 0x8000 {
            CLVersion::Cl1_0
        } else if PRINTF_BUFFER_SIZE < (if self.embedded {
            1024usize
        } else {
            0x10_0000usize
        }) {
            CLVersion::Cl1_1
        } else if self.caps.has_images && (self.spec_image_array_size() < 256
            || self.spec_image_buffer_max_size_pixels() < 2048) {
            CLVersion::Cl1_1
        } else if self.embedded && self.caps.has_images && (self.spec_image_3d_size() < 2048
            || !spec_array_writes(self.formats@, infos)) {
            CLVersion::Cl1_2
        } else {
            CLVersion::Cl3_0
        }
    }

    /// The revision the device conforms to: what a readable override
    /// names, else the derived revision.
    pub open spec fn spec_version(&self, infos: Seq<FormatInfo>) -> CLVersion {
        match self.config.version_override {
            Some(text) => match spec_parse_version(text@) {
                Some(v) => v,
                None => self.spec_derived_version(infos),
            },
            None => self.spec_derived_version(infos),
        }
    }

    /// Whether every format required on the embedded profile can be
    /// written on 2D image arrays.
    fn supports_array_writes(&self, infos: &Vec<FormatInfo>) -> (b: bool)
        requires
            rows_for(self.formats@, infos@),
        ensures
            b == spec_array_writes(self.formats@, infos@),
    {
        let mut f: usize = 0;
        while f < infos.len()
            invariant
                f <= infos@.len(),
                rows_for(self.formats@, infos@),
                forall|g: int|
                    0 <= g < f && (#[trigger] infos@[g]).req_for_embeded_read_or_write
                        ==> self.formats@[g].flags@[4]->0 & MEM_WRITE_ONLY != 0,
            decreases infos@.len() - f,
        {
            if infos[f].req_for_embeded_read_or_write {
                assert(self.formats@[f as int].flags@.len() == 6);
                let m = match self.formats[f].flags[4] {
                    Some(m) => m,
                    None => 0,
                };
                if m & MEM_WRITE_ONLY == 0 {
                    return false;
                }
            }
            f += 1;
        }
        true
    }

    /// Settles the revision the device conforms to and the versions of the
    /// kernel language that go with it; the language itself stops at 1.2.
    pub fn check_version(&mut self, infos: &Vec<FormatInfo>)
        requires
            old(self).wf(),
            old(self).caps.has_images ==> rows_for(old(self).formats@, infos@),
        ensures
            final(self).cl_version == old(self).spec_version(infos@),
            final(self).clc_version == (if final(self).cl_version.rank() <= CLVersion::Cl1_2.rank() {
                final(self).cl_version
            } else {
                CLVersion::Cl1_2
            }),
            named(final(self).clc_versions@) == named(
                old(self).clc_versions@,
            ) + spec_language_versions(final(self).cl_version),
            final(self).screen == old(self).screen,
            final(self).config == old(self).config,
            final(self).caps == old(self).caps,
            final(self).custom == old(self).custom,
            final(self).embedded == old(self).embedded,
            final(self).formats == old(self).formats,
            final(self).reusable_ctx == old(self).reusable_ctx,
            final(self).extensions == old(self).extensions,
            final(self).extension_string == old(self).extension_string,
            final(self).spirv_extensions == old(self).spirv_extensions,
            final(self).clc_features == old(self).clc_features,
    {
        let mut res = CLVersion::Cl3_0;
        if self.embedded {
            if self.caps.has_images {
                let supports_array_writes = self.supports_array_writes(infos);
                if self.image_3d_size() < 2048 || !supports_array_writes {
                    res = CLVersion::Cl1_2;
                }
            }
        }
        if self.caps.has_images {
            if self.image_array_size() < 256 || self.image_buffer_max_size_pixels() < 2048 {
                res = CLVersion::Cl1_1;
            }
        }
        if self.embedded {
            if self.printf_buffer_size() < 1024 {
                res = CLVersion::Cl1_1;
            }
        } else {
            if self.printf_buffer_size() < 1024 * 1024 {
                res = CLVersion::Cl1_1;
            }
        }
        if !self.advertises("cl_khr_byte_addressable_store") || !self.advertises(
            "cl_khr_global_int32_base_atomics",
        ) || !self.advertises("cl_khr_global_int32_extended_atomics") || !self.advertises(
            "cl_khr_local_int32_base_atomics",
        ) || !self.advertises("cl_khr_local_int32_extended_atomics") || self.param_max_size()
            < 1024 || self.local_mem_size() < 32 * 1024 {
            res = CLVersion::Cl1_0;
        }
        if let Some(text) = &self.config.version_override {
            if let Some(val) = parse_version(text) {
                res = val;
            }
        }
        let ghost before = named(self.clc_versions@);
        if res.at_least(CLVersion::Cl3_0) {
            self.push_language_version(3, 0);
        }
        if res.at_least(CLVersion::Cl1_2) {
            self.push_language_version(1, 2);
        }
        if res.at_least(CLVersion::Cl1_1) {
            self.push_language_version(1, 1);
        }
        if res.at_least(CLVersion::Cl1_0) {
            self.push_language_version(1, 0);
        }
        assert(named(self.clc_versions@) =~= before + spec_language_versions(res));
        self.cl_version = res;
        self.clc_version = CLVersion::Cl1_2.oldest(res);
    }

    /// Appends a version of the kernel language.
    fn push_language_version(&mut self, major: u32, minor: u32)
        requires
            major < 1024,
            minor < 1024,
        ensures
            named(final(self).clc_versions@) == named(
                old(self).clc_versions@,
            ).push(language_version(major, minor)),
            final(self).screen == old(self).screen,
            final(self).config == old(self).config,
            final(self).caps == old(self).caps,
            final(self).custom == old(self).custom,
            final(self).embedded == old(self).embedded,
            final(self).formats == old(self).formats,
            final(self).reusable_ctx == old(self).reusable_ctx,
            final(self).extensions == old(self).extensions,
            final(self).extension_string == old(self).extension_string,
            final(self).spirv_extensions == old(self).spirv_extensions,
            final(self).clc_features == old(self).clc_features,
            final(self).cl_version == old(self).cl_version,
            final(self).clc_version == old(self).clc_version,
    {
        let ghost before = self.clc_versions@;
        self.clc_versions.push(
            NameVersion {
                version: mk_cl_version(major, minor, 0),
                name: "OpenCL C".to_owned(),
            },
        );
        assert(named(self.clc_versions@) =~= named(
            before,
        ).push(language_version(major, minor)));
    }

    /// Derives the table of image formats and the two capabilities that
    /// come out of it. Without images there is no table.
    pub fn fill_format_tables(&mut self, infos: &Vec<FormatInfo>)
        ensures
            !old(self).caps.has_images ==> *final(self) == *old(self),
            old(self).caps.has_images ==> (FormatTable {
                formats: final(self).formats,
                has_3d_image_writes: final(self).caps.has_3d_image_writes,
                has_rw_images: final(self).caps.has_rw_images,
            }).derived_from(infos@, old(self).embedded, old(self).screen.caps.image_load_formatted != 0),
            final(self).caps == (DeviceCaps {
                has_3d_image_writes: final(self).caps.has_3d_image_writes,
                has_rw_images: final(self).caps.has_rw_images,
                ..old(self).caps
            }),
            final(self).screen == old(self).screen,
            final(self).config == old(self).config,
            final(self).reusable_ctx == old(self).reusable_ctx,
            final(self).custom == old(self).custom,
            final(self).embedded == old(self).embedded,
            final(self).extensions == old(self).extensions,
            final(self).extension_string == old(self).extension_string,
            final(self).spirv_extensions == old(self).spirv_extensions,
            final(self).clc_features == old(self).clc_features,
            final(self).cl_version == old(self).cl_version,
            final(self).clc_version == old(self).clc_version,
            final(self).clc_versions == old(self).clc_versions,
    {
        if !self.caps.has_images {
            return ;
        }
        let table = build_format_table(
            infos,
            self.embedded,
            self.screen.caps.image_load_formatted != 0,
        );
        self.caps.has_3d_image_writes = table.has_3d_image_writes;
        self.caps.has_rw_images = table.has_rw_images;
        self.formats = table.formats;
    }

    /// The device is what follows from its backend snapshot, the platform's
    /// settings and extensions, and the known formats.
    pub open spec fn derived(
        &self,
        infos: Seq<FormatInfo>,
        platform_extensions: Seq<(u32, Seq<char>)>,
    ) -> bool {
        &&& self.caps == (DeviceCaps {
            has_3d_image_writes: self.caps.has_3d_image_writes,
            has_rw_images: self.caps.has_rw_images,
            ..DeviceCaps::spec_new(&self.screen)
        })
        &&& self.embedded == self.spec_check_embedded_profile()
        &&& self.custom == self.spec_check_custom()
        &&& if self.caps.has_images {
            (FormatTable {
                formats: self.formats,
                has_3d_image_writes: self.caps.has_3d_image_writes,
                has_rw_images: self.caps.has_rw_images,
            }).derived_from(infos, self.embedded, self.screen.caps.image_load_formatted != 0)
        } else {
            &&& self.formats@.len() == 0
            &&& !self.caps.has_3d_image_writes
            &&& !self.caps.has_rw_images
        }
        &&& named(self.extensions@) == self.spec_extensions(platform_extensions)
        &&& named(self.clc_features@) == self.spec_features()
        &&& texts(self.spirv_extensions@) == Self::spec_spirv_extensions()
        &&& self.extension_string@ == joined(
            named(self.extensions@),
            self.extensions@.len() as int,
        )
        &&& self.cl_version == self.spec_version(infos)
        &&& self.clc_version == (if self.cl_version.rank() <= CLVersion::Cl1_2.rank() {
            self.cl_version
        } else {
            CLVersion::Cl1_2
        })
        &&& named(self.clc_versions@) == spec_language_versions(self.cl_version)
    }

    /// Derives a device from what the backend reports.
    ///
    /// There is no device where the backend cannot serve the runtime at
    /// all, where no execution context could be created, or where the
    /// kernel library is missing. Otherwise the capabilities are derived in
    /// the order in which they build on each other: images, the profile,
    /// the custom classification, the format table with 3D writes and
    /// read-write images, the extensions, and last the revision.
    pub fn new(
        screen: ScreenParams,
        config: PlatformConfig,
        infos: &Vec<FormatInfo>,
        platform_extensions: &Vec<NameVersion>,
        context_created: bool,
        library_loaded: bool,
    ) -> (r: Option<Device>)
        requires
            screen.wf(),
            DeviceCaps::spec_new(&screen).has_images ==> 1 <= screen.caps.max_texture_3d_levels,
        ensures
            r is Some <==> Self::spec_check_valid(&screen) && context_created && library_loaded,
            r matches Some(d) ==> {
                &&& d.wf()
                &&& d.screen == screen
                &&& d.config == config
                &&& d.derived(infos@, named(platform_extensions@))
                &&& d.reusable_ctx@.len() == 0
            },
    {
        if !Self::check_valid(&screen) {
            return None;
        }
        if !context_created {
            return None;
        }
        if !library_loaded {
            return None;
        }
        let mut d = Device {
            caps: DeviceCaps::new(&screen),
            screen,
            config,
            cl_version: CLVersion::Cl3_0,
            clc_version: CLVersion::Cl3_0,
            clc_versions: Vec::new(),
            custom: false,
            embedded: false,
            extension_string: String::new(),
            extensions: Vec::new(),
            spirv_extensions: Vec::new(),
            clc_features: Vec::new(),
            formats: Vec::new(),
            reusable_ctx: Vec::new(),
        };
        d.embedded = d.check_embedded_profile();
        d.custom = d.check_custom();
        d.fill_format_tables(infos);
        d.fill_extensions(platform_extensions);
        assert(named(d.clc_versions@) =~= Seq::<(u32, Seq<char>)>::empty());
        d.check_version(infos);
        assert(Seq::<(u32, Seq<char>)>::empty() + spec_language_versions(d.cl_version)
            =~= spec_language_versions(d.cl_version));
        Some(d)
    }
}

impl PlatformConfig {
    /// A copy of the settings.
    pub fn duplicate(&self) -> (c: PlatformConfig)
        ensures
            c.fp16 == self.fp16,
            c.fp64 == self.fp64,
            c.max_grid_size == self.max_grid_size,
            c.reuse_context == self.reuse_context,
            c.device_type_override is Some == self.device_type_override is Some,
            c.device_type_override is Some ==> c.device_type_override->0@
                == self.device_type_override->0@,
            c.version_override is Some == self.version_override is Some,
            c.version_override is Some ==> c.version_override->0@ == self.version_override->0@,
    {
        PlatformConfig {
            fp16: self.fp16,
            fp64: self.fp64,
            max_grid_size: self.max_grid_size,
            reuse_context: self.reuse_context,
            device_type_override: match &self.device_type_override {
                Some(v) => Some(copy_range(v, 0, v.len())),
                None => None,
            },
            version_override: match &self.version_override {
                Some(v) => Some(copy_range(v, 0, v.len())),
                None => None,
            },
        }
    }
}

impl Device {
    /// Takes an execution context out of the pool. Where the pool is empty
    /// the caller has the backend create one.
    pub fn create_context(&mut self) -> (ctx: Option<u64>)
        ensures
            old(self).reusable_ctx@.len() == 0 ==> ctx is None && final(self).reusable_ctx@ == old(
                self,
            ).reusable_ctx@,
            old(self).reusable_ctx@.len() > 0 ==> ctx == Some(old(self).reusable_ctx@.last())
                && final(self).reusable_ctx@ == old(self).reusable_ctx@.drop_last(),
            final(self).screen == old(self).screen,
            final(self).config == old(self).config,
            final(self).caps == old(self).caps,
            final(self).custom == old(self).custom,
            final(self).embedded == old(self).embedded,
            final(self).formats == old(self).formats,
            final(self).extensions == old(self).extensions,
            final(self).extension_string == old(self).extension_string,
            final(self).spirv_extensions == old(self).spirv_extensions,
            final(self).clc_features == old(self).clc_features,
            final(self).cl_version == old(self).cl_version,
            final(self).clc_version == old(self).clc_version,
            final(self).clc_versions == old(self).clc_versions,
    {
        self.reusable_ctx.pop()
    }

    /// Returns an execution context after use. It is pooled where contexts
    /// are reused; otherwise it is handed back to be torn down.
    pub fn recycle_context(&mut self, ctx: u64) -> (discard: Option<u64>)
        ensures
            old(self).config.reuse_context ==> discard is None && final(self).reusable_ctx@ == old(
                self,
            ).reusable_ctx@.push(ctx),
            !old(self).config.reuse_context ==> discard == Some(ctx) && final(self).reusable_ctx@
                == old(self).reusable_ctx@,
            final(self).screen == old(self).screen,
            final(self).config == old(self).config,
            final(self).caps == old(self).caps,
            final(self).custom == old(self).custom,
            final(self).embedded == old(self).embedded,
            final(self).formats == old(self).formats,
            final(self).extensions == old(self).extensions,
            final(self).extension_string == old(self).extension_string,
            final(self).spirv_extensions == old(self).spirv_extensions,
            final(self).clc_features == old(self).clc_features,
            final(self).cl_version == old(self).cl_version,
            final(self).clc_version == old(self).clc_version,
            final(self).clc_versions == old(self).clc_versions,
    {
        if self.config.reuse_context {
            self.reusable_ctx.push(ctx);
            None
        } else {
            Some(ctx)
        }
    }
}

/// The positions, among the first `n` devices, of those whose type has a
/// bit in common with `device_type`.
pub open spec fn devs_of_type(devs: Seq<Device>, device_type: u64, n: int) -> Seq<usize>
    decreases n,
{
    if n <= 0 {
        Seq::empty()
    } else if device_type & devs[n - 1].spec_device_type(true) != 0 {
        devs_of_type(devs, device_type, n - 1).push((n - 1) as usize)
    } else {
        devs_of_type(devs, device_type, n - 1)
    }
}

/// The position of the first device with the identity `uuid` at or after
/// `from`, or the number of devices.
pub open spec fn dev_with_uuid(devs: Seq<Device>, uuid: Seq<u8>, from: int) -> int
    decreases devs.len() - from,
{
    if from < 0 || from >= devs.len() {
        devs.len() as int
    } else if devs[from].screen.device_uuid matches Some(id) && id@ == uuid {
        from
    } else {
        dev_with_uuid(devs, uuid, from + 1)
    }
}

/// Whether two identities are the same.
fn same_uuid(a: &[u8; 16], b: &[u8; 16]) -> (r: bool)
    ensures
        r == (a@ == b@),
{
    broadcast use vstd::array::array_len_matches_n;

    let mut i: usize = 0;
    while i < 16
        invariant
            i <= 16,
            a@.len() == 16,
            b@.len() == 16,
            forall|j: int| 0 <= j < i ==> a@[j] == b@[j],
        decreases 16 - i,
    {
        if a[i] != b[i] {
            return false;
        }
        i += 1;
    }
    assert(a@ =~= b@);
    true
}

/// A device can be derived from the probe.
pub open spec fn usable(probe: &ScreenProbe) -> bool {
    Device::spec_check_valid(&probe.screen) && probe.context_created && probe.library_loaded
}

/// The positions of the usable probes among the first `n`, in order.
pub open spec fn usable_probes(probes: Seq<ScreenProbe>, n: int) -> Seq<int>
    decreases n,
{
    if n <= 0 {
        Seq::empty()
    } else if usable(&probes[n - 1]) {
        usable_probes(probes, n - 1).push(n - 1)
    } else {
        usable_probes(probes, n - 1)
    }
}

impl Device {
    /// Derives a device from every screen that can serve as one, in order.
    pub fn all(
        probes: Vec<ScreenProbe>,
        config: &PlatformConfig,
        infos: &Vec<FormatInfo>,
        platform_extensions: &Vec<NameVersion>,
    ) -> (devs: Vec<Device>)
        requires
            forall|i: int|
                0 <= i < probes@.len() ==> (#[trigger] probes@[i]).screen.wf() && (
                DeviceCaps::spec_new(&probes@[i].screen).has_images ==> 1
                    <= probes@[i].screen.caps.max_texture_3d_levels),
        ensures
            devs@.len() == usable_probes(probes@, probes@.len() as int).len(),
            forall|i: int|
                0 <= i < devs@.len() ==> {
                    &&& (#[trigger] devs@[i]).wf()
                    &&& devs@[i].screen == probes@[usable_probes(
                        probes@,
                        probes@.len() as int,
                    )[i]].screen
                    &&& devs@[i].derived(infos@, named(platform_extensions@))
                    &&& devs@[i].reusable_ctx@.len() == 0
                },
    {
        let ghost all = probes@;
        let mut devs: Vec<Device> = Vec::new();
        let mut probes = probes;
        let mut done: usize = 0;
        assert(all.len() == probes.len());
        while probes.len() > 0
            invariant
                all.len() <= usize::MAX,
                done + probes@.len() == all.len(),
                probes@ == all.skip(done as int),
                forall|i: int|
                    0 <= i < all.len() ==> (#[trigger] all[i]).screen.wf() && (DeviceCaps::spec_new(
                        &all[i].screen,
                    ).has_images ==> 1 <= all[i].screen.caps.max_texture_3d_levels),
                devs@.len() == usable_probes(all, done as int).len(),
                forall|i: int|
                    0 <= i < devs@.len() ==> {
                        &&& (#[trigger] devs@[i]).wf()
                        &&& devs@[i].screen == all[usable_probes(all, done as int)[i]].screen
                        &&& devs@[i].derived(infos@, named(platform_extensions@))
                        &&& devs@[i].reusable_ctx@.len() == 0
                    },
            decreases probes@.len(),
        {
            let ghost before = devs@;
            assert(probes@[0] == all[done as int]);
            let probe = probes.remove(0);
            assert(probes@ == all.skip(done + 1));
            if let Some(d) = Device::new(
                probe.screen,
                config.duplicate(),
                infos,
                platform_extensions,
                probe.context_created,
                probe.library_loaded,
            ) {
                devs.push(d);
            }
            proof {
                assert forall|i: int| 0 <= i < devs@.len() implies {
                    &&& (#[trigger] devs@[i]).wf()
                    &&& devs@[i].screen == all[usable_probes(all, done + 1)[i]].screen
                    &&& devs@[i].derived(infos@, named(platform_extensions@))
                    &&& devs@[i].reusable_ctx@.len() == 0
                } by {
                    if i < before.len() {
                        assert(devs@[i] == before[i]);
                    }
                }
            }
            done += 1;
        }
        devs
    }

    /// The device at position `device` of the platform, if there is one.
    pub fn to_static(platform: &Platform, device: usize) -> (d: Option<&Device>)
        ensures
            device < platform.devs@.len() ==> d == Some(&platform.devs@[device as int]),
            device >= platform.devs@.len() ==> d is None,
    {
        if device < platform.devs.len() {
            Some(&platform.devs[device])
        } else {
            None
        }
    }
}

/// The devices of the platform.
pub fn devs(platform: &Platform) -> (d: &Vec<Device>)
    ensures
        d == &platform.devs,
{
    &platform.devs
}

/// The positions of the devices whose type has a bit in common with
/// `device_type`, in order.
pub fn get_devs_for_type(platform: &Platform, device_type: u64) -> (found: Vec<usize>)
    ensures
        found@ == devs_of_type(platform.devs@, device_type, platform.devs@.len() as int),
{
    let mut found: Vec<usize> = Vec::new();
    let mut i: usize = 0;
    while i < platform.devs.len()
        invariant
            i <= platform.devs@.len(),
            found@ == devs_of_type(platform.devs@, device_type, i as int),
        decreases platform.devs@.len() - i,
    {
        if device_type & platform.devs[i].device_type(true) != 0 {
            found.push(i);
        }
        i += 1;
    }
    found
}

/// The position of the first device with the identity `uuid`.
pub fn get_dev_for_uuid(platform: &Platform, uuid: &[u8; 16]) -> (r: Option<usize>)
    ensures
        match r {
            Some(i) => i < platform.devs@.len() && i == dev_with_uuid(platform.devs@, uuid@, 0),
            None => dev_with_uuid(platform.devs@, uuid@, 0) == platform.devs@.len(),
        },
{
    let mut i: usize = 0;
    while i < platform.devs.len()
        invariant
            i <= platform.devs@.len(),
            dev_with_uuid(platform.devs@, uuid@, 0) == dev_with_uuid(platform.devs@, uuid@, i as int),
        decreases platform.devs@.len() - i,
    {
        if let Some(id) = &platform.devs[i].screen.device_uuid {
            if same_uuid(id, uuid) {
                return Some(i);
            }
        }
        i += 1;
    }
    None
}

/// The derived capabilities build on each other: without images there
/// are neither 3D image writes nor read-write images, and read-write
/// images take formatted loads. The kernel language never goes beyond 1.2
/// nor beyond the device's revision.
pub proof fn lemma_capabilities_build_on_each_other(
    d: &Device,
    infos: Seq<FormatInfo>,
    platform_extensions: Seq<(u32, Seq<char>)>,
)
    requires
        d.derived(infos, platform_extensions),
    ensures
        d.caps.has_3d_image_writes ==> d.caps.has_images,
        d.caps.has_rw_images ==> d.caps.has_images && d.screen.caps.image_load_formatted != 0,
        d.caps.has_images ==> d.caps.image_2d_size >= 2048 && d.caps.max_read_images >= 8
            && d.caps.max_write_images >= 8,
        !d.caps.has_images ==> d.caps.image_2d_size == 0 && d.caps.max_read_images == 0
            && d.caps.max_write_images == 0,
        d.clc_version.rank() <= CLVersion::Cl1_2.rank(),
        d.clc_version.rank() <= d.cl_version.rank(),
{
}

} // verus!
