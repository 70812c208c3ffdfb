use compute_runtime::device::{
    as_u32, as_u64, as_usize, devs, get_dev_for_uuid, get_devs_for_type, parse_device_type,
    Device, DeviceCaps, PciBusInfo, Platform, ScreenProbe, DEVICE_TYPE_ACCELERATOR,
    DEVICE_TYPE_CPU, DEVICE_TYPE_CUSTOM, DEVICE_TYPE_DEFAULT, DEVICE_TYPE_GPU,
};
use compute_runtime::format::{
    build_format_table, granted_flags, FormatInfo, FormatSupport, ImageFormat, ImageType,
    MEM_KERNEL_READ_AND_WRITE, MEM_READ_ONLY, MEM_READ_WRITE, MEM_WRITE_ONLY,
};
use compute_runtime::screen::{
    CompilerOptions, ComputeCaps, LoaderDeviceType, MemoryInfo, PipeCaps, PlatformConfig,
    ScreenParams, ShaderCaps,
};
use compute_runtime::version::{mk_cl_version, parse_u32, parse_version, CLVersion, NameVersion};

fn screen() -> ScreenParams {
    ScreenParams {
        caps: PipeCaps {
            compute: 1,
            query_timestamp: 1,
            timer_resolution: 1,
            max_texture_2d_size: 16384,
            texture_sampler_independent: 1,
            image_store_formatted: 1,
            image_load_formatted: 1,
            max_shader_buffer_size: 1 << 27,
            doubles: 1,
            cl_gl_sharing: 1,
            dmabuf: 1,
            int64: 1,
            max_texture_3d_levels: 12,
            max_texture_array_layers: 2048,
            linear_image_pitch_alignment: 64,
            linear_image_base_address_alignment: 64,
            max_texel_buffer_elements: 1 << 27,
            endianness: 0,
            pci_group: 0,
            pci_bus: 1,
            pci_device: 2,
            pci_function: 3,
            system_svm: 1,
            uma: 1,
            vendor_id: 0x8086,
            prefer_real_buffer_in_constbuf0: 1,
            shareable_shaders: 1,
            nir_images_as_deref: 0,
            nir_samplers_as_deref: 1,
        },
        shader: ShaderCaps {
            max_shader_images: 64,
            max_sampler_views: 128,
            supported_irs: 4,
            max_const_buffer0_size: 4096,
            max_const_buffers: 16,
            fp16: 1,
            max_texture_samplers: 16,
        },
        compute: ComputeCaps {
            address_bits: 64,
            max_global_size: 1 << 33,
            max_local_size: 65536,
            max_block_size: vec![1024, 512, 64],
            max_grid_size: vec![65535, 70000, 3],
            max_clock_frequency: 1000,
            max_compute_units: 8,
            grid_dimension: 3,
            max_mem_alloc_size: 1 << 31,
            max_threads_per_block: 1024,
            subgroup_sizes: 8 | 32,
            max_subgroups: 16,
        },
        compiler: CompilerOptions {
            has_sdot_4x8: true,
            has_udot_4x8: false,
            has_sudot_4x8: true,
            has_pack_32_4x8: false,
            has_sdot_4x8_sat: true,
            has_udot_4x8_sat: false,
            has_sudot_4x8_sat: true,
            fp64_full_software: true,
        },
        device_type: LoaderDeviceType::Pci,
        driver_name: String::from("iris"),
        memory_info: None,
        res_handle_supported: true,
        device_uuid: Some([7; 16]),
        driver_uuid: Some([9; 16]),
        fence_fd_supported: true,
    }
}

fn config() -> PlatformConfig {
    PlatformConfig {
        fp16: true,
        fp64: true,
        max_grid_size: 65536,
        reuse_context: true,
        device_type_override: None,
        version_override: None,
    }
}

fn bare(screen: ScreenParams, config: PlatformConfig) -> Device {
    Device {
        caps: DeviceCaps::new(&screen),
        screen,
        config,
        cl_version: CLVersion::Cl3_0,
        clc_version: CLVersion::Cl1_2,
        clc_versions: Vec::new(),
        custom: false,
        embedded: false,
        extension_string: String::new(),
        extensions: Vec::new(),
        spirv_extensions: Vec::new(),
        clc_features: Vec::new(),
        formats: Vec::new(),
        reusable_ctx: Vec::new(),
    }
}

fn support(sample: bool, image: bool, both: bool) -> FormatSupport {
    FormatSupport { sampler_view: sample, shader_image: image, sampler_view_and_shader_image: both }
}

fn format(order: u32, data: u32, required: bool, srgb: bool, s: FormatSupport) -> FormatInfo {
    FormatInfo {
        format: ImageFormat { channel_order: order, channel_data_type: data },
        req_for_full_read_or_write: required,
        req_for_embeded_read_or_write: required,
        req_for_full_read_and_write: required,
        is_srgb: srgb,
        support: [s; 6],
    }
}

fn formats() -> Vec<FormatInfo> {
    vec![
        format(0x10B5, 0x10DA, true, false, support(true, true, true)),
        format(0x10B4, 0x10DE, false, false, support(true, true, true)),
        format(0x10BF, 0x10D2, false, true, support(true, true, true)),
    ]
}

fn platform_extensions() -> Vec<NameVersion> {
    vec![
        NameVersion {
            version: mk_cl_version(1, 0, 0),
            name: String::from("cl_khr_byte_addressable_store"),
        },
        NameVersion { version: mk_cl_version(1, 0, 0), name: String::from("cl_khr_icd") },
    ]
}

fn derive(screen: ScreenParams, config: PlatformConfig) -> Device {
    Device::new(screen, config, &formats(), &platform_extensions(), true, true).unwrap()
}

fn names(list: &[NameVersion]) -> Vec<&str> {
    list.iter().map(|n| n.name.as_str()).collect()
}

#[test]
fn signed_parameters_read_as_unsigned() {
    assert_eq!(as_u32(5), 5);
    assert_eq!(as_u32(-1), u32::MAX);
    assert_eq!(as_u32(i32::MIN), 0x8000_0000);
    assert_eq!(as_u64(7), 7);
    assert_eq!(as_u64(-1), u64::MAX);
    assert_eq!(as_u64(-2), u64::MAX - 1);
    assert_eq!(as_usize(9), 9);
    assert_eq!(as_usize(-1), usize::MAX);
    assert_eq!(as_usize(i32::MIN), usize::MAX - 0x7fff_ffff);
}

#[test]
fn capabilities_from_backend_parameters() {
    let caps = DeviceCaps::new(&screen());
    assert!(caps.has_images);
    assert!(caps.has_timestamp);
    assert!(!caps.has_3d_image_writes && !caps.has_rw_images);
    assert_eq!(caps.image_2d_size, 16384);
    assert_eq!(caps.max_read_images, 128);
    assert_eq!(caps.max_write_images, 64);
    assert_eq!(caps.timer_resolution, 1);
}

#[test]
fn images_need_every_minimum() {
    let without = |change: &dyn Fn(&mut ScreenParams)| {
        let mut s = screen();
        change(&mut s);
        DeviceCaps::new(&s)
    };
    assert!(!without(&|s| s.caps.texture_sampler_independent = 0).has_images);
    assert!(!without(&|s| s.caps.image_store_formatted = 0).has_images);
    assert!(!without(&|s| s.shader.max_sampler_views = 7).has_images);
    assert!(!without(&|s| s.shader.max_shader_images = 7).has_images);
    assert!(!without(&|s| s.caps.max_texture_2d_size = 2047).has_images);
    assert!(without(&|s| s.caps.max_texture_2d_size = 2048).has_images);
    let none = without(&|s| s.shader.max_shader_images = 7);
    assert_eq!((none.image_2d_size, none.max_read_images, none.max_write_images), (0, 0, 0));
    assert!(!without(&|s| s.caps.query_timestamp = 0).has_timestamp);
    assert!(!without(&|s| s.caps.timer_resolution = 0).has_timestamp);
    // A negative count reads as a huge unsigned one.
    assert!(without(&|s| s.shader.max_sampler_views = -1).has_images);
}

#[test]
fn backend_must_be_able_to_serve() {
    assert!(Device::check_valid(&screen()));
    let mut s = screen();
    s.caps.compute = 0;
    assert!(!Device::check_valid(&s));
    let mut s = screen();
    s.shader.supported_irs = 3;
    assert!(!Device::check_valid(&s));
    let mut s = screen();
    s.shader.max_const_buffer0_size = 127;
    assert!(!Device::check_valid(&s));
    s.shader.max_const_buffer0_size = 128;
    assert!(Device::check_valid(&s));
    assert!(Device::new(screen(), config(), &formats(), &platform_extensions(), false, true).is_none());
    assert!(Device::new(screen(), config(), &formats(), &platform_extensions(), true, false).is_none());
    let mut s = screen();
    s.caps.compute = 0;
    assert!(Device::new(s, config(), &formats(), &platform_extensions(), true, true).is_none());
}

#[test]
fn memory_limits() {
    let mut d = bare(screen(), config());
    assert_eq!(d.max_mem_alloc(), 0x8000_0000);
    d.screen.compute.max_mem_alloc_size = 1 << 40;
    assert_eq!(d.max_mem_alloc(), 0x8000_0000);
    d.screen.compute.max_mem_alloc_size = 1000;
    assert_eq!(d.max_mem_alloc(), 1000);
    assert_eq!(d.global_mem_size(), 1 << 33);
    d.screen.memory_info = Some(MemoryInfo { total_device_memory: 4096, total_staging_memory: 9 });
    assert_eq!(d.global_mem_size(), 4096 * 1024);
    d.screen.memory_info = Some(MemoryInfo { total_device_memory: 0, total_staging_memory: 9 });
    assert_eq!(d.global_mem_size(), 9 * 1024);
    d.screen.memory_info =
        Some(MemoryInfo { total_device_memory: u32::MAX, total_staging_memory: 0 });
    assert_eq!(d.global_mem_size(), 0xffff_ffff * 1024);
    assert_eq!(d.local_mem_size(), 65536);
    assert_eq!(d.param_max_size(), 4096);
    d.screen.shader.max_const_buffer0_size = 1 << 20;
    assert_eq!(d.param_max_size(), 4096);
    d.screen.shader.max_const_buffer0_size = 300;
    assert_eq!(d.param_max_size(), 300);
    assert_eq!(d.const_max_size(), 1000);
    d.screen.compute.max_mem_alloc_size = 1 << 40;
    assert_eq!(d.const_max_size(), 1 << 26);
    d.screen.caps.max_shader_buffer_size = 4096;
    assert_eq!(d.const_max_size(), 4096);
    assert_eq!(d.const_max_count(), 16);
    assert_eq!(d.printf_buffer_size(), 1024 * 1024);
}

#[test]
fn image_limits() {
    let mut d = bare(screen(), config());
    assert_eq!(d.image_3d_size(), 2048);
    assert!(d.image_3d_supported());
    assert_eq!(d.image_array_size(), 2048);
    assert_eq!(d.image_pitch_alignment(), 64);
    assert_eq!(d.image_base_address_alignment(), 64);
    assert!(d.image2d_from_buffer_supported());
    // 2 GiB over 16 bytes a pixel.
    assert_eq!(d.image_buffer_max_size_pixels(), 1 << 27);
    d.screen.caps.max_texel_buffer_elements = 1000;
    assert_eq!(d.image_buffer_max_size_pixels(), 1000);
    d.screen.caps.max_texel_buffer_elements = -1;
    assert_eq!(d.image_buffer_max_size_pixels(), 1 << 27);
    d.screen.caps.linear_image_pitch_alignment = 0;
    assert!(!d.image2d_from_buffer_supported());
    d.screen.caps.max_texture_3d_levels = 1;
    assert_eq!(d.image_3d_size(), 1);
    d.screen.caps.max_texture_3d_levels = 32;
    assert_eq!(d.image_3d_size(), 1 << 31);
    d.caps.has_images = false;
    assert_eq!(d.image_3d_size(), 0);
    assert!(!d.image_3d_supported());
    assert_eq!(d.image_array_size(), 0);
    assert_eq!(d.image_pitch_alignment(), 0);
    assert_eq!(d.image_base_address_alignment(), 0);
    assert_eq!(d.image_buffer_max_size_pixels(), 0);
}

#[test]
fn compute_limits() {
    let d = bare(screen(), config());
    assert_eq!(d.address_bits(), 64);
    assert_eq!(d.max_grid_dimensions(), 3);
    assert_eq!(d.max_block_sizes(), vec![1024, 512, 64]);
    assert_eq!(d.max_grid_size(), vec![65535, 65536, 3]);
    assert_eq!(d.max_clock_freq(), 1000);
    assert_eq!(d.max_compute_units(), 8);
    assert_eq!(d.max_threads_per_block(), 1024);
    assert_eq!(d.max_samplers(), 16);
    assert_eq!(d.max_subgroups(), 16);
    assert_eq!(d.subgroup_sizes(), vec![32, 8]);
    assert!(d.subgroups_supported());
}

#[test]
fn subgroups_need_one_size_or_shareable_shaders() {
    let mut d = bare(screen(), config());
    d.screen.caps.shareable_shaders = 0;
    assert!(!d.subgroups_supported());
    d.screen.compute.subgroup_sizes = 16;
    assert_eq!(d.subgroup_sizes(), vec![16]);
    assert!(d.subgroups_supported());
    d.screen.compute.max_subgroups = 0;
    assert!(!d.subgroups_supported());
    d.screen.compute.max_subgroups = 4;
    d.screen.compute.subgroup_sizes = 0;
    assert!(d.subgroup_sizes().is_empty());
    assert!(!d.subgroups_supported());
    d.screen.compute.subgroup_sizes = 0x8000_0001;
    assert_eq!(d.subgroup_sizes(), vec![1 << 31, 1]);
}

#[test]
fn feature_flags() {
    let mut d = bare(screen(), config());
    assert!(d.fp16_supported() && d.fp64_supported() && d.int64_supported());
    assert!(d.svm_supported() && d.unified_memory() && d.little_endian());
    assert!(d.prefers_real_buffer_in_cb0() && d.shareable_shaders());
    assert!(!d.images_as_deref() && d.samplers_as_deref());
    assert!(d.sdot_4x8_supported() && !d.udot_4x8_supported() && d.sudot_4x8_supported());
    assert!(!d.pack_32_4x8_supported());
    assert!(d.sdot_4x8_sat_supported() && !d.udot_4x8_sat_supported());
    assert!(d.sudot_4x8_sat_supported());
    assert!(d.fp64_is_softfp());
    assert!(d.get_nir_options().has_sdot_4x8);
    assert!(d.is_gl_sharing_supported());
    assert!(!d.is_device_software());
    assert_eq!(d.vendor_id(), 0x8086);
    assert_eq!(d.screen().compute.address_bits, 64);
    d.config.fp16 = false;
    d.config.fp64 = false;
    assert!(!d.fp16_supported() && !d.fp64_supported());
    d.config.fp64 = true;
    d.screen.caps.doubles = 2;
    assert!(!d.fp64_supported());
    d.screen.caps.vendor_id = -1;
    assert_eq!(d.vendor_id(), 0);
    d.screen.caps.endianness = 1;
    assert!(!d.little_endian());
    d.screen.fence_fd_supported = false;
    assert!(!d.is_gl_sharing_supported());
    d.screen.fence_fd_supported = true;
    d.screen.device_type = LoaderDeviceType::Software;
    assert!(!d.is_gl_sharing_supported());
    assert!(d.is_device_software());
    let f = bare(screen(), config()).cl_features();
    assert!(f.fp16 && f.fp64 && f.int64 && f.images && f.integer_dot_product);
    assert!(f.subgroups && f.subgroups_shuffle && f.subgroups_shuffle_relative);
    assert!(!f.images_read_write && !f.images_write_3d);
}

#[test]
fn pci_position() {
    let mut d = bare(screen(), config());
    assert_eq!(
        d.pci_info(),
        Some(PciBusInfo { pci_domain: 0, pci_bus: 1, pci_device: 2, pci_function: 3 })
    );
    d.screen.device_type = LoaderDeviceType::Platform;
    assert_eq!(d.pci_info(), None);
}

#[test]
fn device_type_words() {
    assert_eq!(parse_device_type(&b"gpu".to_vec()), Some(DEVICE_TYPE_GPU));
    assert_eq!(parse_device_type(&b"GPU".to_vec()), Some(DEVICE_TYPE_GPU));
    assert_eq!(parse_device_type(&b"Cpu".to_vec()), Some(DEVICE_TYPE_CPU));
    assert_eq!(parse_device_type(&b"custom".to_vec()), Some(DEVICE_TYPE_CUSTOM));
    assert_eq!(parse_device_type(&b"AcCeLeRaToR".to_vec()), Some(DEVICE_TYPE_ACCELERATOR));
    assert_eq!(parse_device_type(&b"gpus".to_vec()), None);
    assert_eq!(parse_device_type(&b"gp".to_vec()), None);
    assert_eq!(parse_device_type(&b"".to_vec()), None);
    assert_eq!(parse_device_type(&b"default".to_vec()), None);
    assert_eq!(parse_device_type(&b"g\x90u".to_vec()), None);
}

#[test]
fn device_types() {
    let mut d = bare(screen(), config());
    assert_eq!(d.device_type(false), DEVICE_TYPE_GPU);
    assert_eq!(d.device_type(true), DEVICE_TYPE_GPU | DEVICE_TYPE_DEFAULT);
    d.screen.driver_name = String::from("zink");
    assert_eq!(d.device_type(true), DEVICE_TYPE_GPU);
    d.screen.driver_name = String::from("zinc");
    d.screen.device_type = LoaderDeviceType::Platform;
    assert_eq!(d.device_type(true), DEVICE_TYPE_GPU | DEVICE_TYPE_DEFAULT);
    d.screen.device_type = LoaderDeviceType::Software;
    assert_eq!(d.device_type(true), DEVICE_TYPE_CPU);
    d.screen.device_type = LoaderDeviceType::Other;
    assert_eq!(d.device_type(true), DEVICE_TYPE_CUSTOM);
    d.screen.device_type = LoaderDeviceType::Software;
    d.custom = true;
    assert_eq!(d.device_type(true), DEVICE_TYPE_CUSTOM);
    d.config.device_type_override = Some(b"accelerator".to_vec());
    assert_eq!(d.device_type(true), DEVICE_TYPE_ACCELERATOR);
    d.config.device_type_override = Some(b"nonsense".to_vec());
    assert_eq!(d.device_type(true), DEVICE_TYPE_CUSTOM);
}

#[test]
fn embedded_profile() {
    let mut d = bare(screen(), config());
    assert!(!d.check_embedded_profile());
    d.screen.caps.int64 = 0;
    assert!(d.check_embedded_profile());
    d.screen.caps.int64 = 1;
    d.screen.shader.max_texture_samplers = 15;
    assert!(d.check_embedded_profile());
    d.screen.shader.max_texture_samplers = 16;
    d.caps.max_read_images = 127;
    assert!(d.check_embedded_profile());
    d.caps.max_read_images = 128;
    d.caps.max_write_images = 63;
    assert!(d.check_embedded_profile());
    d.caps.max_write_images = 64;
    d.caps.image_2d_size = 16383;
    assert!(d.check_embedded_profile());
    d.caps.image_2d_size = 16384;
    d.screen.caps.max_texture_array_layers = 2047;
    assert!(d.check_embedded_profile());
    d.screen.caps.max_texture_array_layers = 2048;
    d.screen.caps.max_texel_buffer_elements = 65535;
    assert!(d.check_embedded_profile());
    // Without images the image minimums do not count.
    d.caps.has_images = false;
    assert!(!d.check_embedded_profile());
}

#[test]
fn custom_classification() {
    let mut d = bare(screen(), config());
    assert!(!d.check_custom());
    // A quarter of 8 GiB is more than the 1 GiB that is asked at most.
    d.screen.compute.max_mem_alloc_size = (1 << 30) - 1;
    assert!(d.check_custom());
    d.screen.compute.max_mem_alloc_size = 1 << 30;
    assert!(!d.check_custom());
    // Of little memory at least 32 MiB must be allocatable.
    d.screen.compute.max_global_size = 1 << 20;
    d.screen.compute.max_mem_alloc_size = (32 << 20) - 1;
    assert!(d.check_custom());
    d.screen.compute.max_mem_alloc_size = 32 << 20;
    assert!(!d.check_custom());
    d.screen.caps.max_shader_buffer_size = 1 << 16;
    d.screen.compute.max_mem_alloc_size = 1 << 30;
    assert!(!d.check_custom());
    d.screen.compute.grid_dimension = 2;
    d.screen.compute.max_block_size = vec![8, 8];
    assert!(d.check_custom());
    d.screen.compute.grid_dimension = 3;
    d.screen.shader.max_const_buffer0_size = 255;
    assert!(d.check_custom());
    d.screen.shader.max_const_buffer0_size = 256;
    assert!(!d.check_custom());
    d.screen.caps.max_shader_buffer_size = (1 << 16) - 1;
    assert!(d.check_custom());
    d.embedded = true;
    assert!(!d.check_custom());
    d.screen.caps.max_shader_buffer_size = 1023;
    assert!(d.check_custom());
    d.screen.caps.max_shader_buffer_size = 1024;
    d.screen.compute.max_local_size = 1024;
    assert!(!d.check_custom());
    d.embedded = false;
    assert!(d.check_custom());
    d.screen.caps.max_shader_buffer_size = 1 << 16;
    d.screen.compute.max_local_size = 16 * 1024;
    assert!(!d.check_custom());
    d.screen.compute.max_local_size = 16 * 1024 - 1;
    assert!(d.check_custom());
}

#[test]
fn format_flags_follow_backend_support() {
    let t = build_format_table(&formats(), false, true);
    assert!(t.has_3d_image_writes);
    assert!(t.has_rw_images);
    let all = MEM_READ_ONLY | MEM_WRITE_ONLY | MEM_READ_WRITE | MEM_KERNEL_READ_AND_WRITE;
    assert_eq!(t.formats.len(), 3);
    assert_eq!(t.formats[0].flags, vec![Some(all); 6]);
    // Three channels are left out for images made from buffers.
    assert_eq!(t.formats[1].flags[5], None);
    assert_eq!(t.formats[1].flags[0], Some(all));
    // Nothing is written to an sRGB format.
    assert_eq!(t.formats[2].flags, vec![Some(MEM_READ_ONLY); 6]);
    assert_eq!(t.formats[2].format, ImageFormat { channel_order: 0x10BF, channel_data_type: 0x10D2 });
    let rgba = ImageFormat { channel_order: 0x10B5, channel_data_type: 0x10DA };
    assert_eq!(granted_flags(&t.formats, rgba, ImageType::Image3D), all);
    let rgb = ImageFormat { channel_order: 0x10B4, channel_data_type: 0x10DE };
    assert_eq!(granted_flags(&t.formats, rgb, ImageType::Image1DBuffer), 0);
    let unknown = ImageFormat { channel_order: 1, channel_data_type: 2 };
    assert_eq!(granted_flags(&t.formats, unknown, ImageType::Image2D), 0);
    assert_eq!(ImageType::Image1D.index(), 0);
    assert_eq!(ImageType::Image2D.index(), 1);
    assert_eq!(ImageType::Image3D.index(), 2);
    assert_eq!(ImageType::Image1DArray.index(), 3);
    assert_eq!(ImageType::Image2DArray.index(), 4);
    assert_eq!(ImageType::Image1DBuffer.index(), 5);
}

#[test]
fn packed_three_channel_formats_are_kept_for_buffers() {
    let infos = vec![format(0x10B4, 0x10D4, false, false, support(true, false, false))];
    let t = build_format_table(&infos, false, true);
    assert_eq!(t.formats[0].flags[5], Some(MEM_READ_ONLY));
}

#[test]
fn buffer_images_get_no_more_than_1d_images() {
    let mut info = format(0x10B5, 0x10DA, false, false, support(true, true, true));
    info.support[0] = support(true, false, false);
    let t = build_format_table(&vec![info], false, false);
    assert_eq!(t.formats[0].flags[0], Some(MEM_READ_ONLY));
    assert_eq!(t.formats[0].flags[5], Some(MEM_READ_ONLY));
    assert_eq!(
        t.formats[0].flags[1],
        Some(MEM_READ_ONLY | MEM_WRITE_ONLY | MEM_READ_WRITE)
    );
}

#[test]
fn missing_3d_writes_strip_3d_images() {
    let mut required = format(0x10B5, 0x10DA, true, false, support(true, true, true));
    required.support[2] = support(true, false, false);
    let other = format(0x10B0, 0x10DA, false, false, support(true, true, true));
    let t = build_format_table(&vec![required, other], false, true);
    assert!(!t.has_3d_image_writes);
    assert_eq!(t.formats[0].flags[2], Some(MEM_READ_ONLY));
    assert_eq!(t.formats[1].flags[2], Some(MEM_READ_ONLY));
    // 3D images do not count for reading and writing in one kernel.
    assert!(t.has_rw_images);
    assert_eq!(
        t.formats[1].flags[1],
        Some(MEM_READ_ONLY | MEM_WRITE_ONLY | MEM_READ_WRITE | MEM_KERNEL_READ_AND_WRITE)
    );
}

#[test]
fn read_write_images_need_formatted_loads_and_required_formats() {
    let t = build_format_table(&formats(), false, false);
    assert!(!t.has_rw_images);
    assert_eq!(t.formats[0].flags[0], Some(MEM_READ_ONLY | MEM_WRITE_ONLY | MEM_READ_WRITE));
    let mut weak = format(0x10B5, 0x10DA, true, false, support(true, true, true));
    weak.support[1] = support(true, false, false);
    let strong = format(0x10B0, 0x10DA, false, false, support(true, true, true));
    let full = build_format_table(&vec![weak, strong], false, true);
    assert!(!full.has_rw_images);
    assert_eq!(full.formats[1].flags[0], Some(MEM_READ_ONLY | MEM_WRITE_ONLY | MEM_READ_WRITE));
    // On the embedded profile one format that allows it is enough.
    let mut weak = format(0x10B5, 0x10DA, true, false, support(true, true, true));
    weak.support[1] = support(true, false, false);
    let strong = format(0x10B0, 0x10DA, false, false, support(true, true, true));
    let embedded = build_format_table(&vec![weak, strong], true, true);
    assert!(embedded.has_rw_images);
    let none = build_format_table(
        &vec![format(0x10B5, 0x10DA, true, false, support(true, false, false))],
        true,
        true,
    );
    assert!(!none.has_rw_images);
    assert!(!none.has_3d_image_writes);
}

#[test]
fn version_numbers_are_parsed() {
    assert_eq!(parse_u32(b"0"), Some(0));
    assert_eq!(parse_u32(b"007"), Some(7));
    assert_eq!(parse_u32(b"+12"), Some(12));
    assert_eq!(parse_u32(b"4294967295"), Some(u32::MAX));
    assert_eq!(parse_u32(b"4294967296"), None);
    assert_eq!(parse_u32(b"99999999999999999999"), None);
    assert_eq!(parse_u32(b""), None);
    assert_eq!(parse_u32(b"+"), None);
    assert_eq!(parse_u32(b"-1"), None);
    assert_eq!(parse_u32(b"1a"), None);
    assert_eq!(parse_u32(b"++1"), None);
    assert_eq!(parse_u32(b" 1"), None);
    assert_eq!(parse_version(&b"3.0".to_vec()), Some(CLVersion::Cl3_0));
    assert_eq!(parse_version(&b"1.2".to_vec()), Some(CLVersion::Cl1_2));
    assert_eq!(parse_version(&b"+2.01".to_vec()), Some(CLVersion::Cl2_1));
    assert_eq!(parse_version(&b"1.3".to_vec()), None);
    assert_eq!(parse_version(&b"3".to_vec()), None);
    assert_eq!(parse_version(&b"3.".to_vec()), None);
    assert_eq!(parse_version(&b".0".to_vec()), None);
    assert_eq!(parse_version(&b"1.2.0".to_vec()), None);
    assert_eq!(parse_version(&b"".to_vec()), None);
}

#[test]
fn revisions() {
    assert_eq!(mk_cl_version(3, 0, 0), 3 << 22);
    assert_eq!(mk_cl_version(1, 2, 3), (1 << 22) | (2 << 12) | 3);
    assert_eq!(CLVersion::Cl2_1.packed(), (2 << 22) | (1 << 12));
    assert_eq!((CLVersion::Cl2_2.major(), CLVersion::Cl2_2.minor()), (2, 2));
    assert_eq!(CLVersion::from_parts(1, 1), Some(CLVersion::Cl1_1));
    assert_eq!(CLVersion::from_parts(2, 0), Some(CLVersion::Cl2_0));
    assert_eq!(CLVersion::from_parts(3, 1), None);
    assert_eq!(CLVersion::from_parts(0, 0), None);
    assert!(CLVersion::Cl3_0.at_least(CLVersion::Cl1_2));
    assert!(CLVersion::Cl1_2.at_least(CLVersion::Cl1_2));
    assert!(!CLVersion::Cl1_1.at_least(CLVersion::Cl1_2));
    assert_eq!(CLVersion::Cl1_2.oldest(CLVersion::Cl3_0), CLVersion::Cl1_2);
    assert_eq!(CLVersion::Cl1_2.oldest(CLVersion::Cl1_0), CLVersion::Cl1_0);
    assert_eq!(CLVersion::Cl1_0.index(), 0);
    assert_eq!(CLVersion::Cl3_0.index(), 6);
}

#[test]
fn derived_device() {
    let d = derive(screen(), config());
    assert!(!d.embedded && !d.custom);
    assert!(d.caps.has_images && d.caps.has_3d_image_writes && d.caps.has_rw_images);
    assert_eq!(d.formats.len(), 3);
    assert_eq!(d.cl_version, CLVersion::Cl3_0);
    assert_eq!(d.clc_version, CLVersion::Cl1_2);
    assert_eq!(names(&d.clc_versions), vec!["OpenCL C"; 4]);
    let versions: Vec<u32> = d.clc_versions.iter().map(|n| n.version).collect();
    assert_eq!(
        versions,
        vec![
            mk_cl_version(3, 0, 0),
            mk_cl_version(1, 2, 0),
            mk_cl_version(1, 1, 0),
            mk_cl_version(1, 0, 0)
        ]
    );
    assert_eq!(
        names(&d.extensions),
        vec![
            "cl_khr_byte_addressable_store",
            "cl_khr_icd",
            "cl_khr_global_int32_base_atomics",
            "cl_khr_global_int32_extended_atomics",
            "cl_khr_integer_dot_product",
            "cl_khr_local_int32_base_atomics",
            "cl_khr_local_int32_extended_atomics",
            "cl_khr_fp16",
            "cl_khr_fp64",
            "cl_khr_gl_sharing",
            "cl_khr_image2d_from_buffer",
            "cl_khr_3d_image_writes",
            "cl_khr_pci_bus_info",
            "cl_khr_device_uuid",
            "cl_khr_subgroup_shuffle",
            "cl_khr_subgroup_shuffle_relative",
            "cl_arm_shared_virtual_memory",
        ]
    );
    assert_eq!(d.extensions[4].version, mk_cl_version(2, 0, 0));
    assert_eq!(d.extensions[7].version, mk_cl_version(1, 0, 0));
    assert_eq!(d.extension_string, names(&d.extensions).join(" "));
    assert_eq!(
        names(&d.clc_features),
        vec![
            "__opencl_c_integer_dot_product_input_4x8bit_packed",
            "__opencl_c_integer_dot_product_input_4x8bit",
            "__opencl_c_fp64",
            "__opencl_c_int64",
            "__opencl_c_images",
            "__opencl_c_read_write_images",
            "__opencl_c_3d_image_writes",
            "__opencl_c_subgroups",
        ]
    );
    assert_eq!(d.clc_features[0].version, mk_cl_version(2, 0, 0));
    assert_eq!(
        d.spirv_extensions,
        vec![
            "SPV_KHR_expect_assume",
            "SPV_KHR_float_controls",
            "SPV_KHR_integer_dot_product",
            "SPV_KHR_no_integer_wrap_decoration",
        ]
    );
    assert!(d.advertises("cl_khr_fp64"));
    assert!(!d.advertises("cl_khr_fp"));
}

#[test]
fn plain_device_has_the_common_extensions_only() {
    let mut s = screen();
    s.caps.texture_sampler_independent = 0;
    s.caps.doubles = 0;
    s.caps.int64 = 0;
    s.caps.system_svm = 0;
    s.caps.cl_gl_sharing = 0;
    s.shader.fp16 = 0;
    s.compute.max_subgroups = 0;
    s.device_type = LoaderDeviceType::Platform;
    s.driver_uuid = None;
    let d = Device::new(s, config(), &formats(), &Vec::new(), true, true).unwrap();
    assert!(d.embedded);
    assert!(d.formats.is_empty());
    assert_eq!(
        d.extension_string,
        "cl_khr_global_int32_base_atomics cl_khr_global_int32_extended_atomics \
         cl_khr_integer_dot_product cl_khr_local_int32_base_atomics \
         cl_khr_local_int32_extended_atomics"
    );
    assert_eq!(d.clc_features.len(), 2);
    // Without the byte store extension of the platform the device is a 1.0 device.
    assert_eq!(d.cl_version, CLVersion::Cl1_0);
    assert_eq!(d.clc_version, CLVersion::Cl1_0);
    assert_eq!(d.clc_versions.len(), 1);
    assert_eq!(d.clc_versions[0].version, mk_cl_version(1, 0, 0));
}

#[test]
fn embedded_device_with_64_bit_integers() {
    let mut s = screen();
    s.shader.max_texture_samplers = 8;
    let d = derive(s, config());
    assert!(d.embedded);
    assert!(d.advertises("cles_khr_int64"));
    assert_eq!(d.cl_version, CLVersion::Cl3_0);
}

#[test]
fn revision_falls_with_the_limits() {
    let mut s = screen();
    s.caps.max_texture_array_layers = 255;
    let d = derive(s, config());
    assert!(d.embedded);
    assert_eq!(d.cl_version, CLVersion::Cl1_1);
    assert_eq!(d.clc_version, CLVersion::Cl1_1);
    assert_eq!(d.clc_versions.len(), 2);
    let mut s = screen();
    s.shader.max_texture_samplers = 8;
    s.caps.max_texture_3d_levels = 11;
    assert_eq!(derive(s, config()).cl_version, CLVersion::Cl1_2);
    let mut s = screen();
    s.caps.max_texture_3d_levels = 11;
    assert_eq!(derive(s, config()).cl_version, CLVersion::Cl3_0);
    let mut s = screen();
    s.compute.max_local_size = 32 * 1024 - 1;
    assert_eq!(derive(s, config()).cl_version, CLVersion::Cl1_0);
    let mut s = screen();
    s.shader.max_const_buffer0_size = 1023;
    assert_eq!(derive(s, config()).cl_version, CLVersion::Cl1_0);
}

#[test]
fn embedded_revision_needs_writable_image_arrays() {
    let mut infos = formats();
    infos[0].support[4] = support(true, false, false);
    let mut s = screen();
    s.shader.max_texture_samplers = 8;
    let d = Device::new(s, config(), &infos, &platform_extensions(), true, true).unwrap();
    assert!(d.embedded);
    assert_eq!(d.cl_version, CLVersion::Cl1_2);
    assert_eq!(d.clc_versions.len(), 3);
}

#[test]
fn version_override_takes_precedence() {
    let mut c = config();
    c.version_override = Some(b"2.0".to_vec());
    let d = derive(screen(), c);
    assert_eq!(d.cl_version, CLVersion::Cl2_0);
    assert_eq!(d.clc_version, CLVersion::Cl1_2);
    assert_eq!(d.clc_versions.len(), 3);
    let mut c = config();
    c.version_override = Some(b"1.0".to_vec());
    let d = derive(screen(), c);
    assert_eq!(d.cl_version, CLVersion::Cl1_0);
    assert_eq!(d.clc_version, CLVersion::Cl1_0);
    let mut c = config();
    c.version_override = Some(b"latest".to_vec());
    assert_eq!(derive(screen(), c).cl_version, CLVersion::Cl3_0);
    let mut c = config();
    c.version_override = Some(b"3.0".to_vec());
    let mut s = screen();
    s.compute.max_local_size = 1;
    assert_eq!(derive(s, c).cl_version, CLVersion::Cl3_0);
}

#[test]
fn platform_of_devices() {
    let good = ScreenProbe { screen: screen(), context_created: true, library_loaded: true };
    let mut cpu = screen();
    cpu.device_type = LoaderDeviceType::Software;
    cpu.device_uuid = Some([1; 16]);
    let cpu = ScreenProbe { screen: cpu, context_created: true, library_loaded: true };
    let broken = ScreenProbe { screen: screen(), context_created: false, library_loaded: true };
    let mut anonymous = screen();
    anonymous.device_uuid = None;
    let anonymous = ScreenProbe { screen: anonymous, context_created: true, library_loaded: true };
    let p = Platform {
        devs: Device::all(
            vec![good, broken, cpu, anonymous],
            &config(),
            &formats(),
            &platform_extensions(),
        ),
    };
    assert_eq!(devs(&p).len(), 3);
    assert_eq!(get_devs_for_type(&p, DEVICE_TYPE_GPU), vec![0, 2]);
    assert_eq!(get_devs_for_type(&p, DEVICE_TYPE_DEFAULT), vec![0, 2]);
    assert_eq!(get_devs_for_type(&p, DEVICE_TYPE_CPU), vec![1]);
    assert_eq!(get_devs_for_type(&p, DEVICE_TYPE_CPU | DEVICE_TYPE_GPU), vec![0, 1, 2]);
    assert!(get_devs_for_type(&p, DEVICE_TYPE_ACCELERATOR).is_empty());
    assert_eq!(get_dev_for_uuid(&p, &[7; 16]), Some(0));
    assert_eq!(get_dev_for_uuid(&p, &[1; 16]), Some(1));
    assert_eq!(get_dev_for_uuid(&p, &[2; 16]), None);
    assert!(Device::to_static(&p, 2).is_some());
    assert!(Device::to_static(&p, 3).is_none());
    assert_eq!(p.devs[1].screen.device_uuid, Some([1; 16]));
}

#[test]
fn contexts_are_pooled_where_that_is_switched_on() {
    let mut d = bare(screen(), config());
    assert_eq!(d.create_context(), None);
    assert_eq!(d.recycle_context(4), None);
    assert_eq!(d.recycle_context(5), None);
    assert_eq!(d.create_context(), Some(5));
    assert_eq!(d.create_context(), Some(4));
    assert_eq!(d.create_context(), None);
    d.config.reuse_context = false;
    assert_eq!(d.recycle_context(6), Some(6));
    assert_eq!(d.create_context(), None);
    let c = d.config;
    let copy = c.duplicate();
    assert!(!copy.reuse_context);
    assert_eq!(copy.max_grid_size, 65536);
}
