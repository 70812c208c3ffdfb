use compute_runtime::device::{Device, DeviceCaps, Platform};
use compute_runtime::error::ErrorKind;
use compute_runtime::event::{CommandKind, EventGraph, EventStatus, Work};
use compute_runtime::kernel::{
    BuildStatus, Kernel, KernelArg, KernelArgType, KernelArgValue, KernelBuild,
};
use compute_runtime::launch::{
    check_geometry, device_address_max, enqueue_ndrange_kernel, enqueue_task,
    get_kernel_suggested_local_work_size_khr, greatest_common_divisor, prepare_ndrange_kernel,
    suggest_local_size, validate_launch, LaunchLimits, LaunchPlan, NDRange,
};
use compute_runtime::queue::{Queue, Step};
use compute_runtime::screen::{
    CompilerOptions, ComputeCaps, LoaderDeviceType, PipeCaps, PlatformConfig, ScreenParams,
    ShaderCaps,
};
use compute_runtime::version::CLVersion;

fn screen(address_bits: u32, max_block: Vec<u64>) -> ScreenParams {
    ScreenParams {
        caps: PipeCaps {
            compute: 1,
            query_timestamp: 1,
            timer_resolution: 1,
            max_texture_2d_size: 16384,
            texture_sampler_independent: 1,
            image_store_formatted: 1,
            image_load_formatted: 1,
            max_shader_buffer_size: 1 << 27,
            doubles: 1,
            cl_gl_sharing: 0,
            dmabuf: 0,
            int64: 1,
            max_texture_3d_levels: 12,
            max_texture_array_layers: 2048,
            linear_image_pitch_alignment: 64,
            linear_image_base_address_alignment: 64,
            max_texel_buffer_elements: 1 << 27,
            endianness: 0,
            pci_group: 0,
            pci_bus: 1,
            pci_device: 2,
            pci_function: 3,
            system_svm: 0,
            uma: 0,
            vendor_id: 0x8086,
            prefer_real_buffer_in_constbuf0: 0,
            shareable_shaders: 1,
            nir_images_as_deref: 0,
            nir_samplers_as_deref: 0,
        },
        shader: ShaderCaps {
            max_shader_images: 64,
            max_sampler_views: 128,
            supported_irs: 4,
            max_const_buffer0_size: 4096,
            max_const_buffers: 16,
            fp16: 1,
            max_texture_samplers: 16,
        },
        compute: ComputeCaps {
            address_bits,
            max_global_size: 1 << 32,
            max_local_size: 65536,
            max_block_size: max_block,
            max_grid_size: vec![65535, 65535, 65535],
            max_clock_frequency: 1000,
            max_compute_units: 8,
            grid_dimension: 3,
            max_mem_alloc_size: 1 << 30,
            max_threads_per_block: 1024,
            subgroup_sizes: 32,
            max_subgroups: 32,
        },
        compiler: CompilerOptions {
            has_sdot_4x8: true,
            has_udot_4x8: true,
            has_sudot_4x8: false,
            has_pack_32_4x8: true,
            has_sdot_4x8_sat: false,
            has_udot_4x8_sat: false,
            has_sudot_4x8_sat: false,
            fp64_full_software: false,
        },
        device_type: LoaderDeviceType::Pci,
        driver_name: String::from("iris"),
        memory_info: None,
        res_handle_supported: true,
        device_uuid: Some([7; 16]),
        driver_uuid: Some([9; 16]),
        fence_fd_supported: true,
    }
}

fn config() -> PlatformConfig {
    PlatformConfig {
        fp16: true,
        fp64: true,
        max_grid_size: u64::MAX,
        reuse_context: true,
        device_type_override: None,
        version_override: None,
    }
}

fn device(address_bits: u32, max_block: Vec<u64>) -> Device {
    let screen = screen(address_bits, max_block);
    Device {
        caps: DeviceCaps::new(&screen),
        screen,
        config: config(),
        cl_version: CLVersion::Cl3_0,
        clc_version: CLVersion::Cl1_2,
        clc_versions: Vec::new(),
        custom: false,
        embedded: false,
        extension_string: String::new(),
        extensions: Vec::new(),
        spirv_extensions: Vec::new(),
        clc_features: Vec::new(),
        formats: Vec::new(),
        reusable_ctx: Vec::new(),
    }
}

fn platform(address_bits: u32, max_block: Vec<u64>) -> Platform {
    Platform { devs: vec![device(address_bits, max_block)] }
}

fn arg(kind: KernelArgType) -> KernelArg {
    KernelArg {
        kind,
        dead: false,
        name: String::from("a"),
        ty_name: String::from("int"),
        access_qualifier: 0,
        address_qualifier: 0,
        type_qualifier: 0,
    }
}

fn kernel(max_threads: usize, required: [usize; 3]) -> Kernel {
    Kernel {
        name: String::from("k"),
        context: 1,
        program: 10,
        devs: vec![0],
        attributes_string: String::new(),
        args: vec![arg(KernelArgType::Constant(4)), arg(KernelArgType::MemLocal)],
        values: vec![
            Some(KernelArgValue::Constant(vec![1, 0, 0, 0])),
            Some(KernelArgValue::LocalMem(64)),
        ],
        work_group_size: required,
        subgroup_size: 0,
        num_subgroups: 0,
        builds: vec![KernelBuild {
            device: 0,
            status: BuildStatus::Success,
            max_threads_per_block: max_threads,
            preferred_simd_size: 32,
            local_mem_size: 0,
            priv_mem_size: 0,
            simd_sizes: 32,
        }],
        refs: 1,
    }
}

fn queue() -> Queue {
    Queue {
        id: 5,
        context: 1,
        device: 0,
        props: 0,
        props_v2: None,
        refs: 1,
        pending: Vec::new(),
        flushed: Vec::new(),
        last: None,
        barrier: None,
    }
}

fn range(dim: u32, offset: Option<Vec<usize>>, global: Vec<usize>, local: Option<Vec<usize>>) -> NDRange {
    NDRange {
        work_dim: dim,
        global_work_offset: offset,
        global_work_size: Some(global),
        local_work_size: local,
    }
}

fn limits(bits: u32, max_block: Vec<usize>, max_threads: usize) -> LaunchLimits {
    LaunchLimits {
        max_dimensions: 3,
        address_bits: bits,
        max_block_sizes: max_block,
        required_work_group_size: [0, 0, 0],
        max_threads_per_block: max_threads,
    }
}

fn outcome(p: &Platform, k: &Kernel, r: &NDRange) -> Result<LaunchPlan, ErrorKind> {
    validate_launch(p, &queue(), k, r)
}

fn error_of(r: Result<LaunchPlan, ErrorKind>) -> ErrorKind {
    match r {
        Err(e) => e,
        Ok(_) => panic!("the launch was accepted"),
    }
}

#[test]
fn address_max_of_common_widths() {
    assert_eq!(device_address_max(1), 1);
    assert_eq!(device_address_max(16), 0xffff);
    assert_eq!(device_address_max(32), 0xffff_ffff);
    assert_eq!(device_address_max(63), 0x7fff_ffff_ffff_ffff);
    assert_eq!(device_address_max(64), u64::MAX);
}

#[test]
fn full_work_group_passes_the_thread_limit() {
    let p = platform(64, vec![1024, 1024, 1024]);
    let k = kernel(256, [0, 0, 0]);
    let r = range(2, None, vec![64, 64], Some(vec![16, 16]));
    match outcome(&p, &k, &r) {
        Ok(LaunchPlan::Dispatch(g)) => {
            assert_eq!(g.work_dim, 2);
            assert_eq!(g.block, vec![16, 16, 1]);
            assert_eq!(g.grid, vec![4, 4, 1]);
            assert_eq!(g.offsets, vec![0, 0, 0]);
        }
        other => panic!("unexpected {:?}", other),
    }
}

#[test]
fn work_group_extent_beyond_dimension_limit() {
    let p = platform(64, vec![16, 16, 16]);
    let k = kernel(256, [0, 0, 0]);
    let ok = range(2, None, vec![64, 64], Some(vec![16, 16]));
    assert!(matches!(outcome(&p, &k, &ok), Ok(LaunchPlan::Dispatch(_))));
    let r = range(2, None, vec![64, 64], Some(vec![17, 16]));
    assert_eq!(error_of(outcome(&p, &k, &r)), ErrorKind::InvalidWorkItemSize);
}

#[test]
fn work_group_larger_than_kernel_allows() {
    let p = platform(64, vec![1024, 1024, 1024]);
    let k = kernel(255, [0, 0, 0]);
    let r = range(2, None, vec![64, 64], Some(vec![16, 16]));
    assert_eq!(error_of(outcome(&p, &k, &r)), ErrorKind::InvalidWorkGroupSize);
}

#[test]
fn partly_specified_work_group_is_not_counted() {
    let p = platform(64, vec![1024, 1024, 1024]);
    let k = kernel(4, [0, 0, 0]);
    let r = range(2, None, vec![64, 64], Some(vec![64, 0]));
    match outcome(&p, &k, &r) {
        Ok(LaunchPlan::Dispatch(g)) => {
            assert_eq!(g.block, vec![4, 1, 1]);
            assert_eq!(g.grid, vec![16, 64, 1]);
        }
        other => panic!("unexpected {:?}", other),
    }
}

#[test]
fn bound_kernel_launches_and_unbound_does_not() {
    let p = platform(64, vec![1024, 1024, 1024]);
    let mut k = kernel(256, [0, 0, 0]);
    let r = range(1, Some(vec![8]), vec![128], Some(vec![32]));
    assert!(matches!(outcome(&p, &k, &r), Ok(LaunchPlan::Dispatch(_))));
    k.values[1] = None;
    assert_eq!(error_of(outcome(&p, &k, &r)), ErrorKind::InvalidKernelArgs);
    k.values[1] = Some(KernelArgValue::Null);
    assert!(outcome(&p, &k, &r).is_ok());
}

#[test]
fn unbound_slot_beats_bad_geometry() {
    let p = platform(64, vec![1024, 1024, 1024]);
    let mut k = kernel(256, [0, 0, 0]);
    k.values[0] = None;
    let r = range(7, None, vec![3], Some(vec![2]));
    assert_eq!(error_of(outcome(&p, &k, &r)), ErrorKind::InvalidKernelArgs);
}

#[test]
fn indivisible_global_size() {
    let p = platform(64, vec![1024, 1024, 1024]);
    let k = kernel(1024, [0, 0, 0]);
    let r = range(3, None, vec![64, 65, 64], Some(vec![4, 4, 4]));
    assert_eq!(error_of(outcome(&p, &k, &r)), ErrorKind::InvalidWorkGroupSize);
    let r = range(3, None, vec![64, 64, 64], Some(vec![4, 4, 4]));
    assert!(outcome(&p, &k, &r).is_ok());
}

#[test]
fn required_work_group_size_must_match() {
    let p = platform(64, vec![1024, 1024, 1024]);
    let k = kernel(1024, [8, 0, 0]);
    let r = range(1, None, vec![64], Some(vec![16]));
    assert_eq!(error_of(outcome(&p, &k, &r)), ErrorKind::InvalidWorkGroupSize);
    let r = range(1, None, vec![64], Some(vec![8]));
    assert!(outcome(&p, &k, &r).is_ok());
    let r = range(1, None, vec![64], None);
    assert!(outcome(&p, &k, &r).is_ok());
}

#[test]
fn empty_dimension_is_trivial() {
    let p = platform(64, vec![1024, 1024, 1024]);
    let k = kernel(256, [0, 0, 0]);
    let r = range(3, Some(vec![5, 6, 7]), vec![64, 0, 1000], Some(vec![16, 16, 1]));
    assert!(matches!(outcome(&p, &k, &r), Ok(LaunchPlan::Trivial)));
    let absent = NDRange {
        work_dim: 2,
        global_work_offset: None,
        global_work_size: None,
        local_work_size: None,
    };
    assert!(matches!(outcome(&p, &k, &absent), Ok(LaunchPlan::Trivial)));
}

#[test]
fn empty_dimension_does_not_excuse_other_dimensions() {
    let p = platform(64, vec![1024, 1024, 1024]);
    let k = kernel(256, [0, 0, 0]);
    let r = range(2, None, vec![0, 8], Some(vec![0, 3]));
    assert_eq!(error_of(outcome(&p, &k, &r)), ErrorKind::InvalidWorkGroupSize);
}

#[test]
fn global_size_beyond_address_space() {
    let p = platform(32, vec![1024, 1024, 1024]);
    let k = kernel(256, [0, 0, 0]);
    let r = range(1, None, vec![0x1_0000_0000], None);
    assert_eq!(error_of(outcome(&p, &k, &r)), ErrorKind::InvalidGlobalWorkSize);
    let r = range(1, None, vec![0xffff_ffff], None);
    assert!(outcome(&p, &k, &r).is_ok());
}

#[test]
fn offset_carries_beyond_address_space() {
    let p = platform(32, vec![1024, 1024, 1024]);
    let k = kernel(256, [0, 0, 0]);
    let r = range(1, Some(vec![1]), vec![0xffff_ffff], None);
    assert_eq!(error_of(outcome(&p, &k, &r)), ErrorKind::InvalidGlobalOffset);
    let r = range(1, Some(vec![0xffff_0000]), vec![0xffff], None);
    assert!(outcome(&p, &k, &r).is_ok());
    let r = range(1, Some(vec![0xffff_0001]), vec![0xffff], None);
    assert_eq!(error_of(outcome(&p, &k, &r)), ErrorKind::InvalidGlobalOffset);
}

#[test]
fn offset_overflowing_the_machine_word() {
    let p = platform(64, vec![1024, 1024, 1024]);
    let k = kernel(256, [0, 0, 0]);
    let r = range(1, Some(vec![usize::MAX]), vec![2], None);
    assert_eq!(error_of(outcome(&p, &k, &r)), ErrorKind::InvalidGlobalOffset);
}

#[test]
fn first_failing_dimension_decides() {
    let p = platform(32, vec![16, 16, 16]);
    let k = kernel(256, [0, 0, 0]);
    // Dimension 0 fails on the offset, dimension 1 on the work-item size.
    let r = range(2, Some(vec![1, 0]), vec![0xffff_ffff, 64], Some(vec![1, 17]));
    assert_eq!(error_of(outcome(&p, &k, &r)), ErrorKind::InvalidGlobalOffset);
    // Within one dimension the work-item size is looked at first.
    let r = range(1, Some(vec![1]), vec![0xffff_ffff], Some(vec![17]));
    assert_eq!(error_of(outcome(&p, &k, &r)), ErrorKind::InvalidWorkItemSize);
}

#[test]
fn work_dimension_out_of_range() {
    let p = platform(64, vec![1024, 1024, 1024]);
    let k = kernel(256, [0, 0, 0]);
    let zero = NDRange {
        work_dim: 0,
        global_work_offset: None,
        global_work_size: None,
        local_work_size: None,
    };
    assert_eq!(error_of(outcome(&p, &k, &zero)), ErrorKind::InvalidWorkDimension);
    let four = NDRange {
        work_dim: 4,
        global_work_offset: None,
        global_work_size: None,
        local_work_size: None,
    };
    assert_eq!(error_of(outcome(&p, &k, &four)), ErrorKind::InvalidWorkDimension);
}

#[test]
fn context_and_build_come_first() {
    let p = platform(64, vec![1024, 1024, 1024]);
    let mut k = kernel(256, [0, 0, 0]);
    k.values[0] = None;
    k.context = 2;
    let r = range(1, None, vec![64], None);
    assert_eq!(error_of(outcome(&p, &k, &r)), ErrorKind::InvalidContext);
    k.context = 1;
    k.builds[0].status = BuildStatus::Error;
    assert_eq!(error_of(outcome(&p, &k, &r)), ErrorKind::InvalidProgramExecutable);
    k.builds[0].status = BuildStatus::Success;
    k.builds[0].device = 3;
    assert_eq!(error_of(outcome(&p, &k, &r)), ErrorKind::InvalidProgramExecutable);
}

#[test]
fn geometry_check_alone() {
    let l = limits(64, vec![8, 8, 8], 32);
    let r = range(2, None, vec![16, 16], Some(vec![8, 8]));
    assert_eq!(check_geometry(&r, &l), Err(ErrorKind::InvalidWorkGroupSize));
    let r = range(2, None, vec![16, 16], Some(vec![8, 4]));
    assert_eq!(check_geometry(&r, &l), Ok(()));
}

#[test]
fn greatest_common_divisors() {
    assert_eq!(greatest_common_divisor(12, 18), 6);
    assert_eq!(greatest_common_divisor(256, 64), 64);
    assert_eq!(greatest_common_divisor(17, 5), 1);
    assert_eq!(greatest_common_divisor(0, 9), 9);
    assert_eq!(greatest_common_divisor(9, 0), 9);
}

#[test]
fn suggested_sizes_divide_and_fit() {
    let l = limits(64, vec![1024, 1024, 1024], 256);
    let r = range(2, None, vec![64, 64], None);
    assert_eq!(suggest_local_size(&r, &l, 2), vec![64, 4]);
    let r = range(3, None, vec![6, 35, 9], None);
    let l = limits(64, vec![4, 1024, 1024], 60);
    // 2 of 4 allowed in the first dimension, then 5 of the 30 left, then 3 of 6.
    assert_eq!(suggest_local_size(&r, &l, 3), vec![2, 5, 3]);
}

#[test]
fn suggested_size_entry_point() {
    let p = platform(32, vec![1024, 1024, 1024]);
    let k = kernel(256, [0, 0, 0]);
    let q = queue();
    let r = range(2, Some(vec![0, 0]), vec![64, 64], None);
    assert_eq!(get_kernel_suggested_local_work_size_khr(&p, &q, &k, &r, true), Ok(vec![64, 4]));
    assert_eq!(
        get_kernel_suggested_local_work_size_khr(&p, &q, &k, &r, false),
        Err(ErrorKind::InvalidValue)
    );
    let no_offset = range(2, None, vec![64, 64], None);
    assert_eq!(
        get_kernel_suggested_local_work_size_khr(&p, &q, &k, &no_offset, true),
        Err(ErrorKind::InvalidGlobalOffset)
    );
    let no_global = NDRange {
        work_dim: 1,
        global_work_offset: Some(vec![0]),
        global_work_size: None,
        local_work_size: None,
    };
    assert_eq!(
        get_kernel_suggested_local_work_size_khr(&p, &q, &k, &no_global, true),
        Err(ErrorKind::InvalidGlobalWorkSize)
    );
    let empty = range(2, Some(vec![0, 0]), vec![64, 0], None);
    assert_eq!(
        get_kernel_suggested_local_work_size_khr(&p, &q, &k, &empty, true),
        Err(ErrorKind::InvalidGlobalWorkSize)
    );
    let far = range(1, Some(vec![0xffff_ffff]), vec![64], None);
    assert_eq!(
        get_kernel_suggested_local_work_size_khr(&p, &q, &k, &far, true),
        Err(ErrorKind::InvalidGlobalOffset)
    );
    let wide = range(5, Some(vec![0; 5]), vec![1; 5], None);
    assert_eq!(
        get_kernel_suggested_local_work_size_khr(&p, &q, &k, &wide, true),
        Err(ErrorKind::InvalidWorkDimension)
    );
}

#[test]
fn trivial_launch_never_reaches_the_backend() {
    let p = platform(64, vec![1024, 1024, 1024]);
    let k = kernel(256, [0, 0, 0]);
    let mut g = EventGraph::new();
    let mut q = queue();
    let r = range(2, None, vec![0, 64], None);
    // The backend's answer is not looked at: even a failure does not matter.
    let id = enqueue_ndrange_kernel(
        &p, &mut g, &mut q, &k, &r, &Vec::new(), true, Err(ErrorKind::OutOfResources),
    )
    .unwrap()
    .unwrap();
    assert_eq!(g.events[id].cmd_type, CommandKind::NDRangeKernel);
    assert_eq!(g.events[id].work, Some(Work::Trivial));
    assert_eq!(g.status(id), EventStatus::Queued);
    assert_eq!(q.step(&mut g), Step::Idle);
    q.flush(&mut g);
    assert_eq!(g.status(id), EventStatus::Submitted);
    assert_eq!(q.step(&mut g), Step::Finished(id));
    assert_eq!(g.status(id), EventStatus::Complete);
    assert!(g.events[id].ran);
}

#[test]
fn dispatched_launch_runs_the_backend_closure_once() {
    let p = platform(64, vec![1024, 1024, 1024]);
    let k = kernel(256, [0, 0, 0]);
    let mut g = EventGraph::new();
    let mut q = queue();
    let r = range(1, None, vec![64], None);
    assert!(matches!(
        prepare_ndrange_kernel(&p, &g, &q, &k, &r, &Vec::new()),
        Ok(LaunchPlan::Dispatch(_))
    ));
    let id = enqueue_ndrange_kernel(&p, &mut g, &mut q, &k, &r, &Vec::new(), true, Ok(77))
        .unwrap()
        .unwrap();
    q.flush(&mut g);
    assert_eq!(q.step(&mut g), Step::Run(id, 77));
    assert_eq!(g.status(id), EventStatus::Running);
    assert_eq!(q.step(&mut g), Step::Idle);
    assert_eq!(g.start(id), None);
    g.complete(id, Ok(()));
    assert_eq!(g.status(id), EventStatus::Complete);
}

#[test]
fn backend_failure_is_reported_as_it_stands() {
    let p = platform(64, vec![1024, 1024, 1024]);
    let k = kernel(256, [0, 0, 0]);
    let mut g = EventGraph::new();
    let mut q = queue();
    let r = range(1, None, vec![64], None);
    let res = enqueue_ndrange_kernel(
        &p, &mut g, &mut q, &k, &r, &Vec::new(), true, Err(ErrorKind::OutOfResources),
    );
    assert_eq!(res, Err(ErrorKind::OutOfResources));
    assert_eq!(g.len(), 0);
    assert!(q.pending.is_empty());
    let res = enqueue_ndrange_kernel(
        &p, &mut g, &mut q, &k, &r, &Vec::new(), true,
        Err(ErrorKind::MemObjectAllocationFailure),
    );
    assert_eq!(res, Err(ErrorKind::MemObjectAllocationFailure));
}

#[test]
fn refused_launch_leaves_the_queue_alone() {
    let p = platform(64, vec![1024, 1024, 1024]);
    let k = kernel(256, [0, 0, 0]);
    let mut g = EventGraph::new();
    let mut q = queue();
    let r = range(1, None, vec![65], Some(vec![2]));
    let res = enqueue_ndrange_kernel(&p, &mut g, &mut q, &k, &r, &Vec::new(), true, Ok(1));
    assert_eq!(res, Err(ErrorKind::InvalidWorkGroupSize));
    assert_eq!(g.len(), 0);
    assert!(q.pending.is_empty());
    assert_eq!(q.last, None);
}

#[test]
fn wait_list_is_checked_before_the_launch() {
    let p = platform(64, vec![1024, 1024, 1024]);
    let mut k = kernel(256, [0, 0, 0]);
    k.context = 9;
    let mut g = EventGraph::new();
    let mut q = queue();
    let r = range(1, None, vec![64], None);
    let res = enqueue_ndrange_kernel(&p, &mut g, &mut q, &k, &r, &vec![3], true, Ok(1));
    assert_eq!(res, Err(ErrorKind::InvalidEventWaitList));
}

#[test]
fn task_is_a_launch_of_one_item() {
    let p = platform(64, vec![1024, 1024, 1024]);
    let k = kernel(256, [0, 0, 0]);
    let mut g = EventGraph::new();
    let mut q = queue();
    let id = enqueue_task(&p, &mut g, &mut q, &k, &Vec::new(), true, Ok(3)).unwrap().unwrap();
    assert_eq!(g.events[id].cmd_type, CommandKind::NDRangeKernel);
    assert_eq!(g.events[id].work, Some(Work::Backend(3)));
    let res = enqueue_task(&p, &mut g, &mut q, &k, &Vec::new(), false, Err(ErrorKind::OutOfHostMemory));
    assert_eq!(res, Err(ErrorKind::OutOfHostMemory));
    let k2 = kernel(256, [2, 0, 0]);
    let res = enqueue_task(&p, &mut g, &mut q, &k2, &Vec::new(), false, Ok(4));
    assert_eq!(res, Err(ErrorKind::InvalidWorkGroupSize));
}
