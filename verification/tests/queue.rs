use compute_runtime::device::{Device, DeviceCaps, Platform};
use compute_runtime::error::ErrorKind;
use compute_runtime::event::{CommandKind, EventGraph, EventStatus, Work};
use compute_runtime::queue::{
    check_wait_list_shape, create_command_queue, create_command_queue_impl,
    create_command_queue_with_properties, enqueue_barrier, enqueue_barrier_with_wait_list,
    enqueue_marker, enqueue_marker_with_wait_list, finish, flush, queue_info,
    queue_properties_of, release_command_queue, retain_command_queue,
    set_command_queue_property, supported_command_queue_properties,
    valid_command_queue_properties, Context, Properties, Queue, QueueInfo, Step,
    QUEUE_INFO_CONTEXT, QUEUE_INFO_DEVICE, QUEUE_INFO_DEVICE_DEFAULT, QUEUE_INFO_PROPERTIES,
    QUEUE_INFO_PROPERTIES_ARRAY, QUEUE_INFO_REFERENCE_COUNT, QUEUE_INFO_SIZE,
    QUEUE_ON_DEVICE, QUEUE_ON_DEVICE_DEFAULT, QUEUE_OUT_OF_ORDER_EXEC_MODE_ENABLE,
    QUEUE_PROFILING_ENABLE,
};
use compute_runtime::screen::{
    CompilerOptions, ComputeCaps, LoaderDeviceType, PipeCaps, PlatformConfig, ScreenParams,
    ShaderCaps,
};
use compute_runtime::version::CLVersion;

fn screen(timestamp: i32) -> ScreenParams {
    ScreenParams {
        caps: PipeCaps {
            compute: 1,
            query_timestamp: timestamp,
            timer_resolution: 1,
            max_texture_2d_size: 16384,
            texture_sampler_independent: 1,
            image_store_formatted: 1,
            image_load_formatted: 1,
            max_shader_buffer_size: 1 << 27,
            doubles: 1,
            cl_gl_sharing: 0,
            dmabuf: 0,
            int64: 1,
            max_texture_3d_levels: 12,
            max_texture_array_layers: 2048,
            linear_image_pitch_alignment: 64,
            linear_image_base_address_alignment: 64,
            max_texel_buffer_elements: 1 << 27,
            endianness: 0,
            pci_group: 0,
            pci_bus: 1,
            pci_device: 2,
            pci_function: 3,
            system_svm: 0,
            uma: 0,
            vendor_id: 0x8086,
            prefer_real_buffer_in_constbuf0: 0,
            shareable_shaders: 1,
            nir_images_as_deref: 0,
            nir_samplers_as_deref: 0,
        },
        shader: ShaderCaps {
            max_shader_images: 64,
            max_sampler_views: 128,
            supported_irs: 4,
            max_const_buffer0_size: 4096,
            max_const_buffers: 16,
            fp16: 1,
            max_texture_samplers: 16,
        },
        compute: ComputeCaps {
            address_bits: 64,
            max_global_size: 1 << 32,
            max_local_size: 65536,
            max_block_size: vec![1024, 1024, 1024],
            max_grid_size: vec![65535, 65535, 65535],
            max_clock_frequency: 1000,
            max_compute_units: 8,
            grid_dimension: 3,
            max_mem_alloc_size: 1 << 30,
            max_threads_per_block: 1024,
            subgroup_sizes: 32,
            max_subgroups: 16,
        },
        compiler: CompilerOptions {
            has_sdot_4x8: true,
            has_udot_4x8: true,
            has_sudot_4x8: false,
            has_pack_32_4x8: true,
            has_sdot_4x8_sat: false,
            has_udot_4x8_sat: false,
            has_sudot_4x8_sat: false,
            fp64_full_software: false,
        },
        device_type: LoaderDeviceType::Pci,
        driver_name: String::from("iris"),
        memory_info: None,
        res_handle_supported: true,
        device_uuid: Some([7; 16]),
        driver_uuid: Some([9; 16]),
        fence_fd_supported: true,
    }
}

fn device(timestamp: i32) -> Device {
    let screen = screen(timestamp);
    Device {
        caps: DeviceCaps::new(&screen),
        screen,
        config: PlatformConfig {
            fp16: true,
            fp64: true,
            max_grid_size: u64::MAX,
            reuse_context: true,
            device_type_override: None,
            version_override: None,
        },
        cl_version: CLVersion::Cl3_0,
        clc_version: CLVersion::Cl1_2,
        clc_versions: Vec::new(),
        custom: false,
        embedded: false,
        extension_string: String::new(),
        extensions: Vec::new(),
        spirv_extensions: Vec::new(),
        clc_features: Vec::new(),
        formats: Vec::new(),
        reusable_ctx: Vec::new(),
    }
}

fn platform() -> Platform {
    Platform { devs: vec![device(1), device(0)] }
}

fn context() -> Context {
    Context { id: 1, devs: vec![0, 1] }
}

fn queue() -> Queue {
    create_command_queue(5, &context(), &platform(), 0, 0).unwrap()
}

fn command(q: &mut Queue, g: &mut EventGraph, wait: Vec<usize>, work: Work) -> usize {
    q.submit(g, CommandKind::NDRangeKernel, &wait, true, work).unwrap().unwrap()
}

#[test]
fn queue_property_bits() {
    assert!(valid_command_queue_properties(0));
    assert!(valid_command_queue_properties(
        QUEUE_OUT_OF_ORDER_EXEC_MODE_ENABLE
            | QUEUE_PROFILING_ENABLE
            | QUEUE_ON_DEVICE
            | QUEUE_ON_DEVICE_DEFAULT
    ));
    assert!(!valid_command_queue_properties(16));
    assert!(!valid_command_queue_properties(1 << 40));
    let with_time = device(1);
    let without_time = device(0);
    assert!(supported_command_queue_properties(&with_time, 0));
    assert!(supported_command_queue_properties(&with_time, QUEUE_PROFILING_ENABLE));
    assert!(!supported_command_queue_properties(&without_time, QUEUE_PROFILING_ENABLE));
    assert!(supported_command_queue_properties(&without_time, 0));
    assert!(!supported_command_queue_properties(&with_time, QUEUE_OUT_OF_ORDER_EXEC_MODE_ENABLE));
    assert!(!supported_command_queue_properties(
        &with_time,
        QUEUE_PROFILING_ENABLE | QUEUE_ON_DEVICE
    ));
}

#[test]
fn queue_creation() {
    let p = platform();
    let c = context();
    let q = create_command_queue_impl(9, &c, &p, 0, QUEUE_PROFILING_ENABLE, None).unwrap();
    assert_eq!(q.id, 9);
    assert_eq!(q.context, 1);
    assert_eq!(q.device, 0);
    assert_eq!(q.props, QUEUE_PROFILING_ENABLE);
    assert_eq!(q.refs, 1);
    assert!(q.pending.is_empty() && q.flushed.is_empty());
    assert!(q.is_profiling_enabled());
    assert!(q.in_order());
    assert_eq!(
        create_command_queue_impl(9, &c, &p, 2, 0, None).err(),
        Some(ErrorKind::InvalidDevice)
    );
    let narrow = Context { id: 2, devs: vec![1] };
    assert_eq!(
        create_command_queue_impl(9, &narrow, &p, 0, 0, None).err(),
        Some(ErrorKind::InvalidDevice)
    );
    assert_eq!(
        create_command_queue_impl(9, &c, &p, 0, 32, None).err(),
        Some(ErrorKind::InvalidValue)
    );
    assert_eq!(
        create_command_queue_impl(9, &c, &p, 0, QUEUE_OUT_OF_ORDER_EXEC_MODE_ENABLE, None).err(),
        Some(ErrorKind::InvalidQueueProperties)
    );
    assert_eq!(
        create_command_queue_impl(9, &c, &p, 1, QUEUE_PROFILING_ENABLE, None).err(),
        Some(ErrorKind::InvalidQueueProperties)
    );
    // The device is looked at before the properties.
    assert_eq!(
        create_command_queue_impl(9, &c, &p, 5, 32, None).err(),
        Some(ErrorKind::InvalidDevice)
    );
}

#[test]
fn property_lists_are_parsed() {
    let p = Properties::from_words(&vec![0x1093, 2, 0]).unwrap();
    assert_eq!(p.props, vec![(0x1093, 2)]);
    assert_eq!(p.to_words(), vec![0x1093, 2, 0]);
    let empty = Properties::from_words(&vec![0]).unwrap();
    assert!(empty.props.is_empty());
    assert_eq!(empty.to_words(), vec![0]);
    let two = Properties::from_words(&vec![5, 6, 7, 0, 0, 99]).unwrap();
    assert_eq!(two.props, vec![(5, 6), (7, 0)]);
    assert!(Properties::from_words(&Vec::new()).is_none());
    assert!(Properties::from_words(&vec![1, 2]).is_none());
    assert!(Properties::from_words(&vec![1, 2, 3]).is_none());
    assert!(Properties::from_words(&vec![1, 2, 1, 3, 0]).is_none());
    assert_eq!(Properties::position_of(&vec![(4, 1), (5, 2)], 5), Some(1));
    assert_eq!(Properties::position_of(&vec![(4, 1), (5, 2)], 6), None);
}

#[test]
fn property_lists_ask_for_property_bits() {
    let asks = |words: Vec<u64>| queue_properties_of(&Properties::from_words(&words).unwrap());
    assert_eq!(asks(vec![0]), Ok(0));
    assert_eq!(asks(vec![0x1093, 2, 0]), Ok(2));
    assert_eq!(asks(vec![0x1094, 64, 0]), Err(ErrorKind::InvalidQueueProperties));
    assert_eq!(asks(vec![0x2000, 1, 0]), Err(ErrorKind::InvalidProperty));
    assert_eq!(asks(vec![0x2000, 1, 0x1094, 1, 0]), Err(ErrorKind::InvalidProperty));
    assert_eq!(asks(vec![0x1094, 1, 0x2000, 1, 0]), Err(ErrorKind::InvalidQueueProperties));
    // Only the low 32 bits of a key count.
    assert_eq!(asks(vec![0x7_0000_1093, 2, 0]), Ok(2));
}

#[test]
fn queue_creation_from_a_property_list() {
    let p = platform();
    let c = context();
    let q = create_command_queue_with_properties(3, &c, &p, 0, Some(&vec![0x1093, 2, 0])).unwrap();
    assert_eq!(q.props, 2);
    assert_eq!(q.props_v2.as_ref().unwrap().props, vec![(0x1093, 2)]);
    let plain = create_command_queue_with_properties(3, &c, &p, 0, None).unwrap();
    assert_eq!(plain.props, 0);
    assert!(plain.props_v2.is_none());
    let err = |words: Vec<u64>, dev: usize| {
        create_command_queue_with_properties(3, &c, &p, dev, Some(&words)).err()
    };
    assert_eq!(err(vec![0x1093, 2], 0), Some(ErrorKind::InvalidProperty));
    assert_eq!(err(vec![0x1093, 2, 0x1093, 0, 0], 0), Some(ErrorKind::InvalidProperty));
    assert_eq!(err(vec![0x1094, 8, 0], 0), Some(ErrorKind::InvalidQueueProperties));
    assert_eq!(err(vec![0x1111, 8, 0], 0), Some(ErrorKind::InvalidProperty));
    assert_eq!(err(vec![0x1093, 64, 0], 0), Some(ErrorKind::InvalidValue));
    assert_eq!(err(vec![0x1093, 1, 0], 0), Some(ErrorKind::InvalidQueueProperties));
    assert_eq!(err(vec![0x1093, 2, 0], 1), Some(ErrorKind::InvalidQueueProperties));
    assert_eq!(err(vec![0x1093, 2, 0], 7), Some(ErrorKind::InvalidDevice));
    // A bad list is reported before a bad device.
    assert_eq!(err(vec![0x1111, 8, 0], 7), Some(ErrorKind::InvalidProperty));
}

#[test]
fn queue_queries() {
    let p = platform();
    let c = context();
    let q = create_command_queue_with_properties(3, &c, &p, 0, Some(&vec![0x1093, 2, 0])).unwrap();
    assert!(matches!(queue_info(&q, QUEUE_INFO_CONTEXT), Ok(QueueInfo::Context(1))));
    assert!(matches!(queue_info(&q, QUEUE_INFO_DEVICE), Ok(QueueInfo::Device(0))));
    assert!(matches!(queue_info(&q, QUEUE_INFO_DEVICE_DEFAULT), Ok(QueueInfo::DeviceDefault)));
    assert!(matches!(queue_info(&q, QUEUE_INFO_PROPERTIES), Ok(QueueInfo::Properties(2))));
    assert!(matches!(queue_info(&q, QUEUE_INFO_REFERENCE_COUNT), Ok(QueueInfo::ReferenceCount(1))));
    assert!(matches!(
        queue_info(&q, QUEUE_INFO_PROPERTIES_ARRAY),
        Ok(QueueInfo::PropertiesArray(w)) if w == vec![0x1093, 2, 0]
    ));
    assert!(matches!(queue_info(&q, QUEUE_INFO_SIZE), Err(ErrorKind::InvalidCommandQueue)));
    assert!(matches!(queue_info(&q, 0x1099), Err(ErrorKind::InvalidValue)));
    let plain = queue();
    assert!(matches!(
        queue_info(&plain, QUEUE_INFO_PROPERTIES_ARRAY),
        Ok(QueueInfo::PropertiesArray(w)) if w.is_empty()
    ));
    assert_eq!(set_command_queue_property(&q, 2, true), Err(ErrorKind::InvalidOperation));
}

#[test]
fn wait_list_shape() {
    assert_eq!(check_wait_list_shape(false, 0), Ok(()));
    assert_eq!(check_wait_list_shape(true, 3), Ok(()));
    assert_eq!(check_wait_list_shape(true, 0), Err(ErrorKind::InvalidEventWaitList));
    assert_eq!(check_wait_list_shape(false, 1), Err(ErrorKind::InvalidEventWaitList));
}

#[test]
fn wait_list_entries_are_checked() {
    let mut g = EventGraph::new();
    let mut q = queue();
    let held = command(&mut q, &mut g, Vec::new(), Work::Backend(1));
    let unheld = q
        .submit(&mut g, CommandKind::Marker, &Vec::new(), false, Work::Trivial)
        .unwrap();
    assert_eq!(unheld, None);
    let foreign = g.add(CommandKind::User, 2, None, Vec::new(), Work::Trivial, true);
    assert_eq!(q.check_wait_list(&g, &vec![held]), Ok(()));
    assert_eq!(q.check_wait_list(&g, &vec![held, 1]), Err(ErrorKind::InvalidEventWaitList));
    assert_eq!(q.check_wait_list(&g, &vec![held, 17]), Err(ErrorKind::InvalidEventWaitList));
    assert_eq!(q.check_wait_list(&g, &vec![held, foreign]), Err(ErrorKind::InvalidContext));
    // A handle that is no event beats an event of another context.
    assert_eq!(q.check_wait_list(&g, &vec![foreign, 17]), Err(ErrorKind::InvalidEventWaitList));
    let before = g.len();
    let pending = q.pending.clone();
    assert_eq!(
        q.submit(&mut g, CommandKind::NDRangeKernel, &vec![foreign], true, Work::Trivial),
        Err(ErrorKind::InvalidContext)
    );
    assert_eq!(g.len(), before);
    assert_eq!(q.pending, pending);
}

#[test]
fn in_order_queue_chains_its_commands() {
    let mut g = EventGraph::new();
    let mut q = queue();
    let a = command(&mut q, &mut g, Vec::new(), Work::Backend(1));
    let b = command(&mut q, &mut g, Vec::new(), Work::Backend(2));
    let c = command(&mut q, &mut g, vec![a], Work::Backend(3));
    assert!(g.events[a].deps.is_empty());
    assert_eq!(g.events[b].deps, vec![a]);
    assert_eq!(g.events[c].deps, vec![a, b]);
    assert_eq!(q.pending, vec![a, b, c]);
    assert_eq!(q.last, Some(c));
    assert_eq!(g.events[c].queue, Some(5));
    assert_eq!(g.events[c].context, 1);
    assert_eq!(g.events[c].client_refs, 1);
    assert!(g.events[c].queue_held);
}

#[test]
fn out_of_order_queue_waits_on_its_barrier_only() {
    let mut g = EventGraph::new();
    let mut q = queue();
    q.props = QUEUE_OUT_OF_ORDER_EXEC_MODE_ENABLE;
    assert!(!q.in_order());
    let a = command(&mut q, &mut g, Vec::new(), Work::Backend(1));
    let b = command(&mut q, &mut g, Vec::new(), Work::Backend(2));
    assert!(g.events[b].deps.is_empty());
    enqueue_barrier(&mut q, &mut g);
    let barrier = q.barrier.unwrap();
    assert_eq!(g.events[barrier].cmd_type, CommandKind::Barrier);
    assert_eq!(g.events[barrier].deps, vec![a, b]);
    assert_eq!(g.events[barrier].client_refs, 0);
    let c = command(&mut q, &mut g, Vec::new(), Work::Backend(3));
    assert_eq!(g.events[c].deps, vec![barrier]);
}

#[test]
fn marker_waits_on_its_list_or_on_everything() {
    let mut g = EventGraph::new();
    let mut q = queue();
    q.props = QUEUE_OUT_OF_ORDER_EXEC_MODE_ENABLE;
    let a = command(&mut q, &mut g, Vec::new(), Work::Backend(1));
    let b = command(&mut q, &mut g, Vec::new(), Work::Backend(2));
    flush(&mut q, &mut g);
    let c = command(&mut q, &mut g, Vec::new(), Work::Backend(3));
    let all = enqueue_marker(&mut q, &mut g, true).unwrap().unwrap();
    assert_eq!(g.events[all].cmd_type, CommandKind::Marker);
    assert_eq!(g.events[all].deps, vec![a, b, c]);
    assert_eq!(g.events[all].work, Some(Work::Trivial));
    let one = enqueue_marker_with_wait_list(&mut q, &mut g, &vec![b], true).unwrap().unwrap();
    assert_eq!(g.events[one].deps, vec![b]);
    let none = enqueue_marker_with_wait_list(&mut q, &mut g, &Vec::new(), false).unwrap();
    assert_eq!(none, None);
    assert_eq!(g.events[g.len() - 1].deps, vec![a, b, c, all, one]);
    assert_eq!(
        enqueue_marker_with_wait_list(&mut q, &mut g, &vec![99], true),
        Err(ErrorKind::InvalidEventWaitList)
    );
}

#[test]
fn barrier_waits_on_its_list_and_on_everything() {
    let mut g = EventGraph::new();
    let mut q = queue();
    let mut other = create_command_queue(6, &context(), &platform(), 1, 0).unwrap();
    let x = command(&mut other, &mut g, Vec::new(), Work::Backend(9));
    let a = command(&mut q, &mut g, Vec::new(), Work::Backend(1));
    let bar = enqueue_barrier_with_wait_list(&mut q, &mut g, &vec![x], true).unwrap().unwrap();
    // The list, then all that is queued, then the command queued last.
    assert_eq!(g.events[bar].deps, vec![x, a, a]);
    assert_eq!(q.barrier, Some(bar));
    assert_eq!(
        enqueue_barrier_with_wait_list(&mut q, &mut g, &vec![77], false),
        Err(ErrorKind::InvalidEventWaitList)
    );
    assert_eq!(q.barrier, Some(bar));
}

#[test]
fn flushing_twice_submits_nothing_twice() {
    let mut g = EventGraph::new();
    let mut q = queue();
    let a = command(&mut q, &mut g, Vec::new(), Work::Backend(1));
    let b = command(&mut q, &mut g, Vec::new(), Work::Backend(2));
    assert_eq!(flush(&mut q, &mut g), vec![a, b]);
    assert_eq!(g.status(a), EventStatus::Submitted);
    assert_eq!(g.status(b), EventStatus::Submitted);
    assert_eq!(q.flushed, vec![a, b]);
    assert!(q.pending.is_empty());
    assert_eq!(flush(&mut q, &mut g), Vec::<usize>::new());
    assert_eq!(q.flushed, vec![a, b]);
    assert_eq!(g.status(a), EventStatus::Submitted);
    let c = command(&mut q, &mut g, Vec::new(), Work::Backend(3));
    assert_eq!(flush(&mut q, &mut g), vec![c]);
    assert_eq!(q.flushed, vec![a, b, c]);
}

#[test]
fn flush_leaves_failed_commands_failed() {
    let mut g = EventGraph::new();
    let mut q = queue();
    let a = command(&mut q, &mut g, Vec::new(), Work::Backend(1));
    g.fail(a, ErrorKind::OutOfResources);
    assert_eq!(flush(&mut q, &mut g), vec![a]);
    assert_eq!(g.status(a), EventStatus::Error(ErrorKind::OutOfResources));
}

#[test]
fn commands_run_in_order_of_their_dependencies() {
    let mut g = EventGraph::new();
    let mut q = queue();
    let a = command(&mut q, &mut g, Vec::new(), Work::Backend(1));
    let b = command(&mut q, &mut g, Vec::new(), Work::Trivial);
    let c = command(&mut q, &mut g, Vec::new(), Work::Backend(3));
    assert_eq!(q.step(&mut g), Step::Idle);
    flush(&mut q, &mut g);
    assert_eq!(q.step(&mut g), Step::Run(a, 1));
    assert_eq!(q.step(&mut g), Step::Idle);
    g.complete(a, Ok(()));
    assert_eq!(q.step(&mut g), Step::Finished(b));
    assert_eq!(g.status(b), EventStatus::Complete);
    assert_eq!(q.step(&mut g), Step::Run(c, 3));
    g.complete(c, Ok(()));
    assert_eq!(q.step(&mut g), Step::Idle);
    assert!(q.is_drained(&g));
}

#[test]
fn finish_names_what_to_wait_for() {
    let mut g = EventGraph::new();
    let mut q = queue();
    let a = command(&mut q, &mut g, Vec::new(), Work::Trivial);
    flush(&mut q, &mut g);
    let b = command(&mut q, &mut g, Vec::new(), Work::Trivial);
    assert!(!q.is_drained(&g));
    assert_eq!(finish(&mut q, &mut g), vec![a, b]);
    assert!(q.pending.is_empty());
    assert_eq!(g.status(b), EventStatus::Submitted);
    assert!(!q.is_drained(&g));
    assert_eq!(q.step(&mut g), Step::Finished(a));
    assert_eq!(q.step(&mut g), Step::Finished(b));
    assert!(q.is_drained(&g));
    assert_eq!(finish(&mut q, &mut g), vec![a, b]);
}

#[test]
fn retiring_strikes_terminal_commands() {
    let mut g = EventGraph::new();
    let mut q = queue();
    let a = command(&mut q, &mut g, Vec::new(), Work::Trivial);
    let b = q
        .submit(&mut g, CommandKind::NDRangeKernel, &Vec::new(), false, Work::Trivial)
        .unwrap();
    assert_eq!(b, None);
    let b = g.len() - 1;
    let c = command(&mut q, &mut g, Vec::new(), Work::Backend(4));
    flush(&mut q, &mut g);
    q.step(&mut g);
    q.step(&mut g);
    assert_eq!(q.step(&mut g), Step::Run(c, 4));
    // `a` is still held by the client, `b` by nobody, `c` is running.
    assert_eq!(q.retire(&mut g), vec![b]);
    assert_eq!(q.flushed, vec![c]);
    assert!(!g.events[a].queue_held);
    assert!(!g.events[b].queue_held);
    assert!(g.events[c].queue_held);
    assert_eq!(g.release(a), Ok(true));
    assert_eq!(g.release(a), Err(ErrorKind::InvalidEvent));
    assert_eq!(g.release(c), Ok(false));
    g.complete(c, Err(ErrorKind::OutOfResources));
    assert_eq!(q.retire(&mut g), vec![c]);
    assert!(q.flushed.is_empty());
}

#[test]
fn releasing_a_queue_flushes_it() {
    let mut g = EventGraph::new();
    let mut q = queue();
    let a = command(&mut q, &mut g, Vec::new(), Work::Trivial);
    assert_eq!(retain_command_queue(&mut q), Ok(()));
    assert_eq!(q.refs, 2);
    assert_eq!(release_command_queue(&mut q, &mut g), Ok((vec![a], false)));
    assert_eq!(g.status(a), EventStatus::Submitted);
    assert_eq!(release_command_queue(&mut q, &mut g), Ok((Vec::new(), true)));
    assert_eq!(release_command_queue(&mut q, &mut g), Err(ErrorKind::InvalidCommandQueue));
    assert_eq!(retain_command_queue(&mut q), Err(ErrorKind::InvalidCommandQueue));
    q.refs = u32::MAX;
    assert_eq!(retain_command_queue(&mut q), Err(ErrorKind::OutOfHostMemory));
}

#[test]
fn abandoned_commands_end_in_error() {
    let mut g = EventGraph::new();
    let mut q = queue();
    let a = command(&mut q, &mut g, Vec::new(), Work::Backend(1));
    flush(&mut q, &mut g);
    assert_eq!(q.step(&mut g), Step::Run(a, 1));
    let b = command(&mut q, &mut g, Vec::new(), Work::Backend(2));
    let c = command(&mut q, &mut g, Vec::new(), Work::Backend(3));
    q.abandon(&mut g, ErrorKind::InvalidCommandQueue);
    assert_eq!(g.status(a), EventStatus::Running);
    assert_eq!(g.status(b), EventStatus::Error(ErrorKind::InvalidCommandQueue));
    assert_eq!(g.status(c), EventStatus::Error(ErrorKind::InvalidCommandQueue));
    assert!(!g.events[b].ran && !g.events[c].ran);
    assert_eq!(g.events[b].work, None);
}

#[test]
fn failure_reaches_what_is_queued_after_it_in_order() {
    let mut g = EventGraph::new();
    let mut q = queue();
    let a = command(&mut q, &mut g, Vec::new(), Work::Backend(1));
    let b = command(&mut q, &mut g, Vec::new(), Work::Backend(2));
    flush(&mut q, &mut g);
    assert_eq!(q.step(&mut g), Step::Run(a, 1));
    g.complete(a, Err(ErrorKind::OutOfResources));
    assert_eq!(g.status(b), EventStatus::Error(ErrorKind::OutOfResources));
    assert_eq!(q.step(&mut g), Step::Idle);
    // The command queued next waits on `b` and starts out failed.
    let c = command(&mut q, &mut g, Vec::new(), Work::Backend(3));
    assert_eq!(g.status(c), EventStatus::Error(ErrorKind::OutOfResources));
    assert_eq!(g.events[c].work, None);
    assert!(q.is_drained(&g));
}

#[test]
fn several_events_fail_at_once() {
    let mut g = EventGraph::new();
    let a = g.add(CommandKind::NDRangeKernel, 1, None, Vec::new(), Work::Backend(1), true);
    let b = g.add(CommandKind::NDRangeKernel, 1, None, Vec::new(), Work::Backend(2), true);
    let c = g.add(CommandKind::NDRangeKernel, 1, None, vec![a], Work::Backend(3), true);
    let d = g.add(CommandKind::NDRangeKernel, 1, None, Vec::new(), Work::Trivial, true);
    g.mark_submitted(d);
    g.start(d);
    g.complete(d, Ok(()));
    g.fail_all(&vec![a, d, a], ErrorKind::InvalidCommandQueue);
    assert_eq!(g.status(a), EventStatus::Error(ErrorKind::InvalidCommandQueue));
    assert_eq!(g.status(b), EventStatus::Queued);
    assert_eq!(g.status(c), EventStatus::Error(ErrorKind::InvalidCommandQueue));
    assert_eq!(g.status(d), EventStatus::Complete);
    g.fail_all(&Vec::new(), ErrorKind::InvalidValue);
    assert_eq!(g.status(b), EventStatus::Queued);
}
