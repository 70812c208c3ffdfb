//! Queries about kernels.

use vstd::prelude::*;
use crate::device::Platform;
use crate::device::sizes_in_mask;
use crate::error::ErrorKind;
use crate::kernel::Kernel;
use crate::launch::product;
use crate::queue::contains_device;

verus! {

/// Query: the kernel's name.
pub const KERNEL_FUNCTION_NAME: u32 = 0x1190;

/// Query: the number of the kernel's parameters.
pub const KERNEL_NUM_ARGS: u32 = 0x1191;

/// Query: the number of handles on the kernel.
pub const KERNEL_REFERENCE_COUNT: u32 = 0x1192;

/// Query: the kernel's context.
pub const KERNEL_CONTEXT: u32 = 0x1193;

/// Query: the kernel's program.
pub const KERNEL_PROGRAM: u32 = 0x1194;

/// Query: the attributes the kernel was declared with.
pub const KERNEL_ATTRIBUTES: u32 = 0x1195;

/// Query: the address space of a parameter.
pub const KERNEL_ARG_ADDRESS_QUALIFIER: u32 = 0x1196;

/// Query: the access a parameter is declared with.
pub const KERNEL_ARG_ACCESS_QUALIFIER: u32 = 0x1197;

/// Query: the name of a parameter's type.
pub const KERNEL_ARG_TYPE_NAME: u32 = 0x1198;

/// Query: the qualifiers of a parameter's type.
pub const KERNEL_ARG_TYPE_QUALIFIER: u32 = 0x1199;

/// Query: the name of a parameter.
pub const KERNEL_ARG_NAME: u32 = 0x119A;

/// Query: the largest work-group the kernel can run with.
pub const KERNEL_WORK_GROUP_SIZE: u32 = 0x11B0;

/// Query: the work-group size the source requires.
pub const KERNEL_COMPILE_WORK_GROUP_SIZE: u32 = 0x11B1;

/// Query: the local memory the kernel uses.
pub const KERNEL_LOCAL_MEM_SIZE: u32 = 0x11B2;

/// Query: the multiple that work-group sizes should be of.
pub const KERNEL_PREFERRED_WORK_GROUP_SIZE_MULTIPLE: u32 = 0x11B3;

/// Query: the private memory the kernel uses.
pub const KERNEL_PRIVATE_MEM_SIZE: u32 = 0x11B4;

/// Query: the work-group size that gives a number of subgroups.
pub const KERNEL_LOCAL_SIZE_FOR_SUB_GROUP_COUNT: u32 = 0x11B8;

/// Query: the largest number of subgroups in a work-group.
pub const KERNEL_MAX_NUM_SUB_GROUPS: u32 = 0x11B9;

/// Query: the number of subgroups the source requires.
pub const KERNEL_COMPILE_NUM_SUB_GROUPS: u32 = 0x11BA;

/// Query: the subgroup size for a work-group size.
pub const KERNEL_MAX_SUB_GROUP_SIZE_FOR_NDRANGE: u32 = 0x2033;

/// Query: the number of subgroups for a work-group size.
pub const KERNEL_SUB_GROUP_COUNT_FOR_NDRANGE: u32 = 0x2034;

/// Query: the subgroup size the source requires.
pub const KERNEL_COMPILE_SUB_GROUP_SIZE: u32 = 0x410A;

/// The answer to a query about a kernel.
#[derive(Debug)]
pub enum KernelInfo {
    Text(String),
    /// Identity of a context.
    Context(u64),
    /// Handle of a program.
    Program(u64),
    Uint(u32),
    Ulong(u64),
    Size(usize),
    Sizes(Vec<usize>),
}

/// The mathematical content of an answer.
pub enum KernelInfoView {
    Text(Seq<char>),
    Context(u64),
    Program(u64),
    Uint(u32),
    Ulong(u64),
    Size(usize),
    Sizes(Seq<usize>),
}

impl View for KernelInfo {
    type V = KernelInfoView;

    open spec fn view(&self) -> KernelInfoView {
        match self {
            KernelInfo::Text(s) => KernelInfoView::Text(s@),
            KernelInfo::Context(c) => KernelInfoView::Context(*c),
            KernelInfo::Program(p) => KernelInfoView::Program(*p),
            KernelInfo::Uint(n) => KernelInfoView::Uint(*n),
            KernelInfo::Ulong(n) => KernelInfoView::Ulong(*n),
            KernelInfo::Size(n) => KernelInfoView::Size(*n),
            KernelInfo::Sizes(v) => KernelInfoView::Sizes(v@),
        }
    }
}

/// The answer to the query `param` about `kernel`; a name that is not
/// known is an invalid value.
pub open spec fn spec_kernel_info(kernel: &Kernel, param: u32) -> Result<KernelInfoView, ErrorKind> {
    if param == KERNEL_ATTRIBUTES {
        Ok(KernelInfoView::Text(kernel.attributes_string@))
    } else if param == KERNEL_CONTEXT {
        Ok(KernelInfoView::Context(kernel.context))
    } else if param == KERNEL_FUNCTION_NAME {
        Ok(KernelInfoView::Text(kernel.name@))
    } else if param == KERNEL_NUM_ARGS {
        Ok(KernelInfoView::Uint(kernel.args@.len() as u32))
    } else if param == KERNEL_PROGRAM {
        Ok(KernelInfoView::Program(kernel.program))
    } else if param == KERNEL_REFERENCE_COUNT {
        Ok(KernelInfoView::Uint(kernel.refs))
    } else {
        Err(ErrorKind::InvalidValue)
    }
}

/// Answers a query about a kernel.
pub fn kernel_info(kernel: &Kernel, param: u32) -> (r: Result<KernelInfo, ErrorKind>)
    ensures
        match r {
            Ok(info) => spec_kernel_info(kernel, param) == Ok::<KernelInfoView, ErrorKind>(info@),
            Err(e) => spec_kernel_info(kernel, param) == Err::<KernelInfoView, ErrorKind>(e),
        },
{
    if param == KERNEL_ATTRIBUTES {
        Ok(KernelInfo::Text(kernel.attributes_string.clone()))
    } else if param == KERNEL_CONTEXT {
        Ok(KernelInfo::Context(kernel.context))
    } else if param == KERNEL_FUNCTION_NAME {
        Ok(KernelInfo::Text(kernel.name.clone()))
    } else if param == KERNEL_NUM_ARGS {
        Ok(
            KernelInfo::Uint(
                #[verifier::truncate]
                (kernel.args.len() as u32),
            ),
        )
    } else if param == KERNEL_PROGRAM {
        Ok(KernelInfo::Program(kernel.program))
    } else if param == KERNEL_REFERENCE_COUNT {
        Ok(KernelInfo::Uint(kernel.refs))
    } else {
        Err(ErrorKind::InvalidValue)
    }
}

/// The answer to the query `param` about parameter `idx` of `kernel`: an
/// index that names no parameter is an invalid index, a name that is not
/// known an invalid value.
pub open spec fn spec_kernel_arg_info(kernel: &Kernel, idx: u32, param: u32) -> Result<
    KernelInfoView,
    ErrorKind,
> {
    if idx >= kernel.args@.len() {
        Err(ErrorKind::InvalidArgIndex)
    } else {
        let arg = kernel.args@[idx as int];
        if param == KERNEL_ARG_ACCESS_QUALIFIER {
            Ok(KernelInfoView::Uint(arg.access_qualifier))
        } else if param == KERNEL_ARG_ADDRESS_QUALIFIER {
            Ok(KernelInfoView::Uint(arg.address_qualifier))
        } else if param == KERNEL_ARG_NAME {
            Ok(KernelInfoView::Text(arg.name@))
        } else if param == KERNEL_ARG_TYPE_NAME {
            Ok(KernelInfoView::Text(arg.ty_name@))
        } else if param == KERNEL_ARG_TYPE_QUALIFIER {
            Ok(KernelInfoView::Ulong(arg.type_qualifier))
        } else {
            Err(ErrorKind::InvalidValue)
        }
    }
}

/// Answers a query about a parameter of a kernel.
pub fn kernel_arg_info(kernel: &Kernel, idx: u32, param: u32) -> (r: Result<KernelInfo, ErrorKind>)
    ensures
        match r {
            Ok(info) => spec_kernel_arg_info(kernel, idx, param) == Ok::<KernelInfoView, ErrorKind>(
                info@,
            ),
            Err(e) => spec_kernel_arg_info(kernel, idx, param) == Err::<KernelInfoView, ErrorKind>(
                e,
            ),
        },
{
    if idx as usize >= kernel.args.len() {
        return Err(ErrorKind::InvalidArgIndex);
    }
    let arg = &kernel.args[idx as usize];
    if param == KERNEL_ARG_ACCESS_QUALIFIER {
        Ok(KernelInfo::Uint(arg.access_qualifier))
    } else if param == KERNEL_ARG_ADDRESS_QUALIFIER {
        Ok(KernelInfo::Uint(arg.address_qualifier))
    } else if param == KERNEL_ARG_NAME {
        Ok(KernelInfo::Text(arg.name.clone()))
    } else if param == KERNEL_ARG_TYPE_NAME {
        Ok(KernelInfo::Text(arg.ty_name.clone()))
    } else if param == KERNEL_ARG_TYPE_QUALIFIER {
        Ok(KernelInfo::Ulong(arg.type_qualifier))
    } else {
        Err(ErrorKind::InvalidValue)
    }
}

/// The device a query is about: the one named, or, where none is named,
/// the kernel's only device. It must be a device of the platform and of
/// the kernel.
pub open spec fn queried_device(kernel: &Kernel, platform: &Platform, dev: Option<usize>) -> Result<
    usize,
    ErrorKind,
> {
    match dev {
        None => if kernel.devs@.len() != 1 || kernel.devs@[0] >= platform.devs@.len() {
            Err(ErrorKind::InvalidDevice)
        } else {
            Ok(kernel.devs@[0])
        },
        Some(d) => if d >= platform.devs@.len() || !kernel.devs@.contains(d) {
            Err(ErrorKind::InvalidDevice)
        } else {
            Ok(d)
        },
    }
}

/// Finds the device a query is about.
pub fn resolve_device(kernel: &Kernel, platform: &Platform, dev: Option<usize>) -> (r: Result<
    usize,
    ErrorKind,
>)
    ensures
        r == queried_device(kernel, platform, dev),
{
    match dev {
        None => {
            if kernel.devs.len() != 1 || kernel.devs[0] >= platform.devs.len() {
                Err(ErrorKind::InvalidDevice)
            } else {
                Ok(kernel.devs[0])
            }
        },
        Some(d) => {
            if d >= platform.devs.len() || !contains_device(&kernel.devs, d) {
                Err(ErrorKind::InvalidDevice)
            } else {
                Ok(d)
            }
        },
    }
}

impl Kernel {
    /// The local memory the kernel uses on `device`; zero without a build.
    pub open spec fn spec_local_mem_size(&self, device: usize) -> u64 {
        let i = Self::build_index(self.builds@, device);
        if i < self.builds@.len() {
            self.builds@[i].local_mem_size
        } else {
            0
        }
    }

    /// The private memory the kernel uses on `device`; zero without a build.
    pub open spec fn spec_priv_mem_size(&self, device: usize) -> u64 {
        let i = Self::build_index(self.builds@, device);
        if i < self.builds@.len() {
            self.builds@[i].priv_mem_size
        } else {
            0
        }
    }

    /// The multiple that work-group sizes should be of on `device`; zero
    /// without a build.
    pub open spec fn spec_preferred_simd_size(&self, device: usize) -> usize {
        let i = Self::build_index(self.builds@, device);
        if i < self.builds@.len() {
            self.builds@[i].preferred_simd_size
        } else {
            0
        }
    }

    /// The subgroup sizes the kernel can run with on `device`, largest
    /// first; none without a build.
    pub open spec fn spec_subgroup_sizes(&self, device: usize) -> Seq<usize> {
        let i = Self::build_index(self.builds@, device);
        if i < self.builds@.len() {
            sizes_in_mask(self.builds@[i].simd_sizes, 32)
        } else {
            Seq::empty()
        }
    }

    /// The local memory the kernel uses on `device`.
    pub fn local_mem_size(&self, device: usize) -> (n: u64)
        ensures
            n == self.spec_local_mem_size(device),
    {
        match self.find_build(device) {
            Some(i) => self.builds[i].local_mem_size,
            None => 0,
        }
    }

    /// The private memory the kernel uses on `device`.
    pub fn priv_mem_size(&self, device: usize) -> (n: u64)
        ensures
            n == self.spec_priv_mem_size(device),
    {
        match self.find_build(device) {
            Some(i) => self.builds[i].priv_mem_size,
            None => 0,
        }
    }

    /// The multiple that work-group sizes should be of on `device`.
    pub fn preferred_simd_size(&self, device: usize) -> (n: usize)
        ensures
            n == self.spec_preferred_simd_size(device),
    {
        match self.find_build(device) {
            Some(i) => self.builds[i].preferred_simd_size,
            None => 0,
        }
    }

    /// The subgroup sizes the kernel can run with on `device`, largest first.
    pub fn subgroup_sizes(&self, device: usize) -> (sizes: Vec<usize>)
        ensures
            sizes@ == self.spec_subgroup_sizes(device),
    {
        match self.find_build(device) {
            Some(i) => mask_sizes(self.builds[i].simd_sizes),
            None => Vec::new(),
        }
    }
}

/// The sizes a mask of powers of two offers, largest first.
pub fn mask_sizes(mask: u32) -> (sizes: Vec<usize>)
    ensures
        sizes@ == sizes_in_mask(mask, 32),
{
    let mut sizes: Vec<usize> = Vec::new();
    let mut n: u32 = 32;
    while n > 0
        invariant
            n <= 32,
            sizes@ + sizes_in_mask(mask, n as int) == sizes_in_mask(mask, 32),
        decreases n,
    {
        let bit: u32 = n - 1;
        let ghost before = sizes@;
        if (mask >> bit) & 1u32 == 1u32 {
            sizes.push(1usize << (bit as usize));
            assert(sizes@ + sizes_in_mask(mask, n - 1) == before + sizes_in_mask(mask, n as int));
        }
        n = n - 1;
    }
    assert(sizes@ + Seq::<usize>::empty() == sizes@);
    sizes
}

/// The answer to the work-group query `param` about `kernel` on the device
/// the query is about.
pub open spec fn spec_kernel_work_group_info(
    kernel: &Kernel,
    platform: &Platform,
    dev: Option<usize>,
    param: u32,
) -> Result<KernelInfoView, ErrorKind> {
    match queried_device(kernel, platform, dev) {
        Err(e) => Err(e),
        Ok(d) => if param == KERNEL_COMPILE_WORK_GROUP_SIZE {
            Ok(KernelInfoView::Sizes(kernel.work_group_size@))
        } else if param == KERNEL_LOCAL_MEM_SIZE {
            Ok(KernelInfoView::Ulong(kernel.spec_local_mem_size(d)))
        } else if param == KERNEL_PREFERRED_WORK_GROUP_SIZE_MULTIPLE {
            Ok(KernelInfoView::Size(kernel.spec_preferred_simd_size(d)))
        } else if param == KERNEL_PRIVATE_MEM_SIZE {
            Ok(KernelInfoView::Ulong(kernel.spec_priv_mem_size(d)))
        } else if param == KERNEL_WORK_GROUP_SIZE {
            Ok(KernelInfoView::Size(kernel.spec_max_threads_per_block(d)))
        } else {
            Err(ErrorKind::InvalidValue)
        },
    }
}

/// Answers a work-group query about a kernel.
pub fn kernel_work_group_info(kernel: &Kernel, platform: &Platform, dev: Option<usize>, param: u32) -> (r:
    Result<KernelInfo, ErrorKind>)
    ensures
        match r {
            Ok(info) => spec_kernel_work_group_info(kernel, platform, dev, param) == Ok::<
                KernelInfoView,
                ErrorKind,
            >(info@),
            Err(e) => spec_kernel_work_group_info(kernel, platform, dev, param) == Err::<
                KernelInfoView,
                ErrorKind,
            >(e),
        },
{
    broadcast use vstd::array::array_len_matches_n;

    let d = match resolve_device(kernel, platform, dev) {
        Ok(d) => d,
        Err(e) => {
            return Err(e);
        },
    };
    if param == KERNEL_COMPILE_WORK_GROUP_SIZE {
        let mut sizes: Vec<usize> = Vec::new();
        sizes.push(kernel.work_group_size[0]);
        sizes.push(kernel.work_group_size[1]);
        sizes.push(kernel.work_group_size[2]);
        assert(sizes@ =~= kernel.work_group_size@);
        Ok(KernelInfo::Sizes(sizes))
    } else if param == KERNEL_LOCAL_MEM_SIZE {
        Ok(KernelInfo::Ulong(kernel.local_mem_size(d)))
    } else if param == KERNEL_PREFERRED_WORK_GROUP_SIZE_MULTIPLE {
        Ok(KernelInfo::Size(kernel.preferred_simd_size(d)))
    } else if param == KERNEL_PRIVATE_MEM_SIZE {
        Ok(KernelInfo::Ulong(kernel.priv_mem_size(d)))
    } else if param == KERNEL_WORK_GROUP_SIZE {
        Ok(KernelInfo::Size(kernel.max_threads_per_block(d)))
    } else {
        Err(ErrorKind::InvalidValue)
    }
}


/// What the backend answered when asked which subgroup size it would pick.
///
/// The answers are looked at only where a kernel's build offers several
/// subgroup sizes; with a single size, or none, the build decides.
#[derive(Debug)]
pub struct SubgroupAnswers {
    /// The size picked for the work-group size passed to the query.
    pub for_input: usize,
    /// The size picked for a work-group of `n` times the `i`-th subgroup
    /// size of the build, `n` being the number of subgroups asked for. A
    /// pick that is missing counts as zero.
    pub for_candidates: Vec<usize>,
}

/// The size in bytes of a machine word.
pub open spec fn spec_word_size() -> usize {
    (usize::BITS / 8) as usize
}

/// The size in bytes of a machine word.
pub fn word_size() -> (w: usize)
    ensures
        w == spec_word_size(),
        w == 4 || w == 8,
{
    (usize::BITS / 8) as usize
}

/// The subgroup size used with a build that offers `sizes`: none where it
/// offers none, its only size where it offers one, else the backend's pick.
pub open spec fn subgroup_size_for(sizes: Seq<usize>, answer: usize) -> usize {
    if sizes.len() == 0 {
        0
    } else if sizes.len() == 1 {
        sizes[0]
    } else {
        answer
    }
}

/// The number of work-items in a block, at most the largest machine word.
pub open spec fn block_threads(block: Seq<usize>) -> usize {
    if product(block, block.len() as int) > usize::MAX {
        usize::MAX
    } else {
        product(block, block.len() as int) as usize
    }
}

/// The number of subgroups that `threads` work-items make at subgroup size
/// `size`, a partly filled one included; none at size zero.
pub open spec fn subgroups_of(threads: usize, size: usize) -> usize {
    if size == 0 {
        0
    } else if threads % size == 0 {
        threads / size
    } else {
        (threads / size + 1) as usize
    }
}

/// The backend's pick for candidate `i`; zero where it gave none.
pub open spec fn pick_at(picks: Seq<usize>, i: int) -> usize {
    if 0 <= i < picks.len() {
        picks[i]
    } else {
        0
    }
}

/// The work-group size, in one dimension, that makes `subgroups`
/// subgroups: the first of the build's sizes, from position `from` on,
/// whose multiple fits the device and really comes to that many subgroups.
pub open spec fn fitting_threads(
    sizes: Seq<usize>,
    picks: Seq<usize>,
    subgroups: usize,
    max_threads: usize,
    from: int,
) -> Option<usize>
    decreases sizes.len() - from,
{
    if from < 0 || from >= sizes.len() {
        None
    } else {
        let threads = subgroups * sizes[from];
        if threads <= max_threads && subgroups_of(
            threads as usize,
            subgroup_size_for(sizes, pick_at(picks, from)),
        ) == subgroups {
            Some(threads as usize)
        } else {
            fitting_threads(sizes, picks, subgroups, max_threads, from + 1)
        }
    }
}

/// The largest number of subgroups a work-group can have, looking at the
/// first `n` subgroup sizes: the most that the kernel's largest work-group
/// makes at any size, capped by the device after each size.
pub open spec fn most_subgroups(sizes: Seq<usize>, threads: usize, max_groups: usize, n: int) -> usize
    decreases n,
{
    if n <= 0 {
        0
    } else {
        let prev = most_subgroups(sizes, threads, max_groups, n - 1);
        let here = if sizes[n - 1] == 0 {
            prev
        } else if prev < threads / sizes[n - 1] {
            threads / sizes[n - 1]
        } else {
            prev
        };
        if here < max_groups {
            here
        } else {
            max_groups
        }
    }
}

/// Computes [`block_threads`].
pub fn threads_in_block(block: &Vec<usize>) -> (threads: usize)
    ensures
        threads == block_threads(block@),
{
    let mut threads: Option<usize> = Some(1);
    let mut i: usize = 0;
    while i < block.len()
        invariant
            i <= block@.len(),
            match threads {
                Some(t) => t == product(block@, i as int),
                None => product(block@, i as int) > usize::MAX,
            },
        decreases block@.len() - i,
    {
        let b = block[i];
        let ghost before = product(block@, i as int);
        threads =
        if b == 0 {
            assert(before * b == 0) by (nonlinear_arith)
                requires
                    b == 0,
            ;
            Some(0)
        } else {
            match threads {
                Some(t) => {
                    assert(t * b == before * b) by (nonlinear_arith)
                        requires
                            t == before,
                    ;
                    t.checked_mul(b)
                },
                None => {
                    assert(before * b > usize::MAX) by (nonlinear_arith)
                        requires
                            before > usize::MAX,
                            b >= 1,
                    ;
                    None
                },
            }
        };
        i += 1;
    }
    match threads {
        Some(t) => t,
        None => usize::MAX,
    }
}

/// Computes [`subgroups_of`].
pub fn count_subgroups(threads: usize, size: usize) -> (n: usize)
    ensures
        n == subgroups_of(threads, size),
{
    if size == 0 {
        0
    } else if threads % size == 0 {
        threads / size
    } else {
        assert(threads / size < usize::MAX) by (nonlinear_arith)
            requires
                size >= 1,
                threads % size != 0,
                threads <= usize::MAX,
        {
            if size == 1 {
                assert(threads % size == 0);
            } else {
                assert(threads / size <= threads / 2);
            }
        }
        threads / size + 1
    }
}

/// What the subgroup query needs of its input: for the two queries about
/// a work-group size, one to three sizes; for the query about a subgroup
/// count, one number; for any other, nothing. The size in bytes must be
/// that of the input, and the input must be present where one is needed.
pub open spec fn sub_group_input_ok(param: u32, input_value_size: usize, input: Option<Seq<usize>>) -> bool {
    if param == KERNEL_MAX_SUB_GROUP_SIZE_FOR_NDRANGE || param == KERNEL_SUB_GROUP_COUNT_FOR_NDRANGE {
        input matches Some(block) && 1 <= block.len() <= 3 && input_value_size == block.len()
            * spec_word_size()
    } else if param == KERNEL_LOCAL_SIZE_FOR_SUB_GROUP_COUNT {
        input matches Some(count) && count.len() == 1 && input_value_size == spec_word_size()
    } else {
        true
    }
}

/// The answer to the subgroup query `param` about `kernel`.
///
/// The device must be one the query can be about and must offer
/// subgroups, else the operation is invalid; then the input is checked,
/// and last the name of the query.
pub open spec fn spec_kernel_sub_group_info(
    kernel: &Kernel,
    platform: &Platform,
    dev: Option<usize>,
    param: u32,
    input_value_size: usize,
    input: Option<Seq<usize>>,
    output_value_size: usize,
    answers: &SubgroupAnswers,
) -> Result<KernelInfoView, ErrorKind> {
    match queried_device(kernel, platform, dev) {
        Err(e) => Err(e),
        Ok(d) => {
            let device = platform.devs@[d as int];
            let sizes = kernel.spec_subgroup_sizes(d);
            if !device.spec_subgroups_supported() {
                Err(ErrorKind::InvalidOperation)
            } else if !sub_group_input_ok(param, input_value_size, input) {
                Err(ErrorKind::InvalidValue)
            } else if param == KERNEL_SUB_GROUP_COUNT_FOR_NDRANGE {
                Ok(
                    KernelInfoView::Size(
                        subgroups_of(
                            block_threads(input->0),
                            subgroup_size_for(sizes, answers.for_input),
                        ),
                    ),
                )
            } else if param == KERNEL_MAX_SUB_GROUP_SIZE_FOR_NDRANGE {
                Ok(KernelInfoView::Size(subgroup_size_for(sizes, answers.for_input)))
            } else if param == KERNEL_LOCAL_SIZE_FOR_SUB_GROUP_COUNT {
                let block = match fitting_threads(
                    sizes,
                    answers.for_candidates@,
                    input->0[0],
                    device.screen.compute.max_threads_per_block as usize,
                    0,
                ) {
                    Some(threads) => seq![threads, 1usize, 1usize],
                    None => seq![0usize, 0usize, 0usize],
                };
                let wanted = output_value_size / spec_word_size();
                Ok(
                    KernelInfoView::Sizes(
                        if wanted < 3 {
                            block.take(wanted as int)
                        } else {
                            block
                        },
                    ),
                )
            } else if param == KERNEL_MAX_NUM_SUB_GROUPS {
                Ok(
                    KernelInfoView::Size(
                        most_subgroups(
                            sizes,
                            kernel.spec_max_threads_per_block(d),
                            device.screen.compute.max_subgroups as usize,
                            sizes.len() as int,
                        ),
                    ),
                )
            } else if param == KERNEL_COMPILE_NUM_SUB_GROUPS {
                Ok(KernelInfoView::Size(kernel.num_subgroups))
            } else if param == KERNEL_COMPILE_SUB_GROUP_SIZE {
                Ok(KernelInfoView::Size(kernel.subgroup_size))
            } else {
                Err(ErrorKind::InvalidValue)
            }
        },
    }
}

/// The bytes an optional vector holds.
pub open spec fn entries_of(input: Option<&Vec<usize>>) -> Option<Seq<usize>> {
    match input {
        Some(v) => Some(v@),
        None => None,
    }
}

/// Answers a subgroup query about a kernel.
///
/// `input` holds what the client's input pointer addresses, and
/// `input_value_size` the size in bytes the client gave for it;
/// `output_value_size` is the size in bytes of the client's place for the
/// answer. `answers` holds the backend's picks, one per subgroup size of
/// the kernel's build where the build offers several.
#[verifier::loop_isolation(false)]
pub fn kernel_sub_group_info(
    kernel: &Kernel,
    platform: &Platform,
    dev: Option<usize>,
    param: u32,
    input_value_size: usize,
    input: Option<&Vec<usize>>,
    output_value_size: usize,
    answers: &SubgroupAnswers,
) -> (r: Result<KernelInfo, ErrorKind>)
    ensures
        match r {
            Ok(info) => spec_kernel_sub_group_info(
                kernel,
                platform,
                dev,
                param,
                input_value_size,
                entries_of(input),
                output_value_size,
                answers,
            ) == Ok::<KernelInfoView, ErrorKind>(info@),
            Err(e) => spec_kernel_sub_group_info(
                kernel,
                platform,
                dev,
                param,
                input_value_size,
                entries_of(input),
                output_value_size,
                answers,
            ) == Err::<KernelInfoView, ErrorKind>(e),
        },
{
    let d = match resolve_device(kernel, platform, dev) {
        Ok(d) => d,
        Err(e) => {
            return Err(e);
        },
    };
    let device = &platform.devs[d];
    if !device.subgroups_supported() {
        return Err(ErrorKind::InvalidOperation);
    }
    let w = word_size();
    if param == KERNEL_MAX_SUB_GROUP_SIZE_FOR_NDRANGE || param == KERNEL_SUB_GROUP_COUNT_FOR_NDRANGE {
        match input {
            Some(block) => {
                if block.len() < 1 || block.len() > 3 || input_value_size != block.len() * w {
                    return Err(ErrorKind::InvalidValue);
                }
            },
            None => {
                return Err(ErrorKind::InvalidValue);
            },
        }
    } else if param == KERNEL_LOCAL_SIZE_FOR_SUB_GROUP_COUNT {
        match input {
            Some(count) => {
                if count.len() != 1 || input_value_size != w {
                    return Err(ErrorKind::InvalidValue);
                }
            },
            None => {
                return Err(ErrorKind::InvalidValue);
            },
        }
    }
    let sizes = kernel.subgroup_sizes(d);
    if param == KERNEL_SUB_GROUP_COUNT_FOR_NDRANGE || param == KERNEL_MAX_SUB_GROUP_SIZE_FOR_NDRANGE {
        let size = if sizes.len() == 0 {
            0
        } else if sizes.len() == 1 {
            sizes[0]
        } else {
            answers.for_input
        };
        if param == KERNEL_MAX_SUB_GROUP_SIZE_FOR_NDRANGE {
            return Ok(KernelInfo::Size(size));
        }
        let threads = match input {
            Some(block) => threads_in_block(block),
            None => 0,
        };
        Ok(KernelInfo::Size(count_subgroups(threads, size)))
    } else if param == KERNEL_LOCAL_SIZE_FOR_SUB_GROUP_COUNT {
        let subgroups = match input {
            Some(count) => count[0],
            None => 0,
        };
        let max_threads = device.max_threads_per_block();
        let mut found: Option<usize> = None;
        let mut i: usize = 0;
        while i < sizes.len() && found.is_none()
            invariant
                i <= sizes@.len(),
                match found {
                    Some(t) => fitting_threads(
                        sizes@,
                        answers.for_candidates@,
                        subgroups,
                        max_threads,
                        0,
                    ) == Some(t),
                    None => fitting_threads(
                        sizes@,
                        answers.for_candidates@,
                        subgroups,
                        max_threads,
                        0,
                    ) == fitting_threads(
                        sizes@,
                        answers.for_candidates@,
                        subgroups,
                        max_threads,
                        i as int,
                    ),
                },
            decreases sizes@.len() - i + (if found is None {
                1int
            } else {
                0int
            }),
        {
            let size = if sizes.len() == 1 {
                sizes[0]
            } else if i < answers.for_candidates.len() {
                answers.for_candidates[i]
            } else {
                0
            };
            match subgroups.checked_mul(sizes[i]) {
                Some(threads) => {
                    if threads <= max_threads && count_subgroups(threads, size) == subgroups {
                        found = Some(threads);
                    } else {
                        i += 1;
                    }
                },
                None => {
                    i += 1;
                },
            }
        }
        let mut res: Vec<usize> = Vec::new();
        match found {
            Some(threads) => {
                res.push(threads);
                res.push(1);
                res.push(1);
                assert(res@ =~= seq![threads, 1usize, 1usize]);
            },
            None => {
                res.push(0);
                res.push(0);
                res.push(0);
                assert(res@ =~= seq![0usize, 0usize, 0usize]);
            },
        }
        let wanted = output_value_size / w;
        if wanted < 3 {
            let ghost whole = res@;
            res.truncate(wanted);
            assert(res@ =~= whole.take(wanted as int));
        }
        Ok(KernelInfo::Sizes(res))
    } else if param == KERNEL_MAX_NUM_SUB_GROUPS {
        let threads = kernel.max_threads_per_block(d);
        let max_groups = device.max_subgroups() as usize;
        let mut result: usize = 0;
        let mut i: usize = 0;
        while i < sizes.len()
            invariant
                i <= sizes@.len(),
                result == most_subgroups(sizes@, threads, max_groups, i as int),
            decreases sizes@.len() - i,
        {
            let sgs = sizes[i];
            if sgs != 0 && result < threads / sgs {
                result = threads / sgs;
            }
            if result >= max_groups {
                result = max_groups;
            }
            i += 1;
        }
        Ok(KernelInfo::Size(result))
    } else if param == KERNEL_COMPILE_NUM_SUB_GROUPS {
        Ok(KernelInfo::Size(kernel.num_subgroups))
    } else if param == KERNEL_COMPILE_SUB_GROUP_SIZE {
        Ok(KernelInfo::Size(kernel.subgroup_size))
    } else {
        Err(ErrorKind::InvalidValue)
    }
}

} // verus!
