//! Kernels: a named entry point, its formal parameters and the values
//! currently bound to them.

use vstd::prelude::*;
use crate::bytes::spec_u64_from_le_bytes;
use crate::bytes::spec_u64_to_le_bytes;
use crate::bytes::u64_from_le_bytes;
use crate::bytes::u64_to_le_bytes;
use crate::device::Platform;
use crate::error::ErrorKind;
use crate::objects::ObjectKind;
use crate::objects::ObjectTable;
use crate::objects::released;
use crate::objects::released_opt;
use crate::objects::retained;
use crate::objects::retained_opt;

verus! {

/// The size in bytes of an object handle as it appears in an argument value.
pub const HANDLE_SIZE: usize = 8;

/// What a formal parameter of a kernel was compiled to.
#[derive(Clone, Copy, Debug, PartialEq, Eq, Structural)]
pub enum KernelArgType {
    /// A scalar passed by value; the payload is its width in bytes.
    Constant(u16),
    Image,
    RWImage,
    Sampler,
    Texture,
    MemGlobal,
    MemConstant,
    MemLocal,
}

/// One formal parameter.
#[derive(Debug)]
pub struct KernelArg {
    pub kind: KernelArgType,
    /// Compilation found the parameter unused and removed it.
    pub dead: bool,
    pub name: String,
    pub ty_name: String,
    pub access_qualifier: u32,
    pub address_qualifier: u32,
    pub type_qualifier: u64,
}

/// A value bound to an argument slot.
///
/// `Buffer`, `Image` and `Sampler` carry the handle of the object they keep alive.
#[derive(Debug)]
pub enum KernelArgValue {
    /// Nothing is passed: the parameter is unused, or the client bound a null buffer.
    Null,
    Buffer(u64),
    Constant(Vec<u8>),
    Image(u64),
    LocalMem(usize),
    Sampler(u64),
}

/// The mathematical content of an argument value.
pub enum ArgValueView {
    Null,
    Buffer(u64),
    Constant(Seq<u8>),
    Image(u64),
    LocalMem(usize),
    Sampler(u64),
}

impl View for KernelArgValue {
    type V = ArgValueView;

    open spec fn view(&self) -> ArgValueView {
        match self {
            KernelArgValue::Null => ArgValueView::Null,
            KernelArgValue::Buffer(h) => ArgValueView::Buffer(*h),
            KernelArgValue::Constant(b) => ArgValueView::Constant(b@),
            KernelArgValue::Image(h) => ArgValueView::Image(*h),
            KernelArgValue::LocalMem(n) => ArgValueView::LocalMem(*n),
            KernelArgValue::Sampler(h) => ArgValueView::Sampler(*h),
        }
    }
}

impl ArgValueView {
    /// The handle of the object this value keeps alive, if it keeps one alive.
    pub open spec fn referenced(self) -> Option<u64> {
        match self {
            ArgValueView::Buffer(h) => Some(h),
            ArgValueView::Image(h) => Some(h),
            ArgValueView::Sampler(h) => Some(h),
            _ => None,
        }
    }
}

/// The state of a program's build for one device.
#[derive(Clone, Copy, Debug, PartialEq, Eq, Structural)]
pub enum BuildStatus {
    Success,
    NotBuilt,
    Error,
    InProgress,
}

/// What the build for one device says about a kernel.
#[derive(Clone, Copy, Debug)]
pub struct KernelBuild {
    /// Index of the device in the platform's device list.
    pub device: usize,
    pub status: BuildStatus,
    pub max_threads_per_block: usize,
    pub preferred_simd_size: usize,
    pub local_mem_size: u64,
    pub priv_mem_size: u64,
    /// The subgroup sizes the build can run with, as a mask of powers of two.
    pub simd_sizes: u32,
}

/// A launchable entry point with its current argument bindings.
#[derive(Debug)]
pub struct Kernel {
    pub name: String,
    /// Identity of the context the kernel's program belongs to.
    pub context: u64,
    /// Handle of the program the kernel was created from.
    pub program: u64,
    /// Devices the program is associated with, by index.
    pub devs: Vec<usize>,
    pub attributes_string: String,
    pub args: Vec<KernelArg>,
    /// One slot per formal parameter; `None` while nothing was bound.
    pub values: Vec<Option<KernelArgValue>>,
    /// Work-group size the source requires, or zeros.
    pub work_group_size: [usize; 3],
    /// Subgroup size the source requires, or zero.
    pub subgroup_size: usize,
    /// Subgroup count the source requires, or zero.
    pub num_subgroups: usize,
    pub builds: Vec<KernelBuild>,
    /// Handles the client holds on the kernel.
    pub refs: u32,
}

impl Kernel {
    /// A kernel has exactly one slot per formal parameter.
    pub open spec fn wf(&self) -> bool {
        self.values@.len() == self.args@.len()
    }

    /// The content of slot `i`, `None` while it is unset.
    pub open spec fn slot(&self, i: int) -> Option<ArgValueView> {
        match self.values@[i] {
            Some(v) => Some(v@),
            None => None,
        }
    }

    /// Every slot holds a value.
    pub open spec fn all_bound(&self) -> bool {
        forall|i: int| 0 <= i < self.values@.len() ==> (#[trigger] self.values@[i]) is Some
    }

    /// The position of the first build for `device` at or after `start`, or `builds.len()`.
    pub open spec fn build_index_from(builds: Seq<KernelBuild>, device: usize, start: int) -> int
        decreases builds.len() - start,
    {
        if start < 0 || start >= builds.len() {
            builds.len() as int
        } else if builds[start].device == device {
            start
        } else {
            Self::build_index_from(builds, device, start + 1)
        }
    }

    /// The position of the first build for `device`, or `builds.len()` if there is none.
    pub open spec fn build_index(builds: Seq<KernelBuild>, device: usize) -> int {
        Self::build_index_from(builds, device, 0)
    }

    /// The build status of the kernel's program for `device`.
    pub open spec fn spec_status(&self, device: usize) -> BuildStatus {
        let i = Self::build_index(self.builds@, device);
        if i < self.builds@.len() {
            self.builds@[i].status
        } else {
            BuildStatus::NotBuilt
        }
    }

    /// The largest work-group the kernel can run with on `device`; zero without a build.
    pub open spec fn spec_max_threads_per_block(&self, device: usize) -> usize {
        let i = Self::build_index(self.builds@, device);
        if i < self.builds@.len() {
            self.builds@[i].max_threads_per_block
        } else {
            0
        }
    }
}


impl Kernel {
    /// `build_index` is the least position whose build is for `device`.
    pub proof fn lemma_build_index(builds: Seq<KernelBuild>, device: usize, start: int)
        requires
            0 <= start <= builds.len(),
        ensures
            start <= Self::build_index_from(builds, device, start) <= builds.len(),
            Self::build_index_from(builds, device, start) < builds.len()
                ==> builds[Self::build_index_from(builds, device, start)].device == device,
            forall|j: int|
                start <= j < Self::build_index_from(builds, device, start)
                    ==> (#[trigger] builds[j]).device != device,
        decreases builds.len() - start,
    {
        if start < builds.len() && builds[start].device != device {
            Self::lemma_build_index(builds, device, start + 1);
        }
    }

    /// Finds the first build for `device`.
    pub fn find_build(&self, device: usize) -> (r: Option<usize>)
        ensures
            match r {
                Some(i) => i == Self::build_index(self.builds@, device) && i < self.builds@.len(),
                None => Self::build_index(self.builds@, device) == self.builds@.len(),
            },
    {
        let mut i: usize = 0;
        while i < self.builds.len()
            invariant
                i <= self.builds@.len(),
                Self::build_index(self.builds@, device) == Self::build_index_from(
                    self.builds@,
                    device,
                    i as int,
                ),
            decreases self.builds@.len() - i,
        {
            if self.builds[i].device == device {
                return Some(i);
            }
            i += 1;
        }
        None
    }

    /// The build status of the kernel's program for `device`.
    pub fn status(&self, device: usize) -> (s: BuildStatus)
        ensures
            s == self.spec_status(device),
    {
        match self.find_build(device) {
            Some(i) => self.builds[i].status,
            None => BuildStatus::NotBuilt,
        }
    }

    /// The largest work-group the kernel can run with on `device`.
    pub fn max_threads_per_block(&self, device: usize) -> (n: usize)
        ensures
            n == self.spec_max_threads_per_block(device),
    {
        match self.find_build(device) {
            Some(i) => self.builds[i].max_threads_per_block,
            None => 0,
        }
    }
}


/// The declared size does not fit a parameter of kind `kind`: zero for
/// local memory, anything but a handle's size for a buffer, image or
/// sampler, anything but the scalar's width for a scalar.
pub open spec fn size_mismatch(kind: KernelArgType, arg_size: usize) -> bool {
    match kind {
        KernelArgType::MemLocal => arg_size == 0,
        KernelArgType::Constant(width) => width as usize != arg_size,
        _ => arg_size != HANDLE_SIZE,
    }
}

/// The value pointer is present where it must be absent (local memory) or
/// absent where it must be present (scalar, sampler).
pub open spec fn presence_mismatch(kind: KernelArgType, present: bool) -> bool {
    match kind {
        KernelArgType::MemLocal => present,
        KernelArgType::Constant(_) => !present,
        KernelArgType::Sampler => !present,
        _ => false,
    }
}

/// The handle an argument value spells; the null handle where no value was passed.
pub open spec fn spec_handle_of(value: Option<Seq<u8>>) -> u64 {
    match value {
        Some(b) => spec_u64_from_le_bytes(b) as u64,
        None => 0,
    }
}

/// The object `h` as the value of an argument of kind `kind`, if `h` names
/// a live object of that kind to which one more reference can be taken.
pub open spec fn object_value(objects: &ObjectTable, h: u64, kind: ObjectKind) -> Result<
    ArgValueView,
    ErrorKind,
> {
    if !objects.live(h, kind) {
        Err(kind.spec_invalid())
    } else if objects.count(h) >= usize::MAX {
        Err(ErrorKind::OutOfHostMemory)
    } else {
        Ok(
            match kind {
                ObjectKind::Buffer => ArgValueView::Buffer(h),
                ObjectKind::Image => ArgValueView::Image(h),
                ObjectKind::Sampler => ArgValueView::Sampler(h),
            },
        )
    }
}

/// The value a checked argument is stored as.
///
/// For an unused parameter that is nothing, whatever was passed. A scalar
/// is stored as its bytes, local memory as its size, and a handle as the
/// object it names; a null buffer handle is stored as nothing.
pub open spec fn stored_value(
    arg: KernelArg,
    objects: &ObjectTable,
    arg_size: usize,
    value: Option<Seq<u8>>,
) -> Result<ArgValueView, ErrorKind> {
    if arg.dead {
        Ok(ArgValueView::Null)
    } else {
        match arg.kind {
            KernelArgType::Constant(_) => Ok(ArgValueView::Constant(value->0)),
            KernelArgType::MemLocal => Ok(ArgValueView::LocalMem(arg_size)),
            KernelArgType::MemConstant | KernelArgType::MemGlobal => if spec_handle_of(value) == 0 {
                Ok(ArgValueView::Null)
            } else {
                object_value(objects, spec_handle_of(value), ObjectKind::Buffer)
            },
            KernelArgType::Image | KernelArgType::RWImage | KernelArgType::Texture => object_value(
                objects,
                spec_handle_of(value),
                ObjectKind::Image,
            ),
            KernelArgType::Sampler => object_value(
                objects,
                spec_handle_of(value),
                ObjectKind::Sampler,
            ),
        }
    }
}

/// What binding `value` to argument `arg_index` comes to: the value that is
/// stored, or the first check that fails: the index, the declared size, the
/// presence of the value, the handle.
pub open spec fn bind_outcome(
    kernel: &Kernel,
    objects: &ObjectTable,
    arg_index: u32,
    arg_size: usize,
    value: Option<Seq<u8>>,
) -> Result<ArgValueView, ErrorKind> {
    match shape_error(kernel, arg_index, arg_size, value is Some) {
        Some(e) => Err(e),
        None => stored_value(kernel.args@[arg_index as int], objects, arg_size, value),
    }
}

/// What is wrong with the shape of an argument, if anything: the index
/// names no parameter, the declared size does not fit the parameter, or
/// the value is present where it must not be or absent where it must not be.
pub open spec fn shape_error(kernel: &Kernel, arg_index: u32, arg_size: usize, present: bool) -> Option<
    ErrorKind,
> {
    if arg_index >= kernel.args@.len() {
        Some(ErrorKind::InvalidArgIndex)
    } else if size_mismatch(kernel.args@[arg_index as int].kind, arg_size) {
        Some(ErrorKind::InvalidArgSize)
    } else if presence_mismatch(kernel.args@[arg_index as int].kind, present) {
        Some(ErrorKind::InvalidArgValue)
    } else {
        None
    }
}

/// Checks index, declared size and presence of an argument value, in that
/// order, before any byte of the value is looked at.
pub fn check_arg_shape(kernel: &Kernel, arg_index: u32, arg_size: usize, present: bool) -> (r: Result<
    (),
    ErrorKind,
>)
    ensures
        r == match shape_error(kernel, arg_index, arg_size, present) {
            Some(e) => Err::<(), ErrorKind>(e),
            None => Ok(()),
        },
{
    let index = arg_index as usize;
    if index >= kernel.args.len() {
        return Err(ErrorKind::InvalidArgIndex);
    }
    match kernel.args[index].kind {
        KernelArgType::MemLocal => {
            if arg_size == 0 {
                return Err(ErrorKind::InvalidArgSize);
            }
            if present {
                return Err(ErrorKind::InvalidArgValue);
            }
        },
        KernelArgType::Constant(width) => {
            if width as usize != arg_size {
                return Err(ErrorKind::InvalidArgSize);
            }
            if !present {
                return Err(ErrorKind::InvalidArgValue);
            }
        },
        KernelArgType::Sampler => {
            if arg_size != HANDLE_SIZE {
                return Err(ErrorKind::InvalidArgSize);
            }
            if !present {
                return Err(ErrorKind::InvalidArgValue);
            }
        },
        _ => {
            if arg_size != HANDLE_SIZE {
                return Err(ErrorKind::InvalidArgSize);
            }
        },
    }
    Ok(())
}

/// The two kernels are the same entry point of the same program.
pub open spec fn same_program(a: &Kernel, b: &Kernel) -> bool {
    &&& a.name@ == b.name@
    &&& a.context == b.context
    &&& a.program == b.program
    &&& a.devs@ == b.devs@
    &&& a.attributes_string@ == b.attributes_string@
    &&& a.args@ == b.args@
    &&& a.work_group_size == b.work_group_size
    &&& a.subgroup_size == b.subgroup_size
    &&& a.num_subgroups == b.num_subgroups
    &&& a.builds@ == b.builds@
}

/// The two kernels differ in their argument slots at most.
pub open spec fn same_but_values(a: &Kernel, b: &Kernel) -> bool {
    same_program(a, b) && a.refs == b.refs
}

/// `after` is `before` with slot `i` holding `value`, all else the same.
pub open spec fn slot_replaced(before: &Kernel, after: &Kernel, i: int, value: ArgValueView) -> bool {
    &&& same_but_values(before, after)
    &&& after.values@.len() == before.values@.len()
    &&& after.slot(i) == Some(value)
    &&& forall|j: int|
        0 <= j < before.values@.len() && j != i ==> (#[trigger] after.values@[j])
            == before.values@[j]
}

impl Kernel {
    /// The handle that slot `i` keeps alive, if it keeps one alive.
    pub open spec fn slot_reference(&self, i: int) -> Option<u64> {
        match self.slot(i) {
            Some(v) => v.referenced(),
            None => None,
        }
    }

    /// The handle that slot `i` keeps alive, if it keeps one alive.
    pub fn reference_held(&self, i: usize) -> (r: Option<u64>)
        requires
            i < self.values@.len(),
        ensures
            r == self.slot_reference(i as int),
    {
        match &self.values[i] {
            Some(KernelArgValue::Buffer(h)) => Some(*h),
            Some(KernelArgValue::Image(h)) => Some(*h),
            Some(KernelArgValue::Sampler(h)) => Some(*h),
            _ => None,
        }
    }

    /// Stores `value` in slot `i` and hands the objects' references over:
    /// the reference that the old value held is dropped.
    fn store(&mut self, objects: &mut ObjectTable, i: usize, value: KernelArgValue)
        requires
            old(self).wf(),
            old(objects).wf(),
            i < old(self).values@.len(),
        ensures
            final(self).wf(),
            final(objects).wf(),
            slot_replaced(old(self), final(self), i as int, value@),
            final(objects)@ == released_opt(old(objects)@, old(self).slot_reference(i as int)),
    {
        let prior = self.reference_held(i);
        self.values[i] = Some(value);
        if let Some(h) = prior {
            objects.drop_ref(h);
        }
    }
}

/// Takes a reference to the object of kind `kind` that `h` names and wraps
/// the handle as an argument value.
fn acquire(objects: &mut ObjectTable, h: u64, kind: ObjectKind) -> (r: Result<
    KernelArgValue,
    ErrorKind,
>)
    requires
        old(objects).wf(),
    ensures
        final(objects).wf(),
        match r {
            Ok(v) => object_value(old(objects), h, kind) == Ok::<ArgValueView, ErrorKind>(v@)
                && final(objects)@ == retained_opt(old(objects)@, v@.referenced()),
            Err(e) => object_value(old(objects), h, kind) == Err::<ArgValueView, ErrorKind>(e)
                && *final(objects) == *old(objects),
        },
{
    match objects.retain(h, kind) {
        Ok(_) => Ok(
            match kind {
                ObjectKind::Buffer => KernelArgValue::Buffer(h),
                ObjectKind::Image => KernelArgValue::Image(h),
                ObjectKind::Sampler => KernelArgValue::Sampler(h),
            },
        ),
        Err(e) => Err(e),
    }
}

/// Reads the handle an argument value spells.
fn handle_of(value: Option<&[u8]>) -> (h: u64)
    requires
        value matches Some(b) ==> b@.len() == 8,
    ensures
        h == spec_handle_of(
            match value {
                Some(b) => Some(b@),
                None => None,
            },
        ),
{
    match value {
        Some(b) => u64_from_le_bytes(b),
        None => 0,
    }
}

/// Copies bytes into a vector of their own.
fn copy_bytes(b: &[u8]) -> (v: Vec<u8>)
    ensures
        v@ == b@,
{
    let mut v: Vec<u8> = Vec::new();
    let mut i: usize = 0;
    while i < b.len()
        invariant
            i <= b@.len(),
            v@ == b@.take(i as int),
        decreases b@.len() - i,
    {
        v.push(b[i]);
        proof {
            assert(b@.take(i + 1) == b@.take(i as int).push(b@[i as int]));
        }
        i += 1;
    }
    proof {
        assert(b@.take(b@.len() as int) == b@);
    }
    v
}

/// The bytes an optional slice holds.
pub open spec fn bytes_of(value: Option<&[u8]>) -> Option<Seq<u8>> {
    match value {
        Some(b) => Some(b@),
        None => None,
    }
}

/// Binds a value to an argument of a kernel.
///
/// `arg_value` holds the `arg_size` bytes the client's pointer addresses, or
/// is absent where the pointer is null. The checks run in a fixed order and
/// the first that fails decides the error: the index, the declared size,
/// the presence of the value, and last the handle the value spells. A
/// refused binding leaves kernel and objects as they were. An accepted one
/// overwrites the slot: the new value's object gains a reference, the
/// object of the value that was there loses one.
pub fn set_kernel_arg(
    kernel: &mut Kernel,
    objects: &mut ObjectTable,
    arg_index: u32,
    arg_size: usize,
    arg_value: Option<&[u8]>,
) -> (r: Result<(), ErrorKind>)
    requires
        old(kernel).wf(),
        old(objects).wf(),
        arg_value matches Some(b) ==> b@.len() == arg_size,
    ensures
        final(kernel).wf(),
        final(objects).wf(),
        match bind_outcome(old(kernel), old(objects), arg_index, arg_size, bytes_of(arg_value)) {
            Ok(value) => {
                &&& r is Ok
                &&& slot_replaced(old(kernel), final(kernel), arg_index as int, value)
                &&& final(objects)@ == released_opt(
                    retained_opt(old(objects)@, value.referenced()),
                    old(kernel).slot_reference(arg_index as int),
                )
            },
            Err(e) => {
                &&& r == Err::<(), ErrorKind>(e)
                &&& *final(kernel) == *old(kernel)
                &&& *final(objects) == *old(objects)
            },
        },
{
    if let Err(e) = check_arg_shape(kernel, arg_index, arg_size, arg_value.is_some()) {
        return Err(e);
    }
    let index = arg_index as usize;
    let kind = kernel.args[index].kind;
    let dead = kernel.args[index].dead;
    let value = if dead {
        KernelArgValue::Null
    } else {
        match kind {
            KernelArgType::Constant(_) => match arg_value {
                Some(b) => KernelArgValue::Constant(copy_bytes(b)),
                None => KernelArgValue::Null,
            },
            KernelArgType::MemLocal => KernelArgValue::LocalMem(arg_size),
            KernelArgType::MemConstant | KernelArgType::MemGlobal => {
                let h = handle_of(arg_value);
                if h == 0 {
                    KernelArgValue::Null
                } else {
                    match acquire(objects, h, ObjectKind::Buffer) {
                        Ok(v) => v,
                        Err(e) => {
                            return Err(e);
                        },
                    }
                }
            },
            KernelArgType::Image | KernelArgType::RWImage | KernelArgType::Texture => {
                match acquire(objects, handle_of(arg_value), ObjectKind::Image) {
                    Ok(v) => v,
                    Err(e) => {
                        return Err(e);
                    },
                }
            },
            KernelArgType::Sampler => {
                match acquire(objects, handle_of(arg_value), ObjectKind::Sampler) {
                    Ok(v) => v,
                    Err(e) => {
                        return Err(e);
                    },
                }
            },
        }
    };
    kernel.store(objects, index, value);
    Ok(())
}


/// Binding a slot to buffer `h1` and then to a different buffer `h2` leaves
/// the objects exactly as if `h2` alone had been bound: one reference more
/// to `h2`, and the reference that the first binding took to `h1` released.
///
/// `m0` is the table before the first binding and `prior` what the slot
/// referred to then; the table after each binding is what
/// [`set_kernel_arg`] leaves.
pub proof fn lemma_rebinding_releases_first(
    m0: Map<u64, (ObjectKind, nat)>,
    prior: Option<u64>,
    h1: u64,
    h2: u64,
)
    requires
        h1 != h2,
        m0.dom().contains(h1),
        m0.dom().contains(h2),
        m0[h1].1 > 0,
        m0[h2].1 > 0,
        released_opt(retained(m0, h1), prior).dom().contains(h2),
    ensures
        ({
            let m1 = released_opt(retained(m0, h1), prior);
            let m2 = released(retained(m1, h2), h1);
            let direct = released_opt(retained(m0, h2), prior);
            &&& m2 == direct
            &&& prior != Some(h1) && prior != Some(h2) ==> {
                &&& m2[h2].1 == m0[h2].1 + 1
                &&& m2[h1].1 == m0[h1].1
                &&& m1[h1].1 == m0[h1].1 + 1
            }
        }),
{
    let m1 = released_opt(retained(m0, h1), prior);
    let m2 = released(retained(m1, h2), h1);
    let direct = released_opt(retained(m0, h2), prior);
    assert(m2 =~= direct);
}

/// Parameter name: the pointers a kernel may reach besides its arguments.
pub const KERNEL_EXEC_INFO_SVM_PTRS: u32 = 0x11B6;

/// Parameter name: whether a kernel may reach any host allocation.
pub const KERNEL_EXEC_INFO_SVM_FINE_GRAIN_SYSTEM: u32 = 0x11B7;

/// Vendor alias of [`KERNEL_EXEC_INFO_SVM_PTRS`].
pub const KERNEL_EXEC_INFO_SVM_PTRS_ARM: u32 = 0x40B8;

/// Vendor alias of [`KERNEL_EXEC_INFO_SVM_FINE_GRAIN_SYSTEM`].
pub const KERNEL_EXEC_INFO_SVM_FINE_GRAIN_SYSTEM_ARM: u32 = 0x40B9;

/// The size in bytes of a boolean in a parameter block.
pub const BOOL_SIZE: usize = 4;

impl Kernel {
    /// One of the kernel's devices, known to the platform, shares the
    /// host's address space.
    pub open spec fn spec_has_svm_devs(&self, platform: &Platform) -> bool {
        exists|k: int|
            0 <= k < self.devs@.len() && (#[trigger] self.devs@[k]) < platform.devs@.len()
                && platform.devs@[self.devs@[k] as int].spec_svm_supported()
    }

    /// Tests [`Kernel::spec_has_svm_devs`].
    pub fn has_svm_devs(&self, platform: &Platform) -> (b: bool)
        ensures
            b == self.spec_has_svm_devs(platform),
    {
        let mut k: usize = 0;
        while k < self.devs.len()
            invariant
                k <= self.devs@.len(),
                forall|j: int|
                    0 <= j < k ==> !((#[trigger] self.devs@[j]) < platform.devs@.len()
                        && platform.devs@[self.devs@[j] as int].spec_svm_supported()),
            decreases self.devs@.len() - k,
        {
            let d = self.devs[k];
            if d < platform.devs.len() && platform.devs[d].svm_supported() {
                return true;
            }
            k += 1;
        }
        false
    }

    /// Every slot that refers to an object refers to a live one, and the
    /// table has room for one more reference per slot.
    pub open spec fn references_live(&self, objects: &ObjectTable) -> bool {
        forall|i: int|
            0 <= i < self.values@.len() ==> ((#[trigger] self.slot_reference(i)) matches Some(h)
                ==> objects.entry(h) is Some && objects.count(h) + self.values@.len()
                <= usize::MAX)
    }

    /// Tests [`Kernel::references_live`].
    pub fn check_references(&self, objects: &ObjectTable) -> (b: bool)
        requires
            objects.wf(),
        ensures
            b == self.references_live(objects),
    {
        let n = self.values.len();
        let mut i: usize = 0;
        while i < n
            invariant
                objects.wf(),
                n == self.values@.len(),
                i <= n,
                forall|j: int|
                    0 <= j < i ==> ((#[trigger] self.slot_reference(j)) matches Some(h)
                        ==> objects.entry(h) is Some && objects.count(h) + n <= usize::MAX),
            decreases n - i,
        {
            if let Some(h) = self.reference_held(i) {
                if h == 0 || h > objects.entries.len() as u64 {
                    return false;
                }
                match objects.entries[(h - 1) as usize] {
                    Some(e) => {
                        if e.refs > usize::MAX - n {
                            return false;
                        }
                    },
                    None => {
                        return false;
                    },
                }
            }
            i += 1;
        }
        true
    }
}

/// The table after a reference was taken for each of the first `n` slots
/// of `kernel` that refers to an object.
pub open spec fn retained_slots(m: Map<u64, (ObjectKind, nat)>, kernel: &Kernel, n: int) -> Map<
    u64,
    (ObjectKind, nat),
>
    decreases n,
{
    if n <= 0 {
        m
    } else {
        retained_opt(retained_slots(m, kernel, n - 1), kernel.slot_reference(n - 1))
    }
}

/// The table after the reference of each of the first `n` slots of
/// `kernel` was dropped.
pub open spec fn released_slots(m: Map<u64, (ObjectKind, nat)>, kernel: &Kernel, n: int) -> Map<
    u64,
    (ObjectKind, nat),
>
    decreases n,
{
    if n <= 0 {
        m
    } else {
        released_opt(released_slots(m, kernel, n - 1), kernel.slot_reference(n - 1))
    }
}

/// Binds a raw pointer to a buffer argument.
///
/// Refused as an invalid operation where none of the kernel's devices
/// shares the host's address space; as an invalid index where the index
/// names no argument or an argument that is no global or constant buffer.
/// Otherwise the slot is overwritten with the pointer's eight bytes, and
/// the object of the value that was there loses a reference.
pub fn set_kernel_arg_svm_pointer(
    kernel: &mut Kernel,
    objects: &mut ObjectTable,
    platform: &Platform,
    arg_index: u32,
    arg_value: u64,
) -> (r: Result<(), ErrorKind>)
    requires
        old(kernel).wf(),
        old(objects).wf(),
    ensures
        final(kernel).wf(),
        final(objects).wf(),
        match svm_pointer_error(old(kernel), platform, arg_index) {
            Some(e) => {
                &&& r == Err::<(), ErrorKind>(e)
                &&& *final(kernel) == *old(kernel)
                &&& *final(objects) == *old(objects)
            },
            None => {
                &&& r is Ok
                &&& slot_replaced(
                    old(kernel),
                    final(kernel),
                    arg_index as int,
                    ArgValueView::Constant(spec_u64_to_le_bytes(arg_value)),
                )
                &&& final(objects)@ == released_opt(
                    old(objects)@,
                    old(kernel).slot_reference(arg_index as int),
                )
            },
        },
{
    if !kernel.has_svm_devs(platform) {
        return Err(ErrorKind::InvalidOperation);
    }
    let index = arg_index as usize;
    if index >= kernel.args.len() {
        return Err(ErrorKind::InvalidArgIndex);
    }
    match kernel.args[index].kind {
        KernelArgType::MemConstant | KernelArgType::MemGlobal => {},
        _ => {
            return Err(ErrorKind::InvalidArgIndex);
        },
    }
    let value = KernelArgValue::Constant(u64_to_le_bytes(arg_value));
    kernel.store(objects, index, value);
    Ok(())
}

/// Why a raw pointer cannot be bound to argument `arg_index`, if it cannot.
pub open spec fn svm_pointer_error(kernel: &Kernel, platform: &Platform, arg_index: u32) -> Option<
    ErrorKind,
> {
    if !kernel.spec_has_svm_devs(platform) {
        Some(ErrorKind::InvalidOperation)
    } else if arg_index >= kernel.args@.len() {
        Some(ErrorKind::InvalidArgIndex)
    } else if !(kernel.args@[arg_index as int].kind is MemConstant
        || kernel.args@[arg_index as int].kind is MemGlobal) {
        Some(ErrorKind::InvalidArgIndex)
    } else {
        None
    }
}

/// Why a piece of execution information is refused, if it is: no device of
/// the kernel shares the host's address space; the value is absent; the
/// size does not fit the parameter; the parameter is not known.
pub open spec fn exec_info_error(
    kernel: &Kernel,
    platform: &Platform,
    param_name: u32,
    param_value_size: usize,
    value_present: bool,
) -> Option<ErrorKind> {
    if !kernel.spec_has_svm_devs(platform) {
        Some(ErrorKind::InvalidOperation)
    } else if !value_present {
        Some(ErrorKind::InvalidValue)
    } else if param_name == KERNEL_EXEC_INFO_SVM_PTRS || param_name
        == KERNEL_EXEC_INFO_SVM_PTRS_ARM {
        if param_value_size % HANDLE_SIZE != 0 {
            Some(ErrorKind::InvalidValue)
        } else {
            None
        }
    } else if param_name == KERNEL_EXEC_INFO_SVM_FINE_GRAIN_SYSTEM || param_name
        == KERNEL_EXEC_INFO_SVM_FINE_GRAIN_SYSTEM_ARM {
        if param_value_size != BOOL_SIZE {
            Some(ErrorKind::InvalidValue)
        } else {
            None
        }
    } else {
        Some(ErrorKind::InvalidValue)
    }
}

/// Checks a piece of execution information for a kernel; nothing is stored.
pub fn set_kernel_exec_info(
    kernel: &Kernel,
    platform: &Platform,
    param_name: u32,
    param_value_size: usize,
    value_present: bool,
) -> (r: Result<(), ErrorKind>)
    ensures
        r == match exec_info_error(kernel, platform, param_name, param_value_size, value_present) {
            Some(e) => Err::<(), ErrorKind>(e),
            None => Ok(()),
        },
{
    if !kernel.has_svm_devs(platform) {
        return Err(ErrorKind::InvalidOperation);
    }
    if !value_present {
        return Err(ErrorKind::InvalidValue);
    }
    if param_name == KERNEL_EXEC_INFO_SVM_PTRS || param_name == KERNEL_EXEC_INFO_SVM_PTRS_ARM {
        if param_value_size % HANDLE_SIZE != 0 {
            return Err(ErrorKind::InvalidValue);
        }
    } else if param_name == KERNEL_EXEC_INFO_SVM_FINE_GRAIN_SYSTEM || param_name
        == KERNEL_EXEC_INFO_SVM_FINE_GRAIN_SYSTEM_ARM {
        if param_value_size != BOOL_SIZE {
            return Err(ErrorKind::InvalidValue);
        }
    } else {
        return Err(ErrorKind::InvalidValue);
    }
    Ok(())
}

/// Adds a client handle to `kernel`.
///
/// Refused where the client holds no handle on the kernel any more, and for
/// want of resources where the count cannot grow.
pub fn retain_kernel(kernel: &mut Kernel) -> (r: Result<(), ErrorKind>)
    ensures
        r == (if old(kernel).refs == 0 {
            Err::<(), ErrorKind>(ErrorKind::InvalidKernel)
        } else if old(kernel).refs == u32::MAX {
            Err::<(), ErrorKind>(ErrorKind::OutOfHostMemory)
        } else {
            Ok::<(), ErrorKind>(())
        }),
        final(kernel).refs == (if r is Ok {
            (old(kernel).refs + 1) as u32
        } else {
            old(kernel).refs
        }),
        final(kernel).values == old(kernel).values,
        same_program(old(kernel), final(kernel)),
{
    if kernel.refs == 0 {
        return Err(ErrorKind::InvalidKernel);
    }
    if kernel.refs == u32::MAX {
        return Err(ErrorKind::OutOfHostMemory);
    }
    kernel.refs = kernel.refs + 1;
    Ok(())
}

/// Drops a client handle on `kernel` and says whether it was the last.
///
/// With the last handle the kernel is destroyed: every slot is emptied and
/// the object it referred to loses a reference. Refused, with nothing
/// changed, where the client holds no handle on the kernel.
pub fn release_kernel(kernel: &mut Kernel, objects: &mut ObjectTable) -> (r: Result<bool, ErrorKind>)
    requires
        old(kernel).wf(),
        old(objects).wf(),
    ensures
        final(kernel).wf(),
        final(objects).wf(),
        r == (if old(kernel).refs == 0 {
            Err::<bool, ErrorKind>(ErrorKind::InvalidKernel)
        } else {
            Ok::<bool, ErrorKind>(old(kernel).refs == 1)
        }),
        old(kernel).refs == 0 ==> *final(kernel) == *old(kernel) && *final(objects) == *old(objects),
        old(kernel).refs > 1 ==> final(kernel).refs == old(kernel).refs - 1 && final(kernel).values == old(kernel).values && *final(objects) == *old(objects),
        old(kernel).refs == 1 ==> {
            &&& final(kernel).refs == 0
            &&& final(kernel).values@.len() == old(kernel).values@.len()
            &&& forall|i: int|
                0 <= i < final(kernel).values@.len() ==> (#[trigger] final(kernel).values@[i]) is None
            &&& final(objects)@ == released_slots(
                old(objects)@,
                old(kernel),
                old(kernel).values@.len() as int,
            )
        },
        same_program(old(kernel), final(kernel)),
{
    if kernel.refs == 0 {
        return Err(ErrorKind::InvalidKernel);
    }
    kernel.refs = kernel.refs - 1;
    if kernel.refs > 0 {
        return Ok(false);
    }
    let n = kernel.values.len();
    let mut i: usize = 0;
    while i < n
        invariant
            n == old(kernel).values@.len(),
            kernel.values@.len() == n,
            kernel.wf(),
            objects.wf(),
            i <= n,
            kernel.refs == 0,
            same_program(old(kernel), kernel),
            forall|j: int| 0 <= j < i ==> (#[trigger] kernel.values@[j]) is None,
            forall|j: int| i <= j < n ==> (#[trigger] kernel.values@[j]) == old(kernel).values@[j],
            objects@ == released_slots(old(objects)@, old(kernel), i as int),
        decreases n - i,
    {
        let held = kernel.reference_held(i);
        assert(held == old(kernel).slot_reference(i as int));
        kernel.values[i] = None;
        if let Some(h) = held {
            objects.drop_ref(h);
        }
        i += 1;
    }
    Ok(true)
}


/// Copies a list of positions.
pub fn copy_indices(src: &Vec<usize>) -> (dst: Vec<usize>)
    ensures
        dst@ == src@,
{
    let mut dst: Vec<usize> = Vec::new();
    let mut i: usize = 0;
    while i < src.len()
        invariant
            i <= src@.len(),
            dst@ == src@.take(i as int),
        decreases src@.len() - i,
    {
        dst.push(src[i]);
        proof {
            assert(src@.take(i + 1) == src@.take(i as int).push(src@[i as int]));
        }
        i += 1;
    }
    proof {
        assert(src@.take(src@.len() as int) == src@);
    }
    dst
}

/// Copies a list of per-device builds.
pub fn copy_builds(src: &Vec<KernelBuild>) -> (dst: Vec<KernelBuild>)
    ensures
        dst@ == src@,
{
    let mut dst: Vec<KernelBuild> = Vec::new();
    let mut i: usize = 0;
    while i < src.len()
        invariant
            i <= src@.len(),
            dst@ == src@.take(i as int),
        decreases src@.len() - i,
    {
        dst.push(src[i]);
        proof {
            assert(src@.take(i + 1) == src@.take(i as int).push(src@[i as int]));
        }
        i += 1;
    }
    proof {
        assert(src@.take(src@.len() as int) == src@);
    }
    dst
}

impl KernelArg {
    /// A copy of the parameter.
    pub fn duplicate(&self) -> (r: KernelArg)
        ensures
            r == *self,
    {
        KernelArg {
            kind: self.kind,
            dead: self.dead,
            name: self.name.clone(),
            ty_name: self.ty_name.clone(),
            access_qualifier: self.access_qualifier,
            address_qualifier: self.address_qualifier,
            type_qualifier: self.type_qualifier,
        }
    }
}

/// Copies a list of formal parameters.
pub fn copy_args(src: &Vec<KernelArg>) -> (dst: Vec<KernelArg>)
    ensures
        dst@ == src@,
{
    let mut dst: Vec<KernelArg> = Vec::new();
    let mut i: usize = 0;
    while i < src.len()
        invariant
            i <= src@.len(),
            dst@ == src@.take(i as int),
        decreases src@.len() - i,
    {
        dst.push(src[i].duplicate());
        proof {
            assert(src@.take(i + 1) == src@.take(i as int).push(src@[i as int]));
        }
        i += 1;
    }
    proof {
        assert(src@.take(src@.len() as int) == src@);
    }
    dst
}

impl KernelArgValue {
    /// A copy of the value; no reference is taken for it.
    pub fn duplicate(&self) -> (r: KernelArgValue)
        ensures
            r@ == self@,
    {
        match self {
            KernelArgValue::Null => KernelArgValue::Null,
            KernelArgValue::Buffer(h) => KernelArgValue::Buffer(*h),
            KernelArgValue::Constant(b) => KernelArgValue::Constant(copy_bytes(b.as_slice())),
            KernelArgValue::Image(h) => KernelArgValue::Image(*h),
            KernelArgValue::LocalMem(n) => KernelArgValue::LocalMem(*n),
            KernelArgValue::Sampler(h) => KernelArgValue::Sampler(*h),
        }
    }
}

/// Clones a kernel: the clone has the same program and an argument state
/// of its own, equal to that of `kernel`, held by one client handle. Every
/// object a slot refers to gains a reference for the clone's slot.
pub fn clone_kernel(kernel: &Kernel, objects: &mut ObjectTable) -> (r: Kernel)
    requires
        kernel.wf(),
        old(objects).wf(),
        kernel.references_live(old(objects)),
    ensures
        r.wf(),
        final(objects).wf(),
        same_program(kernel, &r),
        r.refs == 1,
        r.values@.len() == kernel.values@.len(),
        forall|i: int| 0 <= i < kernel.values@.len() ==> r.slot(i) == kernel.slot(i),
        final(objects)@ == retained_slots(old(objects)@, kernel, kernel.values@.len() as int),
{
    let n = kernel.values.len();
    let mut values: Vec<Option<KernelArgValue>> = Vec::new();
    let mut i: usize = 0;
    while i < n
        invariant
            n == kernel.values@.len(),
            i <= n,
            old(objects).wf(),
            objects.wf(),
            kernel.references_live(old(objects)),
            values@.len() == i,
            forall|j: int|
                0 <= j < i ==> (match (#[trigger] values@[j]) {
                    Some(v) => Some(v@),
                    None => None,
                }) == kernel.slot(j),
            objects@ == retained_slots(old(objects)@, kernel, i as int),
            objects.entries@.len() == old(objects).entries@.len(),
            forall|h: u64| #[trigger]
                old(objects).entry(h) is Some ==> objects.entry(h) is Some && objects.entry(
                    h,
                )->0.kind == old(objects).entry(h)->0.kind && old(objects).count(h)
                    <= objects.count(h) <= old(objects).count(h) + i,
        decreases n - i,
    {
        let copy = match &kernel.values[i] {
            Some(v) => Some(v.duplicate()),
            None => None,
        };
        if let Some(h) = kernel.reference_held(i) {
            assert(kernel.slot_reference(i as int) == Some(h));
            assert(old(objects).entry(h) is Some);
            let ghost prev = *objects;
            let kind = match objects.entries[(h - 1) as usize] {
                Some(e) => e.kind,
                None => ObjectKind::Buffer,
            };
            let _ = objects.retain(h, kind);
            proof {
                assert(objects@ == retained(prev@, h));
                assert forall|x: u64| #[trigger] old(objects).entry(x) is Some implies objects.entry(
                    x,
                ) is Some && objects.entry(x)->0.kind == old(objects).entry(x)->0.kind && old(
                    objects,
                ).count(x) <= objects.count(x) <= old(objects).count(x) + i + 1 by {
                    prev.lemma_view(x);
                    prev.lemma_view(h);
                    objects.lemma_view(x);
                }
            }
        }
        values.push(copy);
        i += 1;
    }
    Kernel {
        name: kernel.name.clone(),
        context: kernel.context,
        program: kernel.program,
        devs: copy_indices(&kernel.devs),
        attributes_string: kernel.attributes_string.clone(),
        args: copy_args(&kernel.args),
        values,
        work_group_size: kernel.work_group_size,
        subgroup_size: kernel.subgroup_size,
        num_subgroups: kernel.num_subgroups,
        builds: copy_builds(&kernel.builds),
        refs: 1,
    }
}


/// Binding the one slot that was still unset leaves every slot bound, so
/// that a kernel whose slots have all been bound, in any order, can launch.
pub proof fn lemma_last_binding_completes(before: &Kernel, after: &Kernel, i: int, value: ArgValueView)
    requires
        0 <= i < before.values@.len(),
        forall|j: int| 0 <= j < before.values@.len() && j != i ==> (#[trigger] before.values@[j]) is Some,
        slot_replaced(before, after, i, value),
    ensures
        after.all_bound(),
{
    assert forall|j: int| 0 <= j < after.values@.len() implies (#[trigger] after.values@[j]) is Some by {
        if j != i {
            assert(after.values@[j] == before.values@[j]);
        } else {
            assert(after.slot(i) == Some(value));
        }
    }
}

/// Binding a slot never unbinds another.
pub proof fn lemma_binding_keeps_slots_bound(before: &Kernel, after: &Kernel, i: int, value: ArgValueView, j: int)
    requires
        0 <= i < before.values@.len(),
        0 <= j < before.values@.len(),
        before.values@[j] is Some,
        slot_replaced(before, after, i, value),
    ensures
        after.values@[j] is Some,
{
    if j == i {
        assert(after.slot(i) == Some(value));
    }
}

} // verus!
