//! Programs, as far as creating kernels from them is concerned.

use vstd::prelude::*;
use crate::error::ErrorKind;
use crate::kernel::Kernel;
use crate::kernel::KernelArg;
use crate::kernel::KernelArgValue;
use crate::kernel::KernelBuild;
use crate::kernel::copy_args;
use crate::kernel::copy_builds;
use crate::kernel::copy_indices;

verus! {

/// One entry point of a built program.
#[derive(Debug)]
pub struct KernelTemplate {
    pub name: String,
    /// The entry point has the same parameters in every device's build.
    pub unique_signature: bool,
    pub attributes_string: String,
    pub args: Vec<KernelArg>,
    pub work_group_size: [usize; 3],
    pub subgroup_size: usize,
    pub num_subgroups: usize,
    pub builds: Vec<KernelBuild>,
}

/// A program and what its builds produced.
#[derive(Debug)]
pub struct Program {
    /// The program's handle.
    pub id: u64,
    /// Identity of the program's context.
    pub context: u64,
    /// The program's devices, as positions in the platform's list.
    pub devs: Vec<usize>,
    /// The entry points of the successful builds; empty without one.
    pub kernels: Vec<KernelTemplate>,
}

/// `k` is a fresh kernel for the entry point `t` of `program`: every slot
/// unset, held by one client handle.
pub open spec fn instance_of(k: &Kernel, program: &Program, t: &KernelTemplate) -> bool {
    &&& k.wf()
    &&& k.name@ == t.name@
    &&& k.context == program.context
    &&& k.program == program.id
    &&& k.devs@ == program.devs@
    &&& k.attributes_string@ == t.attributes_string@
    &&& k.args@ == t.args@
    &&& k.work_group_size == t.work_group_size
    &&& k.subgroup_size == t.subgroup_size
    &&& k.num_subgroups == t.num_subgroups
    &&& k.builds@ == t.builds@
    &&& k.refs == 1
    &&& forall|i: int| 0 <= i < k.values@.len() ==> (#[trigger] k.values@[i]) is None
}

/// The position of the first entry point named `name` at or after `start`,
/// or `kernels.len()`.
pub open spec fn template_index_from(kernels: Seq<KernelTemplate>, name: Seq<char>, start: int) -> int
    decreases kernels.len() - start,
{
    if start < 0 || start >= kernels.len() {
        kernels.len() as int
    } else if kernels[start].name@ == name {
        start
    } else {
        template_index_from(kernels, name, start + 1)
    }
}

/// The number of entry points among the first `n` that have the same
/// parameters in every device's build.
pub open spec fn unique_count(kernels: Seq<KernelTemplate>, n: int) -> nat
    decreases n,
{
    if n <= 0 {
        0
    } else {
        unique_count(kernels, n - 1) + if kernels[n - 1].unique_signature {
            1nat
        } else {
            0nat
        }
    }
}

/// The position among all entry points of the `j`-th one that has the same
/// parameters in every device's build, counting the first `n` entry points.
pub open spec fn unique_position(kernels: Seq<KernelTemplate>, n: int, j: int) -> int
    decreases n,
{
    if n <= 0 {
        -1
    } else if j < unique_count(kernels, n - 1) {
        unique_position(kernels, n - 1, j)
    } else {
        n - 1
    }
}

impl KernelTemplate {
    /// A fresh kernel for this entry point.
    pub fn instantiate(&self, program: &Program) -> (k: Kernel)
        ensures
            instance_of(&k, program, self),
    {
        let mut values: Vec<Option<KernelArgValue>> = Vec::new();
        let mut i: usize = 0;
        while i < self.args.len()
            invariant
                i <= self.args@.len(),
                values@.len() == i,
                forall|j: int| 0 <= j < i ==> (#[trigger] values@[j]) is None,
            decreases self.args@.len() - i,
        {
            values.push(None);
            i += 1;
        }
        Kernel {
            name: self.name.clone(),
            context: program.context,
            program: program.id,
            devs: copy_indices(&program.devs),
            attributes_string: self.attributes_string.clone(),
            args: copy_args(&self.args),
            values,
            work_group_size: self.work_group_size,
            subgroup_size: self.subgroup_size,
            num_subgroups: self.num_subgroups,
            builds: copy_builds(&self.builds),
            refs: 1,
        }
    }
}

impl Program {
    /// Finds the first entry point named `name`.
    pub fn find_kernel(&self, name: &String) -> (r: Option<usize>)
        ensures
            match r {
                Some(i) => i == template_index_from(self.kernels@, name@, 0) && i
                    < self.kernels@.len(),
                None => template_index_from(self.kernels@, name@, 0) == self.kernels@.len(),
            },
    {
        let mut i: usize = 0;
        while i < self.kernels.len()
            invariant
                i <= self.kernels@.len(),
                template_index_from(self.kernels@, name@, 0) == template_index_from(
                    self.kernels@,
                    name@,
                    i as int,
                ),
            decreases self.kernels@.len() - i,
        {
            if self.kernels[i].name == *name {
                return Some(i);
            }
            i += 1;
        }
        None
    }
}

/// Why no kernel named `name` can be created from `program`, if none can:
/// no name was given; the program has no successful build; it has no entry
/// point of that name; the entry point differs between devices.
pub open spec fn create_kernel_error(program: &Program, name: Option<Seq<char>>) -> Option<
    ErrorKind,
> {
    match name {
        None => Some(ErrorKind::InvalidValue),
        Some(name) => {
            let i = template_index_from(program.kernels@, name, 0);
            if program.kernels@.len() == 0 {
                Some(ErrorKind::InvalidProgramExecutable)
            } else if i >= program.kernels@.len() {
                Some(ErrorKind::InvalidKernelName)
            } else if !program.kernels@[i].unique_signature {
                Some(ErrorKind::InvalidKernelDefinition)
            } else {
                None
            }
        },
    }
}

/// Creates the kernel named `kernel_name` from `program`.
pub fn create_kernel(program: &Program, kernel_name: Option<&str>) -> (r: Result<Kernel, ErrorKind>)
    ensures
        match r {
            Ok(k) => {
                &&& kernel_name is Some
                &&& create_kernel_error(program, Some(kernel_name->0@)) is None
                &&& instance_of(
                    &k,
                    program,
                    &program.kernels@[template_index_from(program.kernels@, kernel_name->0@, 0)],
                )
            },
            Err(e) => create_kernel_error(
                program,
                match kernel_name {
                    Some(n) => Some(n@),
                    None => None,
                },
            ) == Some(e),
        },
{
    let name = match kernel_name {
        Some(n) => n.to_owned(),
        None => {
            return Err(ErrorKind::InvalidValue);
        },
    };
    if program.kernels.len() == 0 {
        return Err(ErrorKind::InvalidProgramExecutable);
    }
    let i = match program.find_kernel(&name) {
        Some(i) => i,
        None => {
            return Err(ErrorKind::InvalidKernelName);
        },
    };
    if !program.kernels[i].unique_signature {
        return Err(ErrorKind::InvalidKernelDefinition);
    }
    Ok(program.kernels[i].instantiate(program))
}

/// What creating all kernels of a program gave.
#[derive(Debug)]
pub struct KernelsCreated {
    /// The kernels, in the order of the program's entry points; empty where
    /// the client asked for the count alone.
    pub kernels: Vec<Kernel>,
    /// The number of kernels the program has to offer.
    pub count: usize,
}

/// Why the kernels of `program` cannot be created, if they cannot: the
/// program has no successful build, or the client's array is shorter than
/// the list of entry points.
pub open spec fn create_kernels_error(program: &Program, capacity: Option<u32>) -> Option<
    ErrorKind,
> {
    if program.kernels@.len() == 0 {
        Some(ErrorKind::InvalidProgramExecutable)
    } else if capacity is Some && program.kernels@.len() > capacity->0 {
        Some(ErrorKind::InvalidValue)
    } else {
        None
    }
}

/// Kernel `j` of `created` is a fresh kernel for the `j`-th entry point,
/// among the first `n`, that has the same parameters in every device's build.
pub open spec fn created_from(created: Seq<Kernel>, program: &Program, n: int, j: int) -> bool {
    let p = unique_position(program.kernels@, n, j);
    &&& 0 <= p < n
    &&& program.kernels@[p].unique_signature
    &&& instance_of(&created[j], program, &program.kernels@[p])
}

/// Creates a kernel for every entry point of `program` that has the same
/// parameters in every device's build.
///
/// `capacity` is the length of the array the client provided for the
/// kernels, absent where the client provided none and wants the count only.
pub fn create_kernels_in_program(program: &Program, capacity: Option<u32>) -> (r: Result<
    KernelsCreated,
    ErrorKind,
>)
    ensures
        match r {
            Ok(c) => {
                &&& create_kernels_error(program, capacity) is None
                &&& c.count == unique_count(program.kernels@, program.kernels@.len() as int)
                &&& c.kernels@.len() == (if capacity is Some {
                    c.count as int
                } else {
                    0
                })
                &&& forall|j: int|
                    0 <= j < c.kernels@.len() ==> #[trigger] created_from(
                        c.kernels@,
                        program,
                        program.kernels@.len() as int,
                        j,
                    )
            },
            Err(e) => create_kernels_error(program, capacity) == Some(e),
        },
{
    if program.kernels.len() == 0 {
        return Err(ErrorKind::InvalidProgramExecutable);
    }
    if let Some(cap) = capacity {
        if program.kernels.len() > cap as usize {
            return Err(ErrorKind::InvalidValue);
        }
    }
    let wanted = capacity.is_some();
    let mut kernels: Vec<Kernel> = Vec::new();
    let mut count: usize = 0;
    let n = program.kernels.len();
    let mut i: usize = 0;
    while i < n
        invariant
            n == program.kernels@.len(),
            i <= n,
            wanted == capacity is Some,
            count == unique_count(program.kernels@, i as int),
            count <= i,
            kernels@.len() == (if wanted {
                count as int
            } else {
                0
            }),
            forall|j: int|
                0 <= j < kernels@.len() ==> #[trigger] created_from(kernels@, program, i as int, j),
        decreases n - i,
    {
        let ghost before = kernels@;
        if program.kernels[i].unique_signature {
            if wanted {
                kernels.push(program.kernels[i].instantiate(program));
            }
            count += 1;
        }
        proof {
            assert forall|j: int| 0 <= j < kernels@.len() implies #[trigger] created_from(
                kernels@,
                program,
                i + 1,
                j,
            ) by {
                if j < before.len() {
                    assert(created_from(before, program, i as int, j));
                    assert(kernels@[j] == before[j]);
                    assert(unique_position(program.kernels@, i + 1, j) == unique_position(
                        program.kernels@,
                        i as int,
                        j,
                    ));
                } else {
                    assert(unique_position(program.kernels@, i + 1, j) == i);
                }
            }
        }
        i += 1;
    }
    Ok(KernelsCreated { kernels, count })
}

} // verus!
