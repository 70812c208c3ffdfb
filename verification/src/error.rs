//! The error outcomes of the runtime and their numeric codes.

use vstd::prelude::*;

verus! {

/// Every way a call into the runtime can be refused.
///
/// Each validated condition maps to exactly one of these; the numeric value
/// that crosses the API boundary is given by [`ErrorKind::code`].
#[derive(Clone, Copy, Debug, PartialEq, Eq, Structural)]
pub enum ErrorKind {
    MemObjectAllocationFailure,
    OutOfResources,
    OutOfHostMemory,
    ExecStatusErrorForEventsInWaitList,
    InvalidValue,
    InvalidDevice,
    InvalidContext,
    InvalidQueueProperties,
    InvalidCommandQueue,
    InvalidMemObject,
    InvalidSampler,
    InvalidProgram,
    InvalidProgramExecutable,
    InvalidKernelName,
    InvalidKernelDefinition,
    InvalidKernel,
    InvalidArgIndex,
    InvalidArgValue,
    InvalidArgSize,
    InvalidKernelArgs,
    InvalidWorkDimension,
    InvalidWorkGroupSize,
    InvalidWorkItemSize,
    InvalidGlobalOffset,
    InvalidEventWaitList,
    InvalidEvent,
    InvalidOperation,
    InvalidGlobalWorkSize,
    InvalidProperty,
}

impl ErrorKind {
    /// The numeric code of this error; always negative.
    pub open spec fn spec_code(self) -> int {
        match self {
            ErrorKind::MemObjectAllocationFailure => -4,
            ErrorKind::OutOfResources => -5,
            ErrorKind::OutOfHostMemory => -6,
            ErrorKind::ExecStatusErrorForEventsInWaitList => -14,
            ErrorKind::InvalidValue => -30,
            ErrorKind::InvalidDevice => -33,
            ErrorKind::InvalidContext => -34,
            ErrorKind::InvalidQueueProperties => -35,
            ErrorKind::InvalidCommandQueue => -36,
            ErrorKind::InvalidMemObject => -38,
            ErrorKind::InvalidSampler => -41,
            ErrorKind::InvalidProgram => -44,
            ErrorKind::InvalidProgramExecutable => -45,
            ErrorKind::InvalidKernelName => -46,
            ErrorKind::InvalidKernelDefinition => -47,
            ErrorKind::InvalidKernel => -48,
            ErrorKind::InvalidArgIndex => -49,
            ErrorKind::InvalidArgValue => -50,
            ErrorKind::InvalidArgSize => -51,
            ErrorKind::InvalidKernelArgs => -52,
            ErrorKind::InvalidWorkDimension => -53,
            ErrorKind::InvalidWorkGroupSize => -54,
            ErrorKind::InvalidWorkItemSize => -55,
            ErrorKind::InvalidGlobalOffset => -56,
            ErrorKind::InvalidEventWaitList => -57,
            ErrorKind::InvalidEvent => -58,
            ErrorKind::InvalidOperation => -59,
            ErrorKind::InvalidGlobalWorkSize => -63,
            ErrorKind::InvalidProperty => -64,
        }
    }

    /// The numeric code reported to the client for this error.
    pub fn code(self) -> (c: i32)
        ensures
            c == self.spec_code(),
            c < 0,
    {
        match self {
            ErrorKind::MemObjectAllocationFailure => -4,
            ErrorKind::OutOfResources => -5,
            ErrorKind::OutOfHostMemory => -6,
            ErrorKind::ExecStatusErrorForEventsInWaitList => -14,
            ErrorKind::InvalidValue => -30,
            ErrorKind::InvalidDevice => -33,
            ErrorKind::InvalidContext => -34,
            ErrorKind::InvalidQueueProperties => -35,
            ErrorKind::InvalidCommandQueue => -36,
            ErrorKind::InvalidMemObject => -38,
            ErrorKind::InvalidSampler => -41,
            ErrorKind::InvalidProgram => -44,
            ErrorKind::InvalidProgramExecutable => -45,
            ErrorKind::InvalidKernelName => -46,
            ErrorKind::InvalidKernelDefinition => -47,
            ErrorKind::InvalidKernel => -48,
            ErrorKind::InvalidArgIndex => -49,
            ErrorKind::InvalidArgValue => -50,
            ErrorKind::InvalidArgSize => -51,
            ErrorKind::InvalidKernelArgs => -52,
            ErrorKind::InvalidWorkDimension => -53,
            ErrorKind::InvalidWorkGroupSize => -54,
            ErrorKind::InvalidWorkItemSize => -55,
            ErrorKind::InvalidGlobalOffset => -56,
            ErrorKind::InvalidEventWaitList => -57,
            ErrorKind::InvalidEvent => -58,
            ErrorKind::InvalidOperation => -59,
            ErrorKind::InvalidGlobalWorkSize => -63,
            ErrorKind::InvalidProperty => -64,
        }
    }

    /// The error that a numeric code names, if it names one.
    pub fn from_code(code: i32) -> (r: Option<ErrorKind>)
        ensures
            match r {
                Some(e) => e.spec_code() == code,
                None => forall|e: ErrorKind| e.spec_code() != code,
            },
    {
        match code {
            -4 => Some(ErrorKind::MemObjectAllocationFailure),
            -5 => Some(ErrorKind::OutOfResources),
            -6 => Some(ErrorKind::OutOfHostMemory),
            -14 => Some(ErrorKind::ExecStatusErrorForEventsInWaitList),
            -30 => Some(ErrorKind::InvalidValue),
            -33 => Some(ErrorKind::InvalidDevice),
            -34 => Some(ErrorKind::InvalidContext),
            -35 => Some(ErrorKind::InvalidQueueProperties),
            -36 => Some(ErrorKind::InvalidCommandQueue),
            -38 => Some(ErrorKind::InvalidMemObject),
            -41 => Some(ErrorKind::InvalidSampler),
            -44 => Some(ErrorKind::InvalidProgram),
            -45 => Some(ErrorKind::InvalidProgramExecutable),
            -46 => Some(ErrorKind::InvalidKernelName),
            -47 => Some(ErrorKind::InvalidKernelDefinition),
            -48 => Some(ErrorKind::InvalidKernel),
            -49 => Some(ErrorKind::InvalidArgIndex),
            -50 => Some(ErrorKind::InvalidArgValue),
            -51 => Some(ErrorKind::InvalidArgSize),
            -52 => Some(ErrorKind::InvalidKernelArgs),
            -53 => Some(ErrorKind::InvalidWorkDimension),
            -54 => Some(ErrorKind::InvalidWorkGroupSize),
            -55 => Some(ErrorKind::InvalidWorkItemSize),
            -56 => Some(ErrorKind::InvalidGlobalOffset),
            -57 => Some(ErrorKind::InvalidEventWaitList),
            -58 => Some(ErrorKind::InvalidEvent),
            -59 => Some(ErrorKind::InvalidOperation),
            -63 => Some(ErrorKind::InvalidGlobalWorkSize),
            -64 => Some(ErrorKind::InvalidProperty),
            _ => None,
        }
    }
}

/// Distinct errors have distinct codes.
pub proof fn lemma_codes_are_distinct(a: ErrorKind, b: ErrorKind)
    ensures
        a.spec_code() == b.spec_code() <==> a == b,
{
}

} // verus!
