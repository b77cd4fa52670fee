//! Shared device memory: the size of a ring, and the cache maintenance of its
//! ranges.
use crate::geometry::SharedResourceId;
use vstd::prelude::*;

verus! {

/// An error of the ring protocol.  `Other` carries the code of any error that
/// has no name here.
#[derive(Debug, Clone, Copy, PartialEq, Eq, Structural)]
pub enum CubismError {
    SizeOverflow,
    VisibilityFailed,
    Other(i32),
}

/// Why a ring could not be made.
#[derive(Debug, Clone, Copy, PartialEq, Eq, Structural)]
pub enum VVideoRingError {
    Cubism(CubismError),
    Vgpu(i32),
}

/// A byte range of a shared resource.
#[derive(Debug, Clone, Copy, PartialEq, Eq, Structural)]
pub struct SharedByteRange {
    pub resource: SharedResourceId,
    pub offset: u64,
    pub byte_length: u64,
}

/// A ring in device memory: the identity of the resource, the buffer that
/// backs it, and its layout.
#[derive(Debug, Clone, Copy, PartialEq, Eq, Structural)]
pub struct VVideoRing {
    pub resource: SharedResourceId,
    pub buffer: u64,
    pub slot_count: usize,
    pub slot_stride: usize,
}

/// What making a ring answers, given the device's and the protocol's answers.
pub open spec fn ring_outcome(
    resource: SharedResourceId,
    slot_count: usize,
    slot_stride: usize,
    memory: Result<u64, i32>,
    laid_out: Result<(), CubismError>,
) -> Result<VVideoRing, VVideoRingError> {
    if slot_count * slot_stride > usize::MAX {
        Err(VVideoRingError::Cubism(CubismError::SizeOverflow))
    } else {
        match (memory, laid_out) {
            (Err(code), _) => Err(VVideoRingError::Vgpu(code)),
            (Ok(_), Err(error)) => Err(VVideoRingError::Cubism(error)),
            (Ok(buffer), Ok(_)) => Ok(VVideoRing { resource, buffer, slot_count, slot_stride }),
        }
    }
}

impl VVideoRing {
    /// The bytes that a ring takes, where that is a size.
    pub fn total_bytes(slot_count: usize, slot_stride: usize) -> (bytes: Result<
        usize,
        VVideoRingError,
    >)
        ensures
            bytes == (if slot_count * slot_stride <= usize::MAX {
                Ok::<usize, VVideoRingError>((slot_count * slot_stride) as usize)
            } else {
                Err(VVideoRingError::Cubism(CubismError::SizeOverflow))
            }),
    {
        match slot_count.checked_mul(slot_stride) {
            Some(bytes) => Ok(bytes),
            None => Err(VVideoRingError::Cubism(CubismError::SizeOverflow)),
        }
    }

    /// A fresh ring over allocated memory.  The device is asked for memory
    /// only where the ring has a size, and the protocol to lay the ring out
    /// only where there is memory.
    pub fn allocate_fresh(
        resource: SharedResourceId,
        slot_count: usize,
        slot_stride: usize,
        memory: Result<u64, i32>,
        laid_out: Result<(), CubismError>,
    ) -> (ring: Result<VVideoRing, VVideoRingError>)
        ensures
            ring == ring_outcome(resource, slot_count, slot_stride, memory, laid_out),
    {
        match VVideoRing::total_bytes(slot_count, slot_stride) {
            Err(error) => Err(error),
            Ok(_) => match memory {
                Err(code) => Err(VVideoRingError::Vgpu(code)),
                Ok(buffer) => match laid_out {
                    Err(error) => Err(VVideoRingError::Cubism(error)),
                    Ok(_) => Ok(VVideoRing { resource, buffer, slot_count, slot_stride }),
                },
            },
        }
    }

    /// The buffer that backs the ring.
    pub fn buffer(&self) -> (buffer: u64)
        ensures
            buffer == self.buffer,
    {
        self.buffer
    }

    /// The cache maintenance of the ring's ranges.
    pub fn visibility(&self) -> (visibility: VVideoVisibility)
        ensures
            visibility.resource == self.resource,
    {
        VVideoVisibility { resource: self.resource }
    }
}

/// A cache operation on a native range.
#[derive(Debug, Clone, Copy, PartialEq, Eq, Structural)]
pub enum CacheOperation {
    Flush { offset: usize, bytes: usize },
    Invalidate { offset: usize, bytes: usize },
}

/// Cache maintenance for one resource.
#[derive(Debug, Clone, Copy, PartialEq, Eq, Structural)]
pub struct VVideoVisibility {
    pub resource: SharedResourceId,
}

impl VVideoVisibility {
    /// Whether a range is one of the resource, in native coordinates.
    pub open spec fn covers(self, range: SharedByteRange) -> bool {
        &&& range.resource == self.resource
        &&& range.offset <= usize::MAX
        &&& range.byte_length <= usize::MAX
    }

    /// The operation that a range calls for.
    pub open spec fn operation(self, range: SharedByteRange, flush: bool) -> Result<
        CacheOperation,
        CubismError,
    > {
        if !self.covers(range) {
            Err(CubismError::VisibilityFailed)
        } else if flush {
            Ok(
                CacheOperation::Flush {
                    offset: range.offset as usize,
                    bytes: range.byte_length as usize,
                },
            )
        } else {
            Ok(
                CacheOperation::Invalidate {
                    offset: range.offset as usize,
                    bytes: range.byte_length as usize,
                },
            )
        }
    }

    /// The operation that a range calls for.
    pub fn maintain(&self, range: SharedByteRange, flush: bool) -> (operation: Result<
        CacheOperation,
        CubismError,
    >)
        ensures
            operation == self.operation(range, flush),
    {
        if range.resource != self.resource {
            return Err(CubismError::VisibilityFailed);
        }
        if range.offset > usize::MAX as u64 || range.byte_length > usize::MAX as u64 {
            return Err(CubismError::VisibilityFailed);
        }
        let offset: usize = range.offset as usize;
        let bytes: usize = range.byte_length as usize;
        if flush {
            Ok(CacheOperation::Flush { offset, bytes })
        } else {
            Ok(CacheOperation::Invalidate { offset, bytes })
        }
    }

    /// What a maintenance answers, given the memory's answer.
    pub fn maintained(&self, done: Result<(), i32>) -> (outcome: Result<(), CubismError>)
        ensures
            outcome == match done {
                Ok(_) => Ok::<(), CubismError>(()),
                Err(_) => Err(CubismError::VisibilityFailed),
            },
    {
        match done {
            Ok(_) => Ok(()),
            Err(_) => Err(CubismError::VisibilityFailed),
        }
    }

    /// Slot data that the processor wrote is flushed.
    pub fn cpu_make_gpu_visible(&self, range: SharedByteRange) -> (operation: Result<
        CacheOperation,
        CubismError,
    >)
        ensures
            operation == self.operation(range, true),
    {
        self.maintain(range, true)
    }

    /// So is a slot's control line when it is published.
    pub fn cpu_publish_slot(&self, range: SharedByteRange) -> (operation: Result<
        CacheOperation,
        CubismError,
    >)
        ensures
            operation == self.operation(range, true),
    {
        self.maintain(range, true)
    }

    /// A payload that the device wrote is invalidated.
    pub fn gpu_make_cpu_visible(&self, range: SharedByteRange) -> (operation: Result<
        CacheOperation,
        CubismError,
    >)
        ensures
            operation == self.operation(range, false),
    {
        self.maintain(range, false)
    }
}

/// A ring's own visibility never touches another resource.
pub proof fn lemma_foreign_ranges_are_refused(
    ring: VVideoRing,
    visibility: VVideoVisibility,
    range: SharedByteRange,
    flush: bool,
)
    requires
        visibility.resource == ring.resource,
        range.resource != ring.resource,
    ensures
        visibility.operation(range, flush) == Err::<CacheOperation, CubismError>(
            CubismError::VisibilityFailed,
        ),
{
}

/// A ring is made exactly where its size fits, there is memory and the ring can
/// be laid out in it; otherwise the first of the three that failed is told.
pub proof fn lemma_what_makes_a_ring(
    resource: SharedResourceId,
    slot_count: usize,
    slot_stride: usize,
    memory: Result<u64, i32>,
    laid_out: Result<(), CubismError>,
)
    ensures
        ({
            let fits = slot_count as int * slot_stride as int <= usize::MAX;
            let ring = ring_outcome(resource, slot_count, slot_stride, memory, laid_out);
            &&& ring is Ok <==> fits && memory is Ok && laid_out is Ok
            &&& ring matches Ok(made) ==> {
                &&& made.resource == resource
                &&& Ok::<u64, i32>(made.buffer) == memory
                &&& made.slot_count == slot_count
                &&& made.slot_stride == slot_stride
            }
            &&& !fits ==> ring == Err::<VVideoRing, VVideoRingError>(
                VVideoRingError::Cubism(CubismError::SizeOverflow),
            )
            &&& fits && memory is Err ==> ring == Err::<VVideoRing, VVideoRingError>(
                VVideoRingError::Vgpu(memory->Err_0),
            )
            &&& fits && memory is Ok && laid_out is Err ==> ring == Err::<
                VVideoRing,
                VVideoRingError,
            >(VVideoRingError::Cubism(laid_out->Err_0))
        }),
{
}

/// A range of the own resource that can be addressed is maintained as it is,
/// by a flush or by an invalidation as asked; any other is refused.
pub proof fn lemma_what_is_maintained(
    visibility: VVideoVisibility,
    range: SharedByteRange,
    flush: bool,
)
    ensures
        ({
            let operation = visibility.operation(range, flush);
            let own = range.resource == visibility.resource && range.offset <= usize::MAX
                && range.byte_length <= usize::MAX;
            &&& !own ==> operation == Err::<CacheOperation, CubismError>(
                CubismError::VisibilityFailed,
            )
            &&& own && flush ==> (operation matches Ok(CacheOperation::Flush { offset, bytes })
                && offset == range.offset && bytes == range.byte_length)
            &&& own && !flush ==> (operation matches Ok(
                CacheOperation::Invalidate { offset, bytes },
            ) && offset == range.offset && bytes == range.byte_length)
        }),
{
}

} // verus!
