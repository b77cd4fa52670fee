use boat::geometry::SharedResourceId;
use boat::ring::{CacheOperation, CubismError, SharedByteRange, VVideoRing, VVideoRingError};

const RESOURCE: SharedResourceId = SharedResourceId(9);

fn range(resource: u64, offset: u64, byte_length: u64) -> SharedByteRange {
    SharedByteRange { resource: SharedResourceId(resource), offset, byte_length }
}

#[test]
fn rings_are_allocated_in_whole_slots() {
    assert_eq!(VVideoRing::total_bytes(3, 128), Ok(384));
    assert_eq!(
        VVideoRing::total_bytes(usize::MAX, 2),
        Err(VVideoRingError::Cubism(CubismError::SizeOverflow))
    );
    let ring = VVideoRing::allocate_fresh(RESOURCE, 3, 128, Ok(40), Ok(())).unwrap();
    assert_eq!(ring.buffer(), 40);
    assert_eq!((ring.slot_count, ring.slot_stride), (3, 128));
}

#[test]
fn rings_fail_under_the_first_error() {
    assert_eq!(
        VVideoRing::allocate_fresh(RESOURCE, usize::MAX, 2, Err(-12), Ok(())),
        Err(VVideoRingError::Cubism(CubismError::SizeOverflow))
    );
    assert_eq!(
        VVideoRing::allocate_fresh(RESOURCE, 1, 128, Err(-12), Err(CubismError::Other(3))),
        Err(VVideoRingError::Vgpu(-12))
    );
    assert_eq!(
        VVideoRing::allocate_fresh(RESOURCE, 1, 128, Ok(40), Err(CubismError::Other(3))),
        Err(VVideoRingError::Cubism(CubismError::Other(3)))
    );
}

#[test]
fn ranges_are_flushed_and_invalidated() {
    let ring = VVideoRing::allocate_fresh(RESOURCE, 1, 128, Ok(40), Ok(())).unwrap();
    let visibility = ring.visibility();
    let flush = Ok(CacheOperation::Flush { offset: 64, bytes: 4 });
    let invalidate = Ok(CacheOperation::Invalidate { offset: 64, bytes: 4 });
    assert_eq!(visibility.cpu_make_gpu_visible(range(9, 64, 4)), flush);
    assert_eq!(visibility.cpu_publish_slot(range(9, 64, 4)), flush);
    assert_eq!(visibility.gpu_make_cpu_visible(range(9, 64, 4)), invalidate);
    assert_eq!(visibility.maintain(range(9, 64, 4), true), flush);
    assert_eq!(visibility.maintained(Ok(())), Ok(()));
    assert_eq!(visibility.maintained(Err(-5)), Err(CubismError::VisibilityFailed));
}

#[test]
fn foreign_ranges_are_refused() {
    let ring = VVideoRing::allocate_fresh(RESOURCE, 1, 128, Ok(40), Ok(())).unwrap();
    let refused = Err(CubismError::VisibilityFailed);
    assert_eq!(ring.visibility().cpu_make_gpu_visible(range(8, 64, 4)), refused);
    assert_eq!(ring.visibility().gpu_make_cpu_visible(range(10, 64, 4)), refused);
}
