use boat::error::{GeometryProbeError, Ui4Error};
use boat::frame::{render_admitted_frame, write_exact, write_offset};

#[test]
fn busy_frame_defers_submission_and_success_retires_once() {
    let mut timeline = 7;
    let mut previous_view = 3;
    for admission in [Err(Ui4Error::Busy), Err(Ui4Error::Busy), Ok(())] {
        let rendered = render_admitted_frame(admission, || {
            timeline += 1;
            previous_view = 4;
            Ok(())
        })
        .unwrap();
        assert_eq!(rendered, admission.is_ok());
        assert_eq!(timeline, if rendered { 8 } else { 7 });
        assert_eq!(previous_view, if rendered { 4 } else { 3 });
    }
}

#[test]
fn other_admission_errors_remain_fatal_without_submission() {
    for error in [Ui4Error::NotFound, Ui4Error::InvalidState, Ui4Error::Ui4] {
        let result = render_admitted_frame(Err(error), || panic!("lease not acquired"));
        assert_eq!(result, Err(GeometryProbeError::Ui4("frame-begin", error)));
    }
}

#[test]
fn errors_after_acquiring_a_lease_are_never_treated_as_deferral() {
    for error in [
        GeometryProbeError::Vgpu("retained-frame-submit", -16),
        GeometryProbeError::Ui4("frame-publish", Ui4Error::Busy),
    ] {
        assert_eq!(render_admitted_frame(Ok(()), || Err(error)), Err(error));
    }
}

#[test]
fn unnamed_admission_errors_keep_their_code() {
    let error = Ui4Error::Other(-71);
    assert_eq!(
        render_admitted_frame(Err(error), || Ok(())),
        Err(GeometryProbeError::Ui4("frame-begin", error))
    );
}

#[test]
fn only_complete_writes_succeed() {
    assert_eq!(write_exact(0, 12, Ok(12), -95, -5), Ok(()));
    assert_eq!(write_exact(0, 12, Ok(11), -95, -5), Err(-5));
    assert_eq!(write_exact(0, 12, Ok(13), -95, -5), Err(-5));
    assert_eq!(write_exact(0, 12, Err(-9), -95, -5), Err(-9));
    assert_eq!(write_exact(7, 0, Ok(0), -95, -5), Ok(()));
    assert_eq!(write_offset(4096, -95), Ok(4096));
}
