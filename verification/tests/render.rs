use classmesh::render::{
    centered_rect, classify_dxgi_error, DecodedSurface, DxgiFailureClass, FlipPresenter,
    PixelRect, PresentError, PresentOutcome, PresentStep, ResizeOutcome, ResizeStep,
    DXGI_ERROR_DEVICE_HUNG_HR, DXGI_ERROR_DEVICE_REMOVED_HR, DXGI_ERROR_DEVICE_RESET_HR,
    DXGI_ERROR_DRIVER_INTERNAL_ERROR_HR,
};

#[test]
fn classifies_device_loss_hresult_values() {
    for code in [
        DXGI_ERROR_DEVICE_REMOVED_HR,
        DXGI_ERROR_DEVICE_HUNG_HR,
        DXGI_ERROR_DEVICE_RESET_HR,
        DXGI_ERROR_DRIVER_INTERNAL_ERROR_HR,
    ] {
        assert_eq!(classify_dxgi_error(code), DxgiFailureClass::DeviceLost);
    }
    let other = 0x8000_4005_u32 as i32;
    assert_eq!(classify_dxgi_error(other), DxgiFailureClass::Other);
}

#[test]
fn device_loss_codes_have_their_values() {
    assert_eq!(DXGI_ERROR_DEVICE_REMOVED_HR, 0x887A_0005_u32 as i32);
    assert_eq!(DXGI_ERROR_DEVICE_HUNG_HR, 0x887A_0006_u32 as i32);
    assert_eq!(DXGI_ERROR_DEVICE_RESET_HR, 0x887A_0007_u32 as i32);
    assert_eq!(DXGI_ERROR_DRIVER_INTERNAL_ERROR_HR, 0x887A_0020_u32 as i32);
}

fn surface(width: u32, height: u32) -> DecodedSurface {
    DecodedSurface {
        width,
        height,
        is_nv12: true,
        sample_count: 1,
        mip_levels: 1,
    }
}

#[test]
fn pictures_lie_in_the_middle() {
    assert_eq!(
        centered_rect(1024, 576, 1024, 768),
        PixelRect {
            left: 0,
            top: 96,
            right: 1024,
            bottom: 672
        }
    );
    assert_eq!(
        centered_rect(405, 720, 1280, 720),
        PixelRect {
            left: 437,
            top: 0,
            right: 842,
            bottom: 720
        }
    );
    assert_eq!(
        centered_rect(u32::MAX, 1, 10, 10),
        PixelRect {
            left: 0,
            top: 4,
            right: i32::MAX,
            bottom: 5
        }
    );
}

#[test]
fn minimized_windows_skip_frames_and_come_back() {
    let mut presenter = FlipPresenter::new(1280, 720).expect("a window");
    assert_eq!(
        presenter.resize_output(1280, 720),
        ResizeStep::Done(ResizeOutcome::Unchanged)
    );
    for _ in 0..2 {
        assert_eq!(
            presenter.resize_output(0, 720),
            ResizeStep::Done(ResizeOutcome::Suspended)
        );
    }
    assert!(presenter.is_suspended());
    assert_eq!(
        presenter.present_nv12(surface(0, 0), 0),
        Ok(PresentStep::Skip)
    );
    assert_eq!(
        presenter.resize_output(1280, 720),
        ResizeStep::ResizeBuffers {
            width: 1280,
            height: 720
        }
    );
    assert_eq!(
        presenter.buffers_resized(1280, 720),
        ResizeOutcome::Resized
    );
    assert!(!presenter.is_suspended());
    assert_eq!(presenter.output_size(), (1280, 720));
    let metrics = presenter.metrics();
    assert_eq!(metrics.suspend_events, 1);
    assert_eq!(metrics.skipped_while_suspended, 1);
    assert_eq!(metrics.swap_chain_resizes, 1);
}

#[test]
fn the_processor_is_made_for_each_size() {
    let mut presenter = FlipPresenter::new(1280, 720).expect("a window");
    let Ok(PresentStep::Show(plan)) = presenter.present_nv12(surface(1920, 1080), 0) else {
        panic!("shown");
    };
    assert!(plan.rebuild);
    assert_eq!(
        plan.source,
        PixelRect {
            left: 0,
            top: 0,
            right: 1920,
            bottom: 1080
        }
    );
    assert_eq!(plan.output.right, 1280);
    presenter.pipeline_rebuilt(1920, 1080);
    assert_eq!(presenter.frame_presented(), PresentOutcome::Presented);

    let mut layered = surface(1920, 1080);
    layered.mip_levels = 3;
    let Ok(PresentStep::Show(plan)) = presenter.present_nv12(layered, 7) else {
        panic!("shown");
    };
    assert!(!plan.rebuild);
    assert_eq!((plan.mip_slice, plan.array_slice), (1, 2));
    layered.mip_levels = 0;
    let Ok(PresentStep::Show(plan)) = presenter.present_nv12(layered, 7) else {
        panic!("shown");
    };
    assert_eq!((plan.mip_slice, plan.array_slice), (0, 7));

    let _ = presenter.resize_output(640, 360);
    let Ok(PresentStep::Show(plan)) = presenter.present_nv12(surface(1920, 1080), 0) else {
        panic!("shown");
    };
    assert!(plan.rebuild);
    assert_eq!(presenter.metrics().presented_frames, 1);
    assert_eq!(presenter.metrics().processor_rebuilds, 1);
}

#[test]
fn what_cannot_be_shown_is_refused() {
    assert_eq!(FlipPresenter::new(0, 1), Err(PresentError::EmptyWindow));
    assert_eq!(
        FlipPresenter::new(1, 0).expect_err("no window").message(),
        "presentation window dimensions must be non-zero"
    );
    let mut presenter = FlipPresenter::new(1280, 720).expect("a window");
    let mut rgb = surface(2, 2);
    rgb.is_nv12 = false;
    let mut sampled = surface(2, 2);
    sampled.sample_count = 4;
    for bad in [surface(0, 2), surface(2, 0), rgb, sampled] {
        assert_eq!(
            presenter.present_nv12(bad, 0),
            Err(PresentError::InvalidSurface)
        );
    }
}
