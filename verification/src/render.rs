//! When a presentation window shows frames, and where in it. The calls into the graphics
//! device are made outside: the presenter here says which are due, and is told how they went.

use vstd::prelude::*;

verus! {

pub const DXGI_ERROR_DEVICE_REMOVED_HR: i32 = -2_005_270_523;

pub const DXGI_ERROR_DEVICE_HUNG_HR: i32 = -2_005_270_522;

pub const DXGI_ERROR_DEVICE_RESET_HR: i32 = -2_005_270_521;

pub const DXGI_ERROR_DRIVER_INTERNAL_ERROR_HR: i32 = -2_005_270_496;

#[derive(Debug, Clone, Copy, PartialEq, Eq, Structural)]
pub struct PresentMetrics {
    pub presented_frames: u64,
    pub processor_rebuilds: u64,
    pub swap_chain_resizes: u64,
    pub suspend_events: u64,
    pub skipped_while_suspended: u64,
}

impl PresentMetrics {
    /// Nothing counted yet.
    pub open spec fn spec_zero() -> Self {
        PresentMetrics {
            presented_frames: 0,
            processor_rebuilds: 0,
            swap_chain_resizes: 0,
            suspend_events: 0,
            skipped_while_suspended: 0,
        }
    }
}

impl Default for PresentMetrics {
    fn default() -> (metrics: Self)
        ensures
            metrics == Self::spec_zero(),
    {
        PresentMetrics {
            presented_frames: 0,
            processor_rebuilds: 0,
            swap_chain_resizes: 0,
            suspend_events: 0,
            skipped_while_suspended: 0,
        }
    }
}

#[derive(Debug, Clone, Copy, PartialEq, Eq, Structural)]
pub enum PresentOutcome {
    Presented,
    SkippedSuspended,
}

#[derive(Debug, Clone, Copy, PartialEq, Eq, Structural)]
pub enum ResizeOutcome {
    Unchanged,
    Suspended,
    Resized,
}

#[derive(Debug, Clone, Copy, PartialEq, Eq, Structural)]
pub enum DxgiFailureClass {
    DeviceLost,
    Other,
}

/// Tells the failures after which the graphics device has to be made anew.
#[must_use]
pub fn classify_dxgi_error(code: i32) -> (class: DxgiFailureClass)
    ensures
        class == if code == DXGI_ERROR_DEVICE_REMOVED_HR || code == DXGI_ERROR_DEVICE_HUNG_HR
            || code == DXGI_ERROR_DEVICE_RESET_HR || code == DXGI_ERROR_DRIVER_INTERNAL_ERROR_HR {
            DxgiFailureClass::DeviceLost
        } else {
            DxgiFailureClass::Other
        },
{
    if code == DXGI_ERROR_DEVICE_REMOVED_HR || code == DXGI_ERROR_DEVICE_HUNG_HR || code
        == DXGI_ERROR_DEVICE_RESET_HR || code == DXGI_ERROR_DRIVER_INTERNAL_ERROR_HR {
        DxgiFailureClass::DeviceLost
    } else {
        DxgiFailureClass::Other
    }
}

/// Why a window or a frame is refused.
#[derive(Debug, Clone, Copy, PartialEq, Eq, Structural)]
pub enum PresentError {
    EmptyWindow,
    InvalidSurface,
}

impl PresentError {
    /// What the error says.
    pub open spec fn spec_message(self) -> Seq<char> {
        match self {
            PresentError::EmptyWindow => "presentation window dimensions must be non-zero"@,
            PresentError::InvalidSurface =>
                "decoded presentation surface must be a non-multisampled NV12 texture"@,
        }
    }

    /// The text for people.
    #[must_use]
    pub fn message(&self) -> (text: String)
        ensures
            text@ == self.spec_message(),
    {
        match self {
            PresentError::EmptyWindow =>
                "presentation window dimensions must be non-zero".to_owned(),
            PresentError::InvalidSurface =>
                "decoded presentation surface must be a non-multisampled NV12 texture".to_owned(),
        }
    }
}

/// What is known of a decoded surface.
#[derive(Debug, Clone, Copy, PartialEq, Eq, Structural)]
pub struct DecodedSurface {
    pub width: u32,
    pub height: u32,
    pub is_nv12: bool,
    pub sample_count: u32,
    pub mip_levels: u32,
}

impl DecodedSurface {
    /// A surface that can be shown.
    pub open spec fn spec_valid(self) -> bool {
        self.width != 0 && self.height != 0 && self.is_nv12 && self.sample_count == 1
    }
}

/// A rectangle in pixels, up to and without its right and bottom.
#[derive(Debug, Clone, Copy, PartialEq, Eq, Structural)]
pub struct PixelRect {
    pub left: i32,
    pub top: i32,
    pub right: i32,
    pub bottom: i32,
}

/// A length in the signed numbers that rectangles are made of.
pub open spec fn spec_signed(value: u32) -> i32 {
    if value <= i32::MAX {
        value as i32
    } else {
        i32::MAX
    }
}

fn signed(value: u32) -> (result: i32)
    ensures
        result == spec_signed(value),
{
    if value <= i32::MAX as u32 {
        value as i32
    } else {
        i32::MAX
    }
}

/// The rectangle of a whole surface.
pub open spec fn spec_whole(width: u32, height: u32) -> PixelRect {
    PixelRect { left: 0, top: 0, right: spec_signed(width), bottom: spec_signed(height) }
}

fn whole(width: u32, height: u32) -> (rect: PixelRect)
    ensures
        rect == spec_whole(width, height),
{
    PixelRect { left: 0, top: 0, right: signed(width), bottom: signed(height) }
}

/// Half of what is left over on one side.
pub open spec fn spec_margin(inner: u32, outer: u32) -> u32 {
    if inner >= outer {
        0
    } else {
        ((outer - inner) / 2) as u32
    }
}

/// Where a picture of a given size begins and ends on one axis, in the middle of an output.
pub open spec fn spec_span(inner: u32, outer: u32) -> (i32, i32) {
    let start = spec_margin(inner, outer);
    let end = if start + inner > u32::MAX {
        u32::MAX
    } else {
        (start + inner) as u32
    };
    (spec_signed(start), spec_signed(end))
}

fn span(inner: u32, outer: u32) -> (result: (i32, i32))
    ensures
        result == spec_span(inner, outer),
{
    let start: u32 = outer.saturating_sub(inner) / 2;
    (signed(start), signed(start.saturating_add(inner)))
}

/// The rectangle of a picture in the middle of an output.
pub open spec fn spec_centered(
    width: u32,
    height: u32,
    output_width: u32,
    output_height: u32,
) -> PixelRect {
    PixelRect {
        left: spec_span(width, output_width).0,
        top: spec_span(height, output_height).0,
        right: spec_span(width, output_width).1,
        bottom: spec_span(height, output_height).1,
    }
}

/// Puts a picture of a given size in the middle of an output.
#[must_use]
pub fn centered_rect(
    width: u32,
    height: u32,
    output_width: u32,
    output_height: u32,
) -> (rect: PixelRect)
    ensures
        rect == spec_centered(width, height, output_width, output_height),
{
    let (left, right): (i32, i32) = span(width, output_width);
    let (top, bottom): (i32, i32) = span(height, output_height);
    PixelRect { left, top, right, bottom }
}

/// A picture that fits into the output lies inside it, as large as it is, with margins that
/// differ by a pixel at most.
pub proof fn law_centered_picture_lies_inside(
    width: u32,
    height: u32,
    output_width: u32,
    output_height: u32,
)
    requires
        width <= output_width <= i32::MAX,
        height <= output_height <= i32::MAX,
    ensures
        ({
            let rect = spec_centered(width, height, output_width, output_height);
            &&& 0 <= rect.left && rect.right - rect.left == width && rect.right <= output_width
            &&& 0 <= rect.top && rect.bottom - rect.top == height && rect.bottom <= output_height
            &&& 0 <= (output_width - rect.right) - rect.left <= 1
            &&& 0 <= (output_height - rect.bottom) - rect.top <= 1
        }),
{
}

/// What has to be done to the window's buffers.
#[derive(Debug, Clone, Copy, PartialEq, Eq, Structural)]
pub enum ResizeStep {
    /// Nothing more.
    Done(ResizeOutcome),
    /// They have to get this size.
    ResizeBuffers { width: u32, height: u32 },
}

/// How a frame is shown.
#[derive(Debug, Clone, Copy, PartialEq, Eq, Structural)]
pub struct FramePlan {
    /// The video processor has to be made anew, for this surface and this output.
    pub rebuild: bool,
    /// The level and the layer of the texture that hold the frame.
    pub mip_slice: u32,
    pub array_slice: u32,
    pub source: PixelRect,
    pub output: PixelRect,
}

/// What has to be done with a frame.
#[derive(Debug, Clone, Copy, PartialEq, Eq, Structural)]
pub enum PresentStep {
    Skip,
    Show(FramePlan),
}

/// What a presentation window knows of itself.
#[derive(Debug, Clone, Copy, PartialEq, Eq)]
pub struct FlipPresenter {
    output_width: u32,
    output_height: u32,
    suspended: bool,
    pipeline: Option<(u32, u32)>,
    metrics: PresentMetrics,
}

/// A presenter: the size of its output, whether it is suspended, the size that the video
/// processor takes, and what was counted.
pub struct PresenterView {
    pub output_width: u32,
    pub output_height: u32,
    pub suspended: bool,
    pub pipeline: Option<(u32, u32)>,
    pub metrics: PresentMetrics,
}

impl View for FlipPresenter {
    type V = PresenterView;

    closed spec fn view(&self) -> PresenterView {
        PresenterView {
            output_width: self.output_width,
            output_height: self.output_height,
            suspended: self.suspended,
            pipeline: self.pipeline,
            metrics: self.metrics,
        }
    }
}

impl PresenterView {
    /// There is an output.
    pub open spec fn is_sound(self) -> bool {
        self.output_width != 0 && self.output_height != 0
    }

    /// A size at which there is nothing to do.
    pub open spec fn keeps(self, width: u32, height: u32) -> bool {
        !self.suspended && width == self.output_width && height == self.output_height
    }

    /// What a new size asks for.
    pub open spec fn spec_resize_step(self, width: u32, height: u32) -> ResizeStep {
        if width == 0 || height == 0 {
            ResizeStep::Done(ResizeOutcome::Suspended)
        } else if self.keeps(width, height) {
            ResizeStep::Done(ResizeOutcome::Unchanged)
        } else {
            ResizeStep::ResizeBuffers { width, height }
        }
    }

    /// The presenter after it was told of a new size. A window without an area is minimized: it
    /// is suspended, not failed.
    pub open spec fn spec_after_resize_step(self, width: u32, height: u32) -> Self {
        if width == 0 || height == 0 {
            PresenterView {
                suspended: true,
                metrics: PresentMetrics {
                    suspend_events: if self.suspended {
                        self.metrics.suspend_events
                    } else {
                        crate::counting::saturating_sum(self.metrics.suspend_events, 1)
                    },
                    ..self.metrics
                },
                ..self
            }
        } else if self.keeps(width, height) {
            self
        } else {
            PresenterView { pipeline: None, ..self }
        }
    }

    /// The presenter after its buffers got a new size.
    pub open spec fn spec_after_resize(self, width: u32, height: u32) -> Self {
        PresenterView {
            output_width: width,
            output_height: height,
            suspended: false,
            metrics: PresentMetrics {
                swap_chain_resizes: crate::counting::saturating_sum(self.metrics.swap_chain_resizes, 1),
                ..self.metrics
            },
            ..self
        }
    }

    /// How a surface is shown.
    pub open spec fn spec_plan(self, surface: DecodedSurface, subresource_index: u32) -> FramePlan {
        let levels = if surface.mip_levels == 0 {
            1u32
        } else {
            surface.mip_levels
        };
        FramePlan {
            rebuild: self.pipeline != Some((surface.width, surface.height)),
            mip_slice: subresource_index % levels,
            array_slice: subresource_index / levels,
            source: spec_whole(surface.width, surface.height),
            output: spec_whole(self.output_width, self.output_height),
        }
    }

    /// What a frame asks for.
    pub open spec fn spec_present_step(
        self,
        surface: DecodedSurface,
        subresource_index: u32,
    ) -> Result<PresentStep, PresentError> {
        if self.suspended {
            Ok(PresentStep::Skip)
        } else if !surface.spec_valid() {
            Err(PresentError::InvalidSurface)
        } else {
            Ok(PresentStep::Show(self.spec_plan(surface, subresource_index)))
        }
    }

    /// The presenter after it was handed a frame: one that is suspended counts it.
    pub open spec fn spec_after_present_step(self) -> Self {
        if self.suspended {
            PresenterView {
                metrics: PresentMetrics {
                    skipped_while_suspended: crate::counting::saturating_sum(self.metrics.skipped_while_suspended, 1),
                    ..self.metrics
                },
                ..self
            }
        } else {
            self
        }
    }

    /// The presenter after the video processor was made for a source of this size.
    pub open spec fn spec_after_rebuild(self, source_width: u32, source_height: u32) -> Self {
        PresenterView {
            pipeline: Some((source_width, source_height)),
            metrics: PresentMetrics {
                processor_rebuilds: crate::counting::saturating_sum(self.metrics.processor_rebuilds, 1),
                ..self.metrics
            },
            ..self
        }
    }

    /// The presenter after a frame was shown.
    pub open spec fn spec_after_frame(self) -> Self {
        PresenterView {
            metrics: PresentMetrics {
                presented_frames: crate::counting::saturating_sum(self.metrics.presented_frames, 1),
                ..self.metrics
            },
            ..self
        }
    }
}

impl FlipPresenter {
    /// There is an output.
    pub open spec fn wf(self) -> bool {
        self@.is_sound()
    }

    /// A presenter for a window of a given size.
    pub fn new(output_width: u32, output_height: u32) -> (result: Result<Self, PresentError>)
        ensures
            match result {
                Ok(presenter) => {
                    &&& presenter.wf()
                    &&& presenter@ == (PresenterView {
                        output_width,
                        output_height,
                        suspended: false,
                        pipeline: None,
                        metrics: PresentMetrics::spec_zero(),
                    })
                },
                Err(error) => (output_width == 0 || output_height == 0) && error
                    == PresentError::EmptyWindow,
            },
    {
        if output_width == 0 || output_height == 0 {
            return Err(PresentError::EmptyWindow);
        }
        Ok(
            FlipPresenter {
                output_width,
                output_height,
                suspended: false,
                pipeline: None,
                metrics: PresentMetrics::default(),
            },
        )
    }

    #[must_use]
    pub fn metrics(&self) -> (metrics: PresentMetrics)
        ensures
            metrics == self@.metrics,
    {
        self.metrics
    }

    #[must_use]
    pub fn output_size(&self) -> (size: (u32, u32))
        ensures
            size == (self@.output_width, self@.output_height),
    {
        (self.output_width, self.output_height)
    }

    #[must_use]
    pub fn is_suspended(&self) -> (suspended: bool)
        ensures
            suspended == self@.suspended,
    {
        self.suspended
    }

    /// Tells what a new size of the window asks for.
    pub fn resize_output(&mut self, output_width: u32, output_height: u32) -> (step: ResizeStep)
        requires
            old(self).wf(),
        ensures
            final(self).wf(),
            step == old(self)@.spec_resize_step(output_width, output_height),
            final(self)@ == old(self)@.spec_after_resize_step(output_width, output_height),
    {
        if output_width == 0 || output_height == 0 {
            if !self.suspended {
                self.metrics.suspend_events = self.metrics.suspend_events.saturating_add(1);
            }
            self.suspended = true;
            return ResizeStep::Done(ResizeOutcome::Suspended);
        }
        if !self.suspended && output_width == self.output_width && output_height
            == self.output_height {
            return ResizeStep::Done(ResizeOutcome::Unchanged);
        }
        // The video processor is made for one output size, so it does not outlive it.

        self.pipeline = None;
        ResizeStep::ResizeBuffers { width: output_width, height: output_height }
    }

    /// Takes note that the buffers have their new size.
    pub fn buffers_resized(&mut self, output_width: u32, output_height: u32) -> (outcome:
        ResizeOutcome)
        requires
            old(self).wf(),
            output_width != 0,
            output_height != 0,
        ensures
            final(self).wf(),
            outcome == ResizeOutcome::Resized,
            final(self)@ == old(self)@.spec_after_resize(output_width, output_height),
    {
        self.output_width = output_width;
        self.output_height = output_height;
        self.suspended = false;
        self.metrics.swap_chain_resizes = self.metrics.swap_chain_resizes.saturating_add(1);
        ResizeOutcome::Resized
    }

    /// Tells how a decoded surface is shown. The layer of the texture follows from the
    /// decoder's index, rather than being taken for the first.
    pub fn present_nv12(
        &mut self,
        surface: DecodedSurface,
        subresource_index: u32,
    ) -> (result: Result<PresentStep, PresentError>)
        requires
            old(self).wf(),
        ensures
            final(self).wf(),
            result == old(self)@.spec_present_step(surface, subresource_index),
            final(self)@ == old(self)@.spec_after_present_step(),
    {
        if self.suspended {
            self.metrics.skipped_while_suspended =
            self.metrics.skipped_while_suspended.saturating_add(1);
            return Ok(PresentStep::Skip);
        }
        if surface.width == 0 || surface.height == 0 || !surface.is_nv12 || surface.sample_count
            != 1 {
            return Err(PresentError::InvalidSurface);
        }
        let rebuild = match self.pipeline {
            Some((width, height)) => width != surface.width || height != surface.height,
            None => true,
        };
        let levels: u32 = if surface.mip_levels == 0 {
            1
        } else {
            surface.mip_levels
        };
        Ok(
            PresentStep::Show(
                FramePlan {
                    rebuild,
                    mip_slice: subresource_index % levels,
                    array_slice: subresource_index / levels,
                    source: whole(surface.width, surface.height),
                    output: whole(self.output_width, self.output_height),
                },
            ),
        )
    }

    /// Takes note that the video processor was made for a source of this size.
    pub fn pipeline_rebuilt(&mut self, source_width: u32, source_height: u32)
        requires
            old(self).wf(),
        ensures
            final(self).wf(),
            final(self)@ == old(self)@.spec_after_rebuild(source_width, source_height),
    {
        self.pipeline = Some((source_width, source_height));
        self.metrics.processor_rebuilds = self.metrics.processor_rebuilds.saturating_add(1);
    }

    /// Takes note that a frame was shown.
    pub fn frame_presented(&mut self) -> (outcome: PresentOutcome)
        requires
            old(self).wf(),
        ensures
            final(self).wf(),
            outcome == PresentOutcome::Presented,
            final(self)@ == old(self)@.spec_after_frame(),
    {
        self.metrics.presented_frames = self.metrics.presented_frames.saturating_add(1);
        PresentOutcome::Presented
    }
}

/// A minimized window skips every frame and shows them again once it has an area, with a video
/// processor that is made anew.
pub proof fn law_minimized_window_comes_back(
    presenter: PresenterView,
    surface: DecodedSurface,
    index: u32,
    width: u32,
    height: u32,
)
    requires
        width != 0,
        height != 0,
        surface.spec_valid(),
    ensures
        ({
            let minimized = presenter.spec_after_resize_step(0, 0);
            let restored = minimized.spec_after_resize_step(width, height).spec_after_resize(
                width,
                height,
            );
            &&& minimized.spec_present_step(surface, index) == Ok::<PresentStep, PresentError>(
                PresentStep::Skip,
            )
            &&& minimized.spec_resize_step(width, height) == ResizeStep::ResizeBuffers {
                width,
                height,
            }
            &&& restored.spec_present_step(surface, index) == Ok::<PresentStep, PresentError>(
                PresentStep::Show(restored.spec_plan(surface, index)),
            )
            &&& restored.spec_plan(surface, index).rebuild
        }),
{
}

/// The video processor is made once for frames of one size.
pub proof fn law_processor_is_kept_for_one_size(
    presenter: PresenterView,
    surface: DecodedSurface,
    index: u32,
)
    ensures
        !presenter.spec_after_rebuild(surface.width, surface.height).spec_after_frame().spec_plan(
            surface,
            index,
        ).rebuild,
{
}

/// A subresource's level and layer name it: no other has the same. A surface has one level at
/// least.
pub proof fn law_subresource_is_found(presenter: PresenterView, surface: DecodedSurface, index: u32)
    ensures
        ({
            let levels: int = if surface.mip_levels == 0 {
                1
            } else {
                surface.mip_levels as int
            };
            let plan = presenter.spec_plan(surface, index);
            plan.mip_slice < levels && plan.array_slice * levels + plan.mip_slice == index
        }),
{
    let levels: int = if surface.mip_levels == 0 {
        1
    } else {
        surface.mip_levels as int
    };
    vstd::arithmetic::div_mod::lemma_fundamental_div_mod(index as int, levels);
    assert(levels * (index as int / levels) == (index as int / levels) * levels)
        by (nonlinear_arith);
    assert(0 <= index as int % levels < levels) by (nonlinear_arith)
        requires
            levels > 0,
    ;
}

/// A picture that is larger than the window starts at its edge, and is not made smaller.
pub proof fn law_large_picture_starts_at_the_edge(
    width: u32,
    height: u32,
    output_width: u32,
    output_height: u32,
)
    requires
        output_width <= width <= i32::MAX,
        output_height <= height <= i32::MAX,
    ensures
        spec_centered(width, height, output_width, output_height) == (PixelRect {
            left: 0,
            top: 0,
            right: width as i32,
            bottom: height as i32,
        }),
{
}

/// A window without an area is suspended, one that keeps its size is left alone, and any other
/// gets new buffers of its size. Being suspended counts once, and a resize ends it.
pub proof fn law_resizing_follows_the_window(presenter: PresenterView, width: u32, height: u32)
    ensures
        ({
            let step = presenter.spec_resize_step(width, height);
            let after = presenter.spec_after_resize_step(width, height);
            let resized = presenter.spec_after_resize(width, height);
            let empty = width == 0 || height == 0;
            let same = width == presenter.output_width && height == presenter.output_height;
            &&& empty ==> step == ResizeStep::Done(ResizeOutcome::Suspended) && after.suspended
            &&& empty && presenter.suspended ==> after == presenter
            &&& empty && !presenter.suspended && presenter.metrics.suspend_events < u64::MAX
                ==> after.metrics.suspend_events == presenter.metrics.suspend_events + 1
            &&& !empty && same && !presenter.suspended ==> step == ResizeStep::Done(
                ResizeOutcome::Unchanged,
            ) && after == presenter
            &&& !empty && (!same || presenter.suspended) ==> step == (ResizeStep::ResizeBuffers {
                width,
                height,
            }) && after.pipeline is None && after.suspended == presenter.suspended
                && after.metrics == presenter.metrics
            &&& after.output_width == presenter.output_width && after.output_height
                == presenter.output_height
            &&& resized.output_width == width && resized.output_height == height
                && !resized.suspended && resized.pipeline == presenter.pipeline
            &&& presenter.metrics.swap_chain_resizes < u64::MAX
                ==> resized.metrics.swap_chain_resizes == presenter.metrics.swap_chain_resizes + 1
            &&& resized.metrics.presented_frames == presenter.metrics.presented_frames
                && resized.metrics.suspend_events == presenter.metrics.suspend_events
                && resized.metrics.processor_rebuilds == presenter.metrics.processor_rebuilds
        }),
{
}

/// Every sound surface is shown while the window is there: all of it, over all of the window. An
/// unsound one is refused, and while the window is suspended none is looked at.
pub proof fn law_sound_surfaces_are_shown(
    presenter: PresenterView,
    surface: DecodedSurface,
    index: u32,
)
    ensures
        ({
            let step = presenter.spec_present_step(surface, index);
            let sound = surface.width > 0 && surface.height > 0 && surface.is_nv12
                && surface.sample_count == 1;
            &&& presenter.suspended ==> step == Ok::<_, PresentError>(PresentStep::Skip)
            &&& !presenter.suspended && !sound ==> step == Err::<PresentStep, _>(
                PresentError::InvalidSurface,
            )
            &&& !presenter.suspended && sound ==> {
                &&& step is Ok && step->Ok_0 is Show
                &&& step->Ok_0->Show_0.source.left == 0 && step->Ok_0->Show_0.source.top == 0
                &&& step->Ok_0->Show_0.output.left == 0 && step->Ok_0->Show_0.output.top == 0
                &&& surface.width <= i32::MAX ==> step->Ok_0->Show_0.source.right == surface.width
                &&& surface.height <= i32::MAX ==> step->Ok_0->Show_0.source.bottom
                    == surface.height
                &&& presenter.output_width <= i32::MAX ==> step->Ok_0->Show_0.output.right
                    == presenter.output_width
                &&& presenter.output_height <= i32::MAX ==> step->Ok_0->Show_0.output.bottom
                    == presenter.output_height
                &&& step->Ok_0->Show_0.rebuild <==> presenter.pipeline is None
                    || presenter.pipeline->Some_0.0 != surface.width
                    || presenter.pipeline->Some_0.1 != surface.height
            }
        }),
{
}

/// What happens to a presenter counts once, under its own name, and changes nothing else.
pub proof fn law_presenting_is_counted(presenter: PresenterView, width: u32, height: u32)
    requires
        presenter.metrics.skipped_while_suspended < u64::MAX,
        presenter.metrics.processor_rebuilds < u64::MAX,
        presenter.metrics.presented_frames < u64::MAX,
    ensures
        ({
            let asked = presenter.spec_after_present_step();
            let rebuilt = presenter.spec_after_rebuild(width, height);
            let shown = presenter.spec_after_frame();
            let m = presenter.metrics;
            &&& !presenter.suspended ==> asked == presenter
            &&& presenter.suspended ==> asked == (PresenterView {
                metrics: PresentMetrics {
                    skipped_while_suspended: (m.skipped_while_suspended + 1) as u64,
                    ..m
                },
                ..presenter
            })
            &&& rebuilt == (PresenterView {
                pipeline: Some((width, height)),
                metrics: PresentMetrics {
                    processor_rebuilds: (m.processor_rebuilds + 1) as u64,
                    ..m
                },
                ..presenter
            })
            &&& shown == (PresenterView {
                metrics: PresentMetrics { presented_frames: (m.presented_frames + 1) as u64, ..m },
                ..presenter
            })
        }),
{
}

} // verus!
