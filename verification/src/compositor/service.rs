//! The compositor service's own decisions: taking the display over from the
//! GPU service (two framebuffers, the front one bound to the scanout, with
//! every buffer released again when a step fails), and what the main loop
//! does with each receive result.
use vstd::prelude::*;

use crate::drivers::virtio_gpu::{DisplayInfo, GpuError};
use crate::gpu::service::{GpuBufferHandle, VirtioGpuRect};
use crate::ids::ChannelId;
use crate::ipc::IpcError;
use super::render::DEFAULT_CLEAR_COLOR;

verus! {

/// The compositor service's state: its channel, the display, and the two
/// framebuffers it owns once it has taken the display over.
#[derive(Debug, Clone, Copy, PartialEq, Eq, Structural)]
pub struct CompositorState {
    pub channel: ChannelId,
    pub display: DisplayInfo,
    /// Currently scanned out.
    pub front_buffer: Option<GpuBufferHandle>,
    /// Render target of the next frame.
    pub back_buffer: Option<GpuBufferHandle>,
}

impl CompositorState {
    /// A service on `channel` driving `display`, with no buffers yet.
    pub fn new(channel: ChannelId, display: DisplayInfo) -> (s: CompositorState)
        ensures
            s == (CompositorState { channel, display, front_buffer: None, back_buffer: None }),
    {
        CompositorState { channel, display, front_buffer: None, back_buffer: None }
    }
}

/// Where a display takeover stands: which buffers it holds so far.
#[derive(Debug, Clone, Copy, PartialEq, Eq, Structural)]
pub enum HandoffStage {
    /// Allocating the front buffer.
    AllocFront,
    /// Front buffer held; allocating the back buffer.
    AllocBack(GpuBufferHandle),
    /// Both held; binding the front buffer to the scanout.
    Bind(GpuBufferHandle, GpuBufferHandle),
}

/// What the last requested step of a takeover came to.
#[derive(Debug, Clone, Copy, PartialEq, Eq, Structural)]
pub enum HandoffEvent {
    /// A framebuffer was allocated.
    Allocated(GpuBufferHandle),
    /// Scanout bind, transfer and flush all succeeded.
    Bound,
    /// The step failed.
    Failed(GpuError),
}

/// What the service does next in a takeover.
#[derive(Debug, PartialEq, Eq)]
pub enum HandoffAction {
    /// Allocate a `width x height` framebuffer.
    Allocate { width: u32, height: u32 },
    /// Fill `front` with `color`, bind it to `scanout`, transfer and flush
    /// `rect`.
    FillAndBind { front: GpuBufferHandle, color: u32, scanout: u32, rect: VirtioGpuRect },
    /// Release these buffers and give up with `error`; the GPU service
    /// keeps the display.
    Release { buffers: Vec<GpuBufferHandle>, error: GpuError },
    /// The buffers are stored: announce that the compositor owns the display.
    Publish,
}

/// The buffers a takeover holds at `stage`.
pub open spec fn held(stage: HandoffStage) -> Seq<GpuBufferHandle> {
    match stage {
        HandoffStage::AllocFront => seq![],
        HandoffStage::AllocBack(f) => seq![f],
        HandoffStage::Bind(f, b) => seq![f, b],
    }
}

/// The event can answer the step that `stage` asked for.
pub open spec fn answers(stage: HandoffStage, ev: HandoffEvent) -> bool {
    match stage {
        HandoffStage::Bind(..) => !(ev is Allocated),
        _ => !(ev is Bound),
    }
}

/// Whether the display is worth taking over: it has an area.
pub fn should_hand_off(display: &DisplayInfo) -> (b: bool)
    ensures
        b == (display.width > 0 && display.height > 0),
{
    display.width > 0 && display.height > 0
}

/// Start a takeover: allocate the front buffer at the display's size.
pub fn handoff_start(state: &CompositorState) -> (r: (HandoffStage, HandoffAction))
    ensures
        r.0 == HandoffStage::AllocFront,
        r.1 == (HandoffAction::Allocate { width: state.display.width, height: state.display.height }),
{
    (HandoffStage::AllocFront, HandoffAction::Allocate { width: state.display.width, height: state.display.height })
}

/// One step of a takeover. A failure at any stage releases exactly the
/// buffers held so far and ends it; an allocation moves on (the back buffer
/// next, then filling the front buffer with the clear colour and binding it
/// to the display's scanout over the whole display); a successful bind
/// stores both buffers and ends it with `Publish`. The state changes only
/// then.
pub fn handoff_step(state: &mut CompositorState, stage: HandoffStage, ev: HandoffEvent) -> (r: (
    Option<HandoffStage>,
    HandoffAction,
))
    requires
        answers(stage, ev),
    ensures
        ev matches HandoffEvent::Failed(e) ==> {
            &&& r.0 is None
            &&& r.1 matches HandoffAction::Release { buffers, error } && buffers@ == held(stage) && error == e
            &&& *final(state) == *old(state)
        },
        ev matches HandoffEvent::Allocated(h) ==> {
            &&& r.0 matches Some(next) && held(next) == held(stage).push(h)
            &&& *final(state) == *old(state)
            &&& stage == HandoffStage::AllocFront ==> r.1 == (HandoffAction::Allocate {
                width: old(state).display.width,
                height: old(state).display.height,
            })
            &&& stage matches HandoffStage::AllocBack(f) ==> r.1 == (HandoffAction::FillAndBind {
                front: f,
                color: DEFAULT_CLEAR_COLOR,
                scanout: old(state).display.scanout_id,
                rect: VirtioGpuRect { x: 0, y: 0, width: old(state).display.width, height: old(state).display.height },
            })
        },
        ev == HandoffEvent::Bound ==> {
            &&& r.0 is None
            &&& r.1 == HandoffAction::Publish
            &&& stage matches HandoffStage::Bind(f, b) && *final(state) == (CompositorState {
                front_buffer: Some(f),
                back_buffer: Some(b),
                ..*old(state)
            })
        },
{
    match ev {
        HandoffEvent::Failed(e) => {
            let mut buffers: Vec<GpuBufferHandle> = Vec::new();
            match stage {
                HandoffStage::AllocFront => {},
                HandoffStage::AllocBack(f) => {
                    buffers.push(f);
                },
                HandoffStage::Bind(f, b) => {
                    buffers.push(f);
                    buffers.push(b);
                },
            }
            proof {
                assert(buffers@ =~= held(stage));
            }
            (None, HandoffAction::Release { buffers, error: e })
        },
        HandoffEvent::Allocated(h) => match stage {
            HandoffStage::AllocFront => {
                proof {
                    assert(held(HandoffStage::AllocBack(h)) =~= held(stage).push(h));
                }
                (
                    Some(HandoffStage::AllocBack(h)),
                    HandoffAction::Allocate { width: state.display.width, height: state.display.height },
                )
            },
            HandoffStage::AllocBack(f) => {
                proof {
                    assert(held(HandoffStage::Bind(f, h)) =~= held(stage).push(h));
                }
                let rect = VirtioGpuRect { x: 0, y: 0, width: state.display.width, height: state.display.height };
                (
                    Some(HandoffStage::Bind(f, h)),
                    HandoffAction::FillAndBind {
                        front: f,
                        color: DEFAULT_CLEAR_COLOR,
                        scanout: state.display.scanout_id,
                        rect,
                    },
                )
            },
            HandoffStage::Bind(..) => (None, HandoffAction::Publish),
        },
        HandoffEvent::Bound => match stage {
            HandoffStage::Bind(f, b) => {
                state.front_buffer = Some(f);
                state.back_buffer = Some(b);
                (None, HandoffAction::Publish)
            },
            _ => (None, HandoffAction::Publish),
        },
    }
}

/// What the main loop does after a receive on the service channel.
#[derive(Debug, Clone, Copy, PartialEq, Eq, Structural)]
pub enum LoopAction {
    /// A request arrived: acknowledge it with an empty reply.
    Acknowledge,
    /// The channel is gone: leave the loop.
    Exit,
    /// Nothing arrived in time: run the composition step and go on.
    Continue,
    /// Another receive error: log it and go on.
    LogAndContinue,
}

/// The main loop's reaction to a receive result.
pub fn loop_action(recv: Result<usize, IpcError>) -> (a: LoopAction)
    ensures
        a == (match recv {
            Ok(_) => LoopAction::Acknowledge,
            Err(IpcError::Epipe) => LoopAction::Exit,
            Err(IpcError::Etimedout) => LoopAction::Continue,
            Err(_) => LoopAction::LogAndContinue,
        }),
{
    match recv {
        Ok(_) => LoopAction::Acknowledge,
        Err(IpcError::Epipe) => LoopAction::Exit,
        Err(IpcError::Etimedout) => LoopAction::Continue,
        Err(_) => LoopAction::LogAndContinue,
    }
}

} // verus!
