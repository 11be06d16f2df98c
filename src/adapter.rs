use vstd::prelude::*;

use crate::frame::VideoPacket;

verus! {

/// Lifecycle of one underlying decoder instance.
#[derive(Clone, Copy, Debug, PartialEq, Eq, Structural)]
pub enum DecoderState {
    /// Not initialised yet: frames are dropped.
    Unconfigured,
    /// Operating: frames go to the engine.
    Configured,
    /// A fatal decode fault; the instance must be replaced.
    Closed,
}

/// What the adapter holds, as plain values.
pub struct AdapterView {
    pub state: DecoderState,
    /// A fresh instance was set up since the host last collected the output.
    pub replace_pending: bool,
    /// Frames handed to the engine, oldest first, not yet collected.
    pub output: Seq<VideoPacket>,
}

/// Hands `f` straight to the engine: it takes frames only while configured.
pub open spec fn submit_spec(a: AdapterView, f: VideoPacket) -> AdapterView {
    if a.state == DecoderState::Configured {
        AdapterView { output: a.output.push(f), ..a }
    } else {
        a
    }
}

/// The state-driven dispatch of one frame, and whether it hit a closed
/// instance (which is then replaced by a configured one).
pub open spec fn decode_packet_spec(a: AdapterView, f: VideoPacket) -> (AdapterView, bool) {
    match a.state {
        DecoderState::Unconfigured => (a, false),
        DecoderState::Configured => (AdapterView { output: a.output.push(f), ..a }, false),
        DecoderState::Closed => (
            AdapterView { state: DecoderState::Configured, replace_pending: true, ..a },
            true,
        ),
    }
}

/// What the host collects from the adapter.
pub struct DecoderOutput {
    /// The engine instance must be replaced by a freshly configured one
    /// before the frames below are fed to it.
    pub replace_instance: bool,
    /// Frames to feed to the engine, in order.
    pub frames: Vec<VideoPacket>,
}

/// Wraps one decoder engine behind its three-state lifecycle. The engine
/// itself lives with the host; the adapter decides what reaches it.
pub struct FrameDecoderAdapter {
    state: DecoderState,
    replace_pending: bool,
    output: Vec<VideoPacket>,
}

impl View for FrameDecoderAdapter {
    type V = AdapterView;

    closed spec fn view(&self) -> AdapterView {
        AdapterView {
            state: self.state,
            replace_pending: self.replace_pending,
            output: self.output@,
        }
    }
}

impl FrameDecoderAdapter {
    pub fn new() -> (r: Self)
        ensures
            r@.state == DecoderState::Unconfigured,
            !r@.replace_pending,
            r@.output == Seq::<VideoPacket>::empty(),
    {
        FrameDecoderAdapter {
            state: DecoderState::Unconfigured,
            replace_pending: false,
            output: Vec::new(),
        }
    }

    /// Moves an unconfigured instance to the operating state; other states
    /// are left as they are.
    pub fn configure(&mut self)
        ensures
            final(self)@.state == (if old(self)@.state == DecoderState::Unconfigured {
                DecoderState::Configured
            } else {
                old(self)@.state
            }),
            final(self)@.replace_pending == old(self)@.replace_pending,
            final(self)@.output == old(self)@.output,
    {
        if self.state == DecoderState::Unconfigured {
            self.state = DecoderState::Configured;
        }
    }

    /// Records that the engine reported a fatal fault.
    pub fn close(&mut self)
        ensures
            final(self)@ == (AdapterView { state: DecoderState::Closed, ..old(self)@ }),
    {
        self.state = DecoderState::Closed;
    }

    pub fn state(&self) -> (r: DecoderState)
        ensures
            r == self@.state,
    {
        self.state
    }

    /// Dispatches `packet` on the current state. Returns true when the
    /// instance was found closed and was replaced; the frame is then lost.
    pub fn decode_packet(&mut self, packet: VideoPacket) -> (fault: bool)
        ensures
            (final(self)@, fault) == decode_packet_spec(old(self)@, packet),
    {
        match self.state {
            DecoderState::Unconfigured => false,
            DecoderState::Configured => {
                self.output.push(packet);
                false
            },
            DecoderState::Closed => {
                self.state = DecoderState::Configured;
                self.replace_pending = true;
                true
            },
        }
    }

    /// Hands `packet` to the engine without the state dispatch; an engine
    /// that is not configured rejects it.
    pub fn submit(&mut self, packet: VideoPacket)
        ensures
            final(self)@ == submit_spec(old(self)@, packet),
    {
        if self.state == DecoderState::Configured {
            self.output.push(packet);
        }
    }

    /// Collects what the host must do with the engine, and clears it.
    pub fn take_output(&mut self) -> (r: DecoderOutput)
        ensures
            r.replace_instance == old(self)@.replace_pending,
            r.frames@ == old(self)@.output,
            final(self)@ == (AdapterView {
                replace_pending: false,
                output: Seq::<VideoPacket>::empty(),
                ..old(self)@
            }),
    {
        let replace_instance = self.replace_pending;
        let mut frames: Vec<VideoPacket> = Vec::new();
        frames.append(&mut self.output);
        self.replace_pending = false;
        DecoderOutput { replace_instance, frames }
    }
}

} // verus!
