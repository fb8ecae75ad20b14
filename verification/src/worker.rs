//! The audio worker's command loop, one step at a time: for each command
//! from the UI, the worker's decision and the I/O action that follows.
//! The application performs the action (opening a stream, applying a
//! float setting) and reports what it opened back to `EngineState`.

use vstd::prelude::*;
use crate::core_types::DeviceId;
use crate::engine::{EngineState, first_active, is_source_of_text, DEFAULT_INTRINSIC_LATENCY};
use crate::guard::{DEVICE_NOT_FOUND_PREFIX, ENGINE_NOT_STARTED, ERR_FEEDBACK_LOOP, TEST_PLAYING_PREFIX};
use crate::output::OutputState;
use crate::sync::{DeviceSyncParams, aligned, keeps_settings};

verus! {

/// A command to the audio worker. Settings carried as floats (volume,
/// balance, EQ gains) stay with the application; the command names the
/// device they go to.
#[derive(Debug)]
pub enum WorkerCommand {
    Start,
    StopCapture,
    AddOutput { device_name: String },
    RemoveOutput { id: DeviceId },
    SetVolume { id: DeviceId },
    SetMuted { id: DeviceId, muted: bool },
    SetBalance { id: DeviceId },
    SetEq { id: DeviceId },
    SetMasterGain { gain_bits: u32 },
    SetMasterMuted { muted: bool },
    PlayTestSignal { device_name: String },
    StopTestSignal { device_name: String },
    Shutdown,
}

/// What the worker does after a command.
#[derive(Debug)]
pub enum WorkerAction {
    /// Open loopback capture; report it with `capture_started`.
    OpenCapture,
    /// Reply success; nothing else to do.
    ReplyOk,
    /// Reply this failure; nothing else to do.
    ReplyErr(String),
    /// Close the capture and every output stream.
    CloseAll,
    /// Open an output stream on the device; report it with
    /// `output_opened`, with `intrinsic_latency` until the user sets one.
    OpenOutput { device_name: String, intrinsic_latency: u128 },
    /// Close every output stream on the device.
    CloseOutput { id: DeviceId },
    /// Apply the command's setting to the active output at this position
    /// (the first stream on the device), then reply success.
    ApplyToOutput { index: usize },
    /// Start a test stream on the device; report it with `test_started`.
    StartTest { device_name: String },
    /// Stop every test stream on the device.
    StopTest { device_name: String },
    /// Leave the loop.
    Exit,
}

/// The failure text of a reply, if the action is a failure reply.
pub open spec fn reply_error(a: WorkerAction) -> Option<Seq<char>> {
    match a {
        WorkerAction::ReplyErr(e) => Some(e@),
        _ => None,
    }
}

/// The two states hold the same registries.
pub open spec fn same_registries(a: EngineState, b: EngineState) -> bool {
    &&& a.sync_spec() == b.sync_spec()
    &&& a.outputs_spec() == b.outputs_spec()
    &&& a.active_spec() == b.active_spec()
    &&& a.source_spec() == b.source_spec()
    &&& a.tests_spec() == b.tests_spec()
}

/// A command aimed at an active output: the first stream on the device
/// gets it; a device with no stream is "not found".
pub open spec fn routed_to_output(old_state: EngineState, id: Seq<char>, r: WorkerAction) -> bool {
    &&& old_state.active_spec().contains(id) ==> (r matches WorkerAction::ApplyToOutput { index } && first_active(
        old_state.active_spec(),
        id,
        index as int,
    ))
    &&& !old_state.active_spec().contains(id) ==> reply_error(r) == Some(DEVICE_NOT_FOUND_PREFIX@ + id)
}

/// The worker's decision on one command.
pub open spec fn decided(old_state: EngineState, new_state: EngineState, cmd: WorkerCommand, r: WorkerAction) -> bool {
    match cmd {
        WorkerCommand::Start => {
            &&& same_registries(old_state, new_state)
            &&& old_state.source_spec() is Some ==> r is ReplyOk
            &&& old_state.source_spec() is None ==> r is OpenCapture
        },
        WorkerCommand::StopCapture => {
            &&& r is CloseAll
            &&& new_state.source_spec() is None
            &&& new_state.active_spec() == Seq::<Seq<char>>::empty()
            &&& new_state.sync_spec().device_map() == Map::<Seq<char>, DeviceSyncParams>::empty()
            &&& new_state.outputs_spec().outputs_map() == Map::<Seq<char>, OutputState>::empty()
            &&& new_state.outputs_spec().master_spec() == old_state.outputs_spec().master_spec()
            &&& new_state.tests_spec() == old_state.tests_spec()
        },
        WorkerCommand::AddOutput { device_name } => {
            &&& same_registries(old_state, new_state)
            &&& is_source_of_text(old_state.source_spec(), device_name@) ==> reply_error(r) == Some(ERR_FEEDBACK_LOOP@)
            &&& old_state.source_spec() is None ==> reply_error(r) == Some(ENGINE_NOT_STARTED@)
            &&& old_state.source_spec() is Some && !is_source_of_text(old_state.source_spec(), device_name@) ==> r
                == (WorkerAction::OpenOutput { device_name, intrinsic_latency: DEFAULT_INTRINSIC_LATENCY })
        },
        WorkerCommand::RemoveOutput { id } => {
            &&& r == (WorkerAction::CloseOutput { id })
            &&& new_state.active_spec() == old_state.active_spec().filter(|k: Seq<char>| k != id@)
            &&& new_state.sync_spec().device_map().dom() == old_state.sync_spec().device_map().dom().remove(id@)
            &&& forall|k: Seq<char>| #[trigger] new_state.sync_spec().device_map().contains_key(k) ==> keeps_settings(
                old_state.sync_spec().device_map()[k],
                new_state.sync_spec().device_map()[k],
            )
            &&& aligned(new_state.sync_spec().target(), new_state.sync_spec().device_map())
            &&& new_state.outputs_spec().outputs_map() == old_state.outputs_spec().outputs_map().remove(id@)
            &&& new_state.outputs_spec().master_spec() == old_state.outputs_spec().master_spec()
            &&& new_state.source_spec() == old_state.source_spec()
            &&& new_state.tests_spec() == old_state.tests_spec()
        },
        WorkerCommand::SetVolume { id } => same_registries(old_state, new_state) && routed_to_output(old_state, id@, r),
        WorkerCommand::SetBalance { id } => same_registries(old_state, new_state) && routed_to_output(old_state, id@, r),
        WorkerCommand::SetEq { id } => same_registries(old_state, new_state) && routed_to_output(old_state, id@, r),
        WorkerCommand::SetMuted { id, muted } => {
            &&& routed_to_output(old_state, id@, r)
            &&& old_state.active_spec().contains(id@) ==> new_state.outputs_spec().outputs_map()
                == old_state.outputs_spec().outputs_map().insert(
                id@,
                OutputState { muted, ..old_state.outputs_spec().outputs_map()[id@] },
            )
            &&& !old_state.active_spec().contains(id@) ==> new_state.outputs_spec().outputs_map()
                == old_state.outputs_spec().outputs_map()
            &&& new_state.outputs_spec().master_spec() == old_state.outputs_spec().master_spec()
            &&& new_state.sync_spec() == old_state.sync_spec()
            &&& new_state.active_spec() == old_state.active_spec()
            &&& new_state.source_spec() == old_state.source_spec()
            &&& new_state.tests_spec() == old_state.tests_spec()
        },
        WorkerCommand::SetMasterGain { gain_bits } => {
            &&& r is ReplyOk
            &&& new_state.outputs_spec().master_spec().gain_spec() == gain_bits
            &&& new_state.outputs_spec().master_spec().muted_spec() == old_state.outputs_spec().master_spec().muted_spec()
            &&& new_state.outputs_spec().outputs_map() == old_state.outputs_spec().outputs_map()
            &&& new_state.sync_spec() == old_state.sync_spec()
            &&& new_state.active_spec() == old_state.active_spec()
            &&& new_state.source_spec() == old_state.source_spec()
            &&& new_state.tests_spec() == old_state.tests_spec()
        },
        WorkerCommand::SetMasterMuted { muted } => {
            &&& r is ReplyOk
            &&& new_state.outputs_spec().master_spec().muted_spec() == muted
            &&& new_state.outputs_spec().master_spec().gain_spec() == old_state.outputs_spec().master_spec().gain_spec()
            &&& new_state.outputs_spec().outputs_map() == old_state.outputs_spec().outputs_map()
            &&& new_state.sync_spec() == old_state.sync_spec()
            &&& new_state.active_spec() == old_state.active_spec()
            &&& new_state.source_spec() == old_state.source_spec()
            &&& new_state.tests_spec() == old_state.tests_spec()
        },
        WorkerCommand::PlayTestSignal { device_name } => {
            &&& same_registries(old_state, new_state)
            &&& is_source_of_text(old_state.source_spec(), device_name@) ==> reply_error(r) == Some(ERR_FEEDBACK_LOOP@)
            &&& !is_source_of_text(old_state.source_spec(), device_name@) && old_state.tests_spec().contains(device_name@)
                ==> reply_error(r) == Some(TEST_PLAYING_PREFIX@ + device_name@)
            &&& !is_source_of_text(old_state.source_spec(), device_name@) && !old_state.tests_spec().contains(device_name@)
                ==> r == (WorkerAction::StartTest { device_name })
        },
        WorkerCommand::StopTestSignal { device_name } => {
            &&& r == (WorkerAction::StopTest { device_name })
            &&& new_state.tests_spec() == old_state.tests_spec().filter(|k: Seq<char>| k != device_name@)
            &&& new_state.sync_spec() == old_state.sync_spec()
            &&& new_state.outputs_spec() == old_state.outputs_spec()
            &&& new_state.active_spec() == old_state.active_spec()
            &&& new_state.source_spec() == old_state.source_spec()
        },
        WorkerCommand::Shutdown => r is Exit && same_registries(old_state, new_state),
    }
}

fn route(state: &EngineState, id: &DeviceId) -> (r: WorkerAction)
    ensures
        routed_to_output(*state, id@, r),
{
    match state.locate_active(id) {
        Ok(index) => WorkerAction::ApplyToOutput { index },
        Err(e) => WorkerAction::ReplyErr(e),
    }
}

impl EngineState {
    /// One step of the worker's command loop: updates the registries for
    /// what needs no I/O and says what the application does next.
    pub fn decide(&mut self, cmd: WorkerCommand) -> (r: WorkerAction)
        requires
            old(self).wf(),
        ensures
            final(self).wf(),
            decided(*old(self), *final(self), cmd, r),
    {
        match cmd {
            WorkerCommand::Start => {
                if self.is_running() {
                    WorkerAction::ReplyOk
                } else {
                    WorkerAction::OpenCapture
                }
            },
            WorkerCommand::StopCapture => {
                self.capture_stopped();
                WorkerAction::CloseAll
            },
            WorkerCommand::AddOutput { device_name } => {
                match self.check_add_output(device_name.as_str()) {
                    Ok(()) => WorkerAction::OpenOutput { device_name, intrinsic_latency: DEFAULT_INTRINSIC_LATENCY },
                    Err(e) => WorkerAction::ReplyErr(e),
                }
            },
            WorkerCommand::RemoveOutput { id } => {
                self.output_removed(&id);
                WorkerAction::CloseOutput { id }
            },
            WorkerCommand::SetVolume { id } => route(self, &id),
            WorkerCommand::SetBalance { id } => route(self, &id),
            WorkerCommand::SetEq { id } => route(self, &id),
            WorkerCommand::SetMuted { id, muted } => {
                let ghost pre = *self;
                match self.set_muted(&id, muted) {
                    Ok(()) => {
                        let r = route(self, &id);
                        assert(self.active_spec() == pre.active_spec());
                        r
                    },
                    Err(e) => WorkerAction::ReplyErr(e),
                }
            },
            WorkerCommand::SetMasterGain { gain_bits } => {
                self.set_master_gain_bits(gain_bits);
                WorkerAction::ReplyOk
            },
            WorkerCommand::SetMasterMuted { muted } => {
                self.set_master_muted(muted);
                WorkerAction::ReplyOk
            },
            WorkerCommand::PlayTestSignal { device_name } => {
                match self.check_test_signal(device_name.as_str()) {
                    Ok(()) => WorkerAction::StartTest { device_name },
                    Err(e) => WorkerAction::ReplyErr(e),
                }
            },
            WorkerCommand::StopTestSignal { device_name } => {
                self.test_stopped(device_name.as_str());
                WorkerAction::StopTest { device_name }
            },
            WorkerCommand::Shutdown => WorkerAction::Exit,
        }
    }
}

/// A refused command changes nothing: the worker answers the failure and
/// keeps its registries as they were.
pub proof fn law_refused_command_changes_nothing(
    old_state: EngineState,
    new_state: EngineState,
    cmd: WorkerCommand,
    r: WorkerAction,
)
    requires
        decided(old_state, new_state, cmd, r),
        reply_error(r) is Some,
    ensures
        new_state.sync_spec() == old_state.sync_spec(),
        new_state.outputs_spec().outputs_map() == old_state.outputs_spec().outputs_map(),
        new_state.outputs_spec().master_spec() == old_state.outputs_spec().master_spec(),
        new_state.active_spec() == old_state.active_spec(),
        new_state.source_spec() == old_state.source_spec(),
        new_state.tests_spec() == old_state.tests_spec(),
{
}

/// Only commands that name a device or start something can be refused;
/// stopping, removing, the master controls and shutting down always go
/// ahead.
pub proof fn law_stop_and_master_commands_never_refused(
    old_state: EngineState,
    new_state: EngineState,
    cmd: WorkerCommand,
    r: WorkerAction,
)
    requires
        decided(old_state, new_state, cmd, r),
        cmd is StopCapture || cmd is RemoveOutput || cmd is SetMasterGain || cmd is SetMasterMuted
            || cmd is StopTestSignal || cmd is Shutdown || cmd is Start,
    ensures
        reply_error(r) is None,
{
}

} // verus!
