//! Feedback-loop protection and structured command errors.
//!
//! The device that loopback capture listens to must never become an
//! output, nor play a test signal: its sound would come back through the
//! capture and loop with rising volume. The audio worker reports failures
//! as flat strings; `CommandError::from_engine_string` turns them back into
//! structured kinds, and the `*_message` builders here are the only way the
//! worker forms those strings.

use vstd::prelude::*;
use crate::core_types::{DeviceId, Error, error_text};
use crate::text::{str_eq, strip_prefix, starts_with};

verus! {

/// Marker string for a refused feedback loop.
pub const ERR_FEEDBACK_LOOP: &'static str = "feedback-default-blocked";

/// Prefix of the worker's "no such device" failures.
pub const DEVICE_NOT_FOUND_PREFIX: &'static str = "device not found: ";

/// Prefix of the worker's "test signal already playing" failures.
pub const TEST_PLAYING_PREFIX: &'static str = "test already playing on ";

/// Failure when capture is not open.
pub const ENGINE_NOT_STARTED: &'static str = "engine not started";

/// Failure when the worker's command channel is gone.
pub const ENGINE_THREAD_GONE: &'static str = "engine thread gone";

/// Failure when the worker dropped its reply.
pub const ENGINE_DROPPED_REPLY: &'static str = "engine thread dropped reply";

/// Failure when the worker died.
pub const ENGINE_DIED: &'static str = "engine died";

/// The kinds of command errors; the front end matches on them.
#[derive(Debug, Clone, Copy, PartialEq, Eq, Structural)]
pub enum CommandErrorKind {
    FeedbackBlocked,
    DeviceNotFound,
    EngineNotStarted,
    EngineDead,
    TestAlreadyPlaying,
    BadRequest,
    Backend,
}

/// Structured command errors. The text in `message` is already localised
/// or is a technical detail for the logs.
#[derive(Debug, Clone)]
pub enum CommandError {
    /// Attempt to add the loopback source as an output, or to play a test
    /// signal on it.
    FeedbackBlocked { message: String },
    /// No device of that name or endpoint id.
    DeviceNotFound { message: String },
    /// Capture is not running.
    EngineNotStarted { message: String },
    /// The audio worker does not answer.
    EngineDead { message: String },
    /// A test signal already plays on the device.
    TestAlreadyPlaying { message: String },
    /// The request is malformed.
    BadRequest { message: String },
    /// Backend or I/O failure; the catch-all.
    Backend { message: String },
}

impl View for CommandError {
    type V = (CommandErrorKind, Seq<char>);

    open spec fn view(&self) -> (CommandErrorKind, Seq<char>) {
        match self {
            CommandError::FeedbackBlocked { message } => (CommandErrorKind::FeedbackBlocked, message@),
            CommandError::DeviceNotFound { message } => (CommandErrorKind::DeviceNotFound, message@),
            CommandError::EngineNotStarted { message } => (CommandErrorKind::EngineNotStarted, message@),
            CommandError::EngineDead { message } => (CommandErrorKind::EngineDead, message@),
            CommandError::TestAlreadyPlaying { message } => (CommandErrorKind::TestAlreadyPlaying, message@),
            CommandError::BadRequest { message } => (CommandErrorKind::BadRequest, message@),
            CommandError::Backend { message } => (CommandErrorKind::Backend, message@),
        }
    }
}

/// The error of a command's result, `None` on success.
/// The prefix with which an error of kind `k` is displayed.
pub open spec fn kind_prefix(k: CommandErrorKind) -> Seq<char> {
    match k {
        CommandErrorKind::FeedbackBlocked => "feedback loop: "@,
        CommandErrorKind::DeviceNotFound => "device not found: "@,
        CommandErrorKind::EngineNotStarted => "engine not started: "@,
        CommandErrorKind::EngineDead => "engine dead: "@,
        CommandErrorKind::TestAlreadyPlaying => "test already playing: "@,
        CommandErrorKind::BadRequest => "bad request: "@,
        CommandErrorKind::Backend => "backend error: "@,
    }
}

pub open spec fn command_failure<T>(r: Result<T, CommandError>) -> Option<(CommandErrorKind, Seq<char>)> {
    match r {
        Ok(_) => None,
        Err(e) => Some(e@),
    }
}

/// Whether `s` is one of the worker's "thread is dead" failures.
pub open spec fn is_engine_dead_text(s: Seq<char>) -> bool {
    s == ENGINE_THREAD_GONE@ || s == ENGINE_DROPPED_REPLY@ || s == ENGINE_DIED@
}

/// The structured error that a flat worker failure `s` stands for.
pub open spec fn engine_string_error(s: Seq<char>) -> (CommandErrorKind, Seq<char>) {
    if s == ERR_FEEDBACK_LOOP@ {
        (CommandErrorKind::FeedbackBlocked, ERR_FEEDBACK_LOOP@)
    } else if DEVICE_NOT_FOUND_PREFIX@.is_prefix_of(s) {
        (CommandErrorKind::DeviceNotFound, s.skip(DEVICE_NOT_FOUND_PREFIX@.len() as int))
    } else if s == ENGINE_NOT_STARTED@ {
        (CommandErrorKind::EngineNotStarted, s)
    } else if is_engine_dead_text(s) {
        (CommandErrorKind::EngineDead, s)
    } else if TEST_PLAYING_PREFIX@.is_prefix_of(s) {
        (CommandErrorKind::TestAlreadyPlaying, s)
    } else {
        (CommandErrorKind::Backend, s)
    }
}

impl CommandError {
    /// The kind of this error.
    pub fn kind(&self) -> (r: CommandErrorKind)
        ensures
            r == self@.0,
    {
        match self {
            CommandError::FeedbackBlocked { .. } => CommandErrorKind::FeedbackBlocked,
            CommandError::DeviceNotFound { .. } => CommandErrorKind::DeviceNotFound,
            CommandError::EngineNotStarted { .. } => CommandErrorKind::EngineNotStarted,
            CommandError::EngineDead { .. } => CommandErrorKind::EngineDead,
            CommandError::TestAlreadyPlaying { .. } => CommandErrorKind::TestAlreadyPlaying,
            CommandError::BadRequest { .. } => CommandErrorKind::BadRequest,
            CommandError::Backend { .. } => CommandErrorKind::Backend,
        }
    }

    /// The message of this error.
    pub fn message(&self) -> (r: String)
        ensures
            r@ == self@.1,
    {
        match self {
            CommandError::FeedbackBlocked { message } => message.clone(),
            CommandError::DeviceNotFound { message } => message.clone(),
            CommandError::EngineNotStarted { message } => message.clone(),
            CommandError::EngineDead { message } => message.clone(),
            CommandError::TestAlreadyPlaying { message } => message.clone(),
            CommandError::BadRequest { message } => message.clone(),
            CommandError::Backend { message } => message.clone(),
        }
    }

    /// The error as it is displayed: its kind's prefix, then the message.
    pub fn to_text(&self) -> (r: String)
        ensures
            r@ == kind_prefix(self@.0) + self@.1,
    {
        let prefix = match self.kind() {
            CommandErrorKind::FeedbackBlocked => "feedback loop: ",
            CommandErrorKind::DeviceNotFound => "device not found: ",
            CommandErrorKind::EngineNotStarted => "engine not started: ",
            CommandErrorKind::EngineDead => "engine dead: ",
            CommandErrorKind::TestAlreadyPlaying => "test already playing: ",
            CommandErrorKind::BadRequest => "bad request: ",
            CommandErrorKind::Backend => "backend error: ",
        };
        let mut out = prefix.to_owned();
        let m = self.message();
        out.append(m.as_str());
        out
    }

    pub fn feedback_blocked(msg: &str) -> (r: Self)
        ensures
            r@ == (CommandErrorKind::FeedbackBlocked, msg@),
    {
        CommandError::FeedbackBlocked { message: msg.to_owned() }
    }

    pub fn device_not_found(msg: &str) -> (r: Self)
        ensures
            r@ == (CommandErrorKind::DeviceNotFound, msg@),
    {
        CommandError::DeviceNotFound { message: msg.to_owned() }
    }

    pub fn engine_not_started(msg: &str) -> (r: Self)
        ensures
            r@ == (CommandErrorKind::EngineNotStarted, msg@),
    {
        CommandError::EngineNotStarted { message: msg.to_owned() }
    }

    pub fn engine_dead(msg: &str) -> (r: Self)
        ensures
            r@ == (CommandErrorKind::EngineDead, msg@),
    {
        CommandError::EngineDead { message: msg.to_owned() }
    }

    pub fn test_already_playing(msg: &str) -> (r: Self)
        ensures
            r@ == (CommandErrorKind::TestAlreadyPlaying, msg@),
    {
        CommandError::TestAlreadyPlaying { message: msg.to_owned() }
    }

    pub fn bad_request(msg: &str) -> (r: Self)
        ensures
            r@ == (CommandErrorKind::BadRequest, msg@),
    {
        CommandError::BadRequest { message: msg.to_owned() }
    }

    pub fn backend(msg: &str) -> (r: Self)
        ensures
            r@ == (CommandErrorKind::Backend, msg@),
    {
        CommandError::Backend { message: msg.to_owned() }
    }

    /// Rebuilds the structured error from the flat string that the audio
    /// worker returns.
    pub fn from_engine_string(s: String) -> (r: Self)
        ensures
            r@ == engine_string_error(s@),
    {
        let t = s.as_str();
        if str_eq(t, ERR_FEEDBACK_LOOP) {
            return Self::feedback_blocked(ERR_FEEDBACK_LOOP);
        }
        match strip_prefix(t, DEVICE_NOT_FOUND_PREFIX) {
            Some(rest) => {
                assert(rest@ =~= s@.skip(DEVICE_NOT_FOUND_PREFIX@.len() as int));
                return Self::device_not_found(rest.as_str());
            },
            None => {},
        }
        if str_eq(t, ENGINE_NOT_STARTED) {
            return Self::engine_not_started(t);
        }
        if str_eq(t, ENGINE_THREAD_GONE) || str_eq(t, ENGINE_DROPPED_REPLY) || str_eq(t, ENGINE_DIED) {
            return Self::engine_dead(t);
        }
        if starts_with(t, TEST_PLAYING_PREFIX) {
            return Self::test_already_playing(t);
        }
        Self::backend(t)
    }
}

/// Whether `candidate_name` is the loopback source. `None` means capture
/// is not running, so nothing is blocked. The comparison is exact.
pub fn is_capture_source(loopback_source: Option<&str>, candidate_name: &str) -> (r: bool)
    ensures
        r == (loopback_source matches Some(src) && src@ == candidate_name@),
{
    match loopback_source {
        Some(src) => str_eq(src, candidate_name),
        None => false,
    }
}

/// The worker's failure for a missing device.
pub fn device_not_found_message(id: &DeviceId) -> (r: String)
    ensures
        r@ == DEVICE_NOT_FOUND_PREFIX@ + id@,
{
    let mut out = DEVICE_NOT_FOUND_PREFIX.to_owned();
    out.append(id.0.as_str());
    out
}

/// The worker's failure for a second test signal on one device.
pub fn test_already_playing_message(device_name: &str) -> (r: String)
    ensures
        r@ == TEST_PLAYING_PREFIX@ + device_name@,
{
    let mut out = TEST_PLAYING_PREFIX.to_owned();
    out.append(device_name);
    out
}

/// A missing-device failure built by the worker comes back as
/// `DeviceNotFound`, carrying exactly the device id.
pub proof fn law_device_not_found_round_trip(id: Seq<char>)
    ensures
        engine_string_error(DEVICE_NOT_FOUND_PREFIX@ + id) == (CommandErrorKind::DeviceNotFound, id),
{
    reveal_strlit("device not found: ");
    reveal_strlit("feedback-default-blocked");
    let s = DEVICE_NOT_FOUND_PREFIX@ + id;
    assert(DEVICE_NOT_FOUND_PREFIX@.is_prefix_of(s));
    if s == ERR_FEEDBACK_LOOP@ {
        assert(s[0] == 'd');
        assert(ERR_FEEDBACK_LOOP@[0] == 'f');
    }
    assert(s.skip(DEVICE_NOT_FOUND_PREFIX@.len() as int) =~= id);
}

/// The feedback-loop marker comes back as `FeedbackBlocked`.
pub proof fn law_feedback_round_trip()
    ensures
        engine_string_error(ERR_FEEDBACK_LOOP@) == (CommandErrorKind::FeedbackBlocked, ERR_FEEDBACK_LOOP@),
{
}

/// A second-test-signal failure built by the worker comes back as
/// `TestAlreadyPlaying`, with the whole text as its message.
pub proof fn law_test_already_playing_round_trip(device_name: Seq<char>)
    ensures
        engine_string_error(TEST_PLAYING_PREFIX@ + device_name) == (
            CommandErrorKind::TestAlreadyPlaying,
            TEST_PLAYING_PREFIX@ + device_name,
        ),
{
    reveal_strlit("test already playing on ");
    reveal_strlit("feedback-default-blocked");
    reveal_strlit("device not found: ");
    reveal_strlit("engine not started");
    reveal_strlit("engine thread gone");
    reveal_strlit("engine thread dropped reply");
    reveal_strlit("engine died");
    let s = TEST_PLAYING_PREFIX@ + device_name;
    assert(s[0] == 't');
    assert(TEST_PLAYING_PREFIX@.is_prefix_of(s));
    assert(ERR_FEEDBACK_LOOP@[0] == 'f');
    assert(DEVICE_NOT_FOUND_PREFIX@[0] == 'd');
    assert(ENGINE_NOT_STARTED@[0] == 'e');
    assert(ENGINE_THREAD_GONE@[0] == 'e');
    assert(ENGINE_DROPPED_REPLY@[0] == 'e');
    assert(ENGINE_DIED@[0] == 'e');
}

/// The fixed worker failures about the engine's state come back with
/// their kinds.
pub proof fn law_engine_state_round_trip()
    ensures
        engine_string_error(ENGINE_NOT_STARTED@) == (CommandErrorKind::EngineNotStarted, ENGINE_NOT_STARTED@),
        engine_string_error(ENGINE_THREAD_GONE@) == (CommandErrorKind::EngineDead, ENGINE_THREAD_GONE@),
        engine_string_error(ENGINE_DROPPED_REPLY@) == (CommandErrorKind::EngineDead, ENGINE_DROPPED_REPLY@),
        engine_string_error(ENGINE_DIED@) == (CommandErrorKind::EngineDead, ENGINE_DIED@),
{
    reveal_strlit("feedback-default-blocked");
    reveal_strlit("device not found: ");
    reveal_strlit("engine not started");
    reveal_strlit("engine thread gone");
    reveal_strlit("engine thread dropped reply");
    reveal_strlit("engine died");
    assert(ENGINE_NOT_STARTED@ != ERR_FEEDBACK_LOOP@) by { assert(ENGINE_NOT_STARTED@[0] != ERR_FEEDBACK_LOOP@[0]); }
    assert(ENGINE_THREAD_GONE@ != ERR_FEEDBACK_LOOP@) by { assert(ENGINE_THREAD_GONE@[0] != ERR_FEEDBACK_LOOP@[0]); }
    assert(ENGINE_DROPPED_REPLY@ != ERR_FEEDBACK_LOOP@) by { assert(ENGINE_DROPPED_REPLY@[0] != ERR_FEEDBACK_LOOP@[0]); }
    assert(ENGINE_DIED@ != ERR_FEEDBACK_LOOP@) by { assert(ENGINE_DIED@[0] != ERR_FEEDBACK_LOOP@[0]); }
    assert(!DEVICE_NOT_FOUND_PREFIX@.is_prefix_of(ENGINE_NOT_STARTED@)) by { assert(ENGINE_NOT_STARTED@[0] != DEVICE_NOT_FOUND_PREFIX@[0]); }
    assert(!DEVICE_NOT_FOUND_PREFIX@.is_prefix_of(ENGINE_THREAD_GONE@)) by { assert(ENGINE_THREAD_GONE@[0] != DEVICE_NOT_FOUND_PREFIX@[0]); }
    assert(!DEVICE_NOT_FOUND_PREFIX@.is_prefix_of(ENGINE_DROPPED_REPLY@)) by { assert(ENGINE_DROPPED_REPLY@[0] != DEVICE_NOT_FOUND_PREFIX@[0]); }
    assert(!DEVICE_NOT_FOUND_PREFIX@.is_prefix_of(ENGINE_DIED@)) by { assert(ENGINE_DIED@[0] != DEVICE_NOT_FOUND_PREFIX@[0]); }
    assert(ENGINE_THREAD_GONE@ != ENGINE_NOT_STARTED@) by { assert(ENGINE_THREAD_GONE@.len() != ENGINE_NOT_STARTED@.len() || ENGINE_THREAD_GONE@[7] != ENGINE_NOT_STARTED@[7]); }
    assert(ENGINE_DROPPED_REPLY@ != ENGINE_NOT_STARTED@) by { assert(ENGINE_DROPPED_REPLY@.len() != ENGINE_NOT_STARTED@.len()); }
    assert(ENGINE_DIED@ != ENGINE_NOT_STARTED@) by { assert(ENGINE_DIED@.len() != ENGINE_NOT_STARTED@.len()); }
}

/// No worker failure text is ever read as a malformed request.
pub proof fn law_engine_string_never_bad_request(s: Seq<char>)
    ensures
        engine_string_error(s).0 != CommandErrorKind::BadRequest,
{
}

/// A core "device not found" error, passed on as its displayed text,
/// comes back as `DeviceNotFound` with the device's name; any other core
/// error that carries free text comes back as what that text reads as.
pub proof fn law_core_error_round_trip(e: Error)
    ensures
        e matches Error::DeviceNotFound(m) ==> engine_string_error(error_text(e)) == (CommandErrorKind::DeviceNotFound, m@),
        e matches Error::Other(m) ==> engine_string_error(error_text(e)) == engine_string_error(m@),
{
    if let Error::DeviceNotFound(m) = e {
        reveal_strlit("device not found: ");
        assert(error_text(e) == DEVICE_NOT_FOUND_PREFIX@ + m@);
        law_device_not_found_round_trip(m@);
    }
}

} // verus!
