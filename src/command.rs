//! Outcomes of running a native command, and of native I/O failures, as the
//! guest's tagged values.
use crate::guest::{GuestStr, RcHeap};
use crate::guest::lossy_text;
use vstd::prelude::*;
use vstd::utf8::{encode_utf8, valid_utf8};

verus! {

/// Native I/O failure kinds that the guest tells apart; `Unlisted` stands
/// for every other kind.
#[derive(Clone, Copy, PartialEq, Eq, Structural, Debug)]
pub enum IoErrorKind {
    AlreadyExists,
    BrokenPipe,
    UnexpectedEof,
    Interrupted,
    NotFound,
    OutOfMemory,
    PermissionDenied,
    Unsupported,
    Unlisted,
}

/// The guest's I/O error tags.
#[derive(Clone, Copy, PartialEq, Eq, Structural, PartialOrd, Ord, Hash, Debug)]
pub enum IoErrTag {
    AlreadyExists,
    BrokenPipe,
    EndOfFile,
    Interrupted,
    NotFound,
    Other,
    OutOfMemory,
    PermissionDenied,
    Unsupported,
}

/// The tag for a native I/O failure kind; anything unlisted is `Other`.
pub open spec fn io_tag_of(kind: IoErrorKind) -> IoErrTag {
    match kind {
        IoErrorKind::AlreadyExists => IoErrTag::AlreadyExists,
        IoErrorKind::BrokenPipe => IoErrTag::BrokenPipe,
        IoErrorKind::UnexpectedEof => IoErrTag::EndOfFile,
        IoErrorKind::Interrupted => IoErrTag::Interrupted,
        IoErrorKind::NotFound => IoErrTag::NotFound,
        IoErrorKind::OutOfMemory => IoErrTag::OutOfMemory,
        IoErrorKind::PermissionDenied => IoErrTag::PermissionDenied,
        IoErrorKind::Unsupported => IoErrTag::Unsupported,
        IoErrorKind::Unlisted => IoErrTag::Other,
    }
}

/// A native I/O failure as plain values: its kind and its message.
#[derive(Debug)]
pub struct NativeIoError {
    pub kind: IoErrorKind,
    pub message: String,
}

/// The guest's I/O error: a tag, and for `Other` only, the native message.
#[derive(Debug)]
pub struct IoErr {
    pub msg: GuestStr,
    pub tag: IoErrTag,
}

/// The message an I/O error of this kind carries: the native one for an
/// unlisted kind, empty otherwise.
pub open spec fn io_msg_of(e: NativeIoError) -> Seq<u8> {
    if io_tag_of(e.kind) == IoErrTag::Other {
        encode_utf8(e.message@)
    } else {
        Seq::<u8>::empty()
    }
}

impl IoErr {
    /// Classifies a native I/O failure.
    pub fn from_io_error(e: &NativeIoError, heap: &mut RcHeap) -> (r: IoErr)
        requires
            old(heap)@.len() + 1 < usize::MAX,
        ensures
            r.tag == io_tag_of(e.kind),
            r.msg@ == io_msg_of(*e),
            r.msg.wf_in(final(heap)@),
            final(heap)@.len() <= old(heap)@.len() + 1,
            final(heap)@.subrange(0, old(heap)@.len() as int) == old(heap)@,
    {
        let tag = match e.kind {
            IoErrorKind::AlreadyExists => IoErrTag::AlreadyExists,
            IoErrorKind::BrokenPipe => IoErrTag::BrokenPipe,
            IoErrorKind::UnexpectedEof => IoErrTag::EndOfFile,
            IoErrorKind::Interrupted => IoErrTag::Interrupted,
            IoErrorKind::NotFound => IoErrTag::NotFound,
            IoErrorKind::OutOfMemory => IoErrTag::OutOfMemory,
            IoErrorKind::PermissionDenied => IoErrTag::PermissionDenied,
            IoErrorKind::Unsupported => IoErrTag::Unsupported,
            IoErrorKind::Unlisted => IoErrTag::Other,
        };
        let msg = if tag == IoErrTag::Other {
            GuestStr::from_str(e.message.as_str(), heap)
        } else {
            GuestStr::from_str("", heap)
        };
        proof {
            if tag != IoErrTag::Other {
                reveal_strlit("");
                assert(encode_utf8(Seq::<char>::empty()) =~= Seq::<u8>::empty());
            }
            assert(heap@.subrange(0, old(heap)@.len() as int) =~= old(heap)@);
        }
        IoErr { msg, tag }
    }
}

/// What a command that ran wrote, and how it ended: `exit_code` is `None`
/// when no exit code was reported (the process was stopped by a signal).
#[derive(Debug)]
pub struct RunOutput {
    pub exit_code: Option<i32>,
    pub stdout: Vec<u8>,
    pub stderr: Vec<u8>,
}

/// A run that exited with code zero: both streams, decoded lossily.
#[derive(Debug)]
pub struct CommandOutputSuccess {
    pub stderr_utf8_lossy: GuestStr,
    pub stdout_utf8: GuestStr,
}

/// A run that ended with a non-zero code: both streams, decoded lossily,
/// and the code.
#[derive(Debug)]
pub struct NonZeroExitPayload {
    pub stderr_utf8_lossy: GuestStr,
    pub stdout_utf8_lossy: GuestStr,
    pub exit_code: i32,
}

/// The two ways a command can fail.
#[derive(Debug)]
pub enum CmdOutputPayload {
    /// The command could not be run, or talking to it failed.
    CmdErr(IoErr),
    /// The command ran and ended with a non-zero code.
    NonZeroExit(NonZeroExitPayload),
}

/// A failed command run, with its discriminant: 0 for `CmdErr`, 1 for `NonZeroExit`.
#[derive(Debug)]
pub struct CmdOutputErr {
    pub payload: CmdOutputPayload,
}

/// The exit code reported for a run that gave none.
pub const NO_EXIT_CODE: i32 = -1;

/// The code a run is reported with.
pub open spec fn reported_code(code: Option<i32>) -> i32 {
    match code {
        Some(c) => c,
        None => NO_EXIT_CODE,
    }
}

impl CmdOutputErr {
    /// The discriminant of the guest's layout.
    pub open spec fn discriminant_spec(&self) -> u8 {
        match self.payload {
            CmdOutputPayload::CmdErr(_) => 0,
            CmdOutputPayload::NonZeroExit(_) => 1,
        }
    }

    /// The discriminant of the guest's layout.
    pub fn discriminant(&self) -> (r: u8)
        ensures
            r == self.discriminant_spec(),
    {
        match &self.payload {
            CmdOutputPayload::CmdErr(_) => 0,
            CmdOutputPayload::NonZeroExit(_) => 1,
        }
    }

    /// The command could not be run.
    pub fn cmd_err(io_err: IoErr) -> (r: CmdOutputErr)
        ensures
            r.payload == CmdOutputPayload::CmdErr(io_err),
    {
        CmdOutputErr { payload: CmdOutputPayload::CmdErr(io_err) }
    }

    /// The command ran and ended with `exit_code`.
    pub fn non_zero_exit(
        stderr_utf8_lossy: GuestStr,
        stdout_utf8_lossy: GuestStr,
        exit_code: i32,
    ) -> (r: CmdOutputErr)
        ensures
            r.payload == CmdOutputPayload::NonZeroExit(
                NonZeroExitPayload { stderr_utf8_lossy, stdout_utf8_lossy, exit_code },
            ),
    {
        CmdOutputErr {
            payload: CmdOutputPayload::NonZeroExit(
                NonZeroExitPayload { stderr_utf8_lossy, stdout_utf8_lossy, exit_code },
            ),
        }
    }
}

/// Turns the outcome of running a command into the guest's result: success
/// for exit code zero, a non-zero exit with the code and both streams
/// otherwise, and the I/O failure when the command could not be run.
pub fn cmd_exec_output(run: &Result<RunOutput, NativeIoError>, heap: &mut RcHeap) -> (r: Result<
    CommandOutputSuccess,
    CmdOutputErr,
>)
    requires
        old(heap)@.len() + 2 < usize::MAX,
    ensures
        match run {
            Ok(out) => if out.exit_code == Some(0i32) {
                &&& r is Ok
                &&& r->Ok_0.stdout_utf8@ == encode_utf8(lossy_text(out.stdout@))
                &&& r->Ok_0.stderr_utf8_lossy@ == encode_utf8(lossy_text(out.stderr@))
                &&& valid_utf8(out.stdout@) ==> r->Ok_0.stdout_utf8@ == out.stdout@
                &&& valid_utf8(out.stderr@) ==> r->Ok_0.stderr_utf8_lossy@ == out.stderr@
            } else {
                &&& r is Err
                &&& r->Err_0.payload is NonZeroExit
                &&& r->Err_0.payload->NonZeroExit_0.exit_code == reported_code(out.exit_code)
                &&& r->Err_0.payload->NonZeroExit_0.stdout_utf8_lossy@ == encode_utf8(
                    lossy_text(out.stdout@),
                )
                &&& r->Err_0.payload->NonZeroExit_0.stderr_utf8_lossy@ == encode_utf8(
                    lossy_text(out.stderr@),
                )
                &&& valid_utf8(out.stdout@) ==> r->Err_0.payload->NonZeroExit_0.stdout_utf8_lossy@
                    == out.stdout@
                &&& valid_utf8(out.stderr@) ==> r->Err_0.payload->NonZeroExit_0.stderr_utf8_lossy@
                    == out.stderr@
            },
            Err(e) => {
                &&& r is Err
                &&& r->Err_0.payload is CmdErr
                &&& r->Err_0.payload->CmdErr_0.tag == io_tag_of(e.kind)
                &&& r->Err_0.payload->CmdErr_0.msg@ == io_msg_of(*e)
            },
        },
{
    match run {
        Ok(out) => {
            let stdout = GuestStr::from_utf8_lossy(out.stdout.as_slice(), heap);
            let stderr = GuestStr::from_utf8_lossy(out.stderr.as_slice(), heap);
            match out.exit_code {
                Some(0) => Ok(CommandOutputSuccess { stderr_utf8_lossy: stderr, stdout_utf8: stdout }),
                Some(code) => Err(CmdOutputErr::non_zero_exit(stderr, stdout, code)),
                None => Err(CmdOutputErr::non_zero_exit(stderr, stdout, NO_EXIT_CODE)),
            }
        },
        Err(e) => Err(CmdOutputErr::cmd_err(IoErr::from_io_error(e, heap))),
    }
}

/// Turns the outcome of running a command into its exit code, or the I/O
/// failure when it could not be run.
pub fn cmd_exec_exit_code(run: &Result<Option<i32>, NativeIoError>, heap: &mut RcHeap) -> (r: Result<
    i32,
    IoErr,
>)
    requires
        old(heap)@.len() + 1 < usize::MAX,
    ensures
        match run {
            Ok(code) => r == Ok::<i32, IoErr>(reported_code(*code)),
            Err(e) => r is Err && r->Err_0.tag == io_tag_of(e.kind) && r->Err_0.msg@ == io_msg_of(
                *e,
            ),
        },
{
    match run {
        Ok(Some(code)) => Ok(*code),
        Ok(None) => Ok(NO_EXIT_CODE),
        Err(e) => Err(IoErr::from_io_error(e, heap)),
    }
}

/// Classifying a native I/O failure is a function of its kind and message:
/// equal failures give equal tags and equal messages, and the message is
/// carried by the `Other` tag only.
pub proof fn lemma_io_classify_deterministic(a: NativeIoError, b: NativeIoError)
    requires
        a.kind == b.kind,
        a.message@ == b.message@,
    ensures
        io_tag_of(a.kind) == io_tag_of(b.kind),
        io_msg_of(a) == io_msg_of(b),
        io_tag_of(a.kind) != IoErrTag::Other ==> io_msg_of(a).len() == 0,
{
}

} // verus!
