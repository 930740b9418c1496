//! Other programs: what is kept of their output, and what their end means.
use crate::text::{
    ascii_bytes_are_their_text, begins_with, blank_texts_trim_to_nothing, chars_of, concat3,
    concat4, concat5, decimal, decode_lossy, encoded_texts_are_read_back, ends_with, fronts_stay,
    has_text, is_blank, lossy_text, numeral, occurs_at, parts_show, push_text, trim, trimmed,
    trimming_takes_white_space_alone,
};
use vstd::prelude::*;
use vstd::utf8::encode_utf8;

verus! {

/// How much of a program's output is kept, in bytes.
pub const MAX_CAPTURE_BYTES: usize = 1_048_576;

/// What stands behind output that was cut.
pub const OUTPUT_TRUNCATED_MARKER: &'static str = "\n[output truncated]\n";

/// Where the name of a program comes from.
#[derive(Clone, Copy, Debug, PartialEq, Eq, Structural)]
pub enum ProgramSource {
    /// From the environment.
    Runtime,
    /// From the build.
    BuildTime,
    Fallback,
}

/// Where the name of a program comes from; `runtime_empty` and `build_time_empty` tell whether
/// the environment and the build give one that is empty.
pub fn program_source(runtime_empty: Option<bool>, build_time_empty: Option<bool>) -> (r:
    ProgramSource)
    ensures
        r == (if runtime_empty == Some(false) {
            ProgramSource::Runtime
        } else if build_time_empty == Some(false) {
            ProgramSource::BuildTime
        } else {
            ProgramSource::Fallback
        }),
{
    match (runtime_empty, build_time_empty) {
        (Some(false), _) => ProgramSource::Runtime,
        (_, Some(false)) => ProgramSource::BuildTime,
        _ => ProgramSource::Fallback,
    }
}

/// The start of what was read, up to the limit.
pub open spec fn captured(all: Seq<u8>) -> Seq<u8> {
    if all.len() <= MAX_CAPTURE_BYTES {
        all
    } else {
        all.take(MAX_CAPTURE_BYTES as int)
    }
}

pub open spec fn marker_bytes() -> Seq<u8> {
    OUTPUT_TRUNCATED_MARKER@.map_values(|c: char| c as u8)
}

/// What is kept of a program's output while it is read.
pub struct CaptureBuffer {
    pub bytes: Vec<u8>,
    pub truncated: bool,
}

impl CaptureBuffer {
    /// Whether the buffer holds what is to be kept of `all`.
    pub open spec fn keeps(&self, all: Seq<u8>) -> bool {
        self.bytes@ == captured(all) && self.truncated == (all.len() > MAX_CAPTURE_BYTES)
    }

    pub fn new() -> (r: Self)
        ensures
            r.keeps(Seq::empty()),
    {
        let r = CaptureBuffer { bytes: Vec::new(), truncated: false };
        assert(r.bytes@ =~= Seq::<u8>::empty());
        r
    }

    /// Takes the next bytes that were read.
    pub fn absorb(&mut self, chunk: &[u8])
        requires
            old(self).bytes@.len() <= MAX_CAPTURE_BYTES,
        ensures
            final(self).bytes@.len() <= MAX_CAPTURE_BYTES,
            final(self).bytes@ == captured(old(self).bytes@ + chunk@),
            final(self).truncated == (old(self).truncated || old(self).bytes@.len() + chunk@.len()
                > MAX_CAPTURE_BYTES),
            forall|all: Seq<u8>| #[trigger]
                old(self).keeps(all) ==> final(self).keeps(all + chunk@),
    {
        let ghost before = self.bytes@;
        let room: usize = MAX_CAPTURE_BYTES - self.bytes.len();
        let n: usize = chunk.len();
        let kept: usize = if n < room {
            n
        } else {
            room
        };
        let mut i: usize = 0;
        while i < kept
            invariant
                i <= kept <= chunk@.len(),
                self.truncated == old(self).truncated,
                self.bytes@ =~= before + chunk@.take(i as int),
            decreases kept - i,
        {
            self.bytes.push(chunk[i]);
            i = i + 1;
        }
        if kept < n {
            self.truncated = true;
        }
        proof {
            assert(self.bytes@ =~= captured(before + chunk@));
            assert forall|all: Seq<u8>| #[trigger] old(self).keeps(all) implies self.keeps(
                all + chunk@,
            ) by {
                if all.len() <= MAX_CAPTURE_BYTES {
                    assert(before == all);
                } else {
                    assert(before == all.take(MAX_CAPTURE_BYTES as int));
                    assert(self.bytes@ =~= captured(all + chunk@));
                }
            }
        }
    }

    /// What is kept in the end, with the marker behind it where something was cut.
    pub fn finish(self) -> (r: Vec<u8>)
        ensures
            r@ == (if self.truncated {
                self.bytes@ + marker_bytes()
            } else {
                self.bytes@
            }),
    {
        let mut bytes = self.bytes;
        if self.truncated {
            let marker = chars_of(OUTPUT_TRUNCATED_MARKER);
            let ghost before = bytes@;
            proof {
                reveal_strlit("\n[output truncated]\n");
            }
            let mut i: usize = 0;
            assert(bytes@ =~= before + marker_bytes().take(0));
            while i < marker.len()
                invariant
                    marker@ == OUTPUT_TRUNCATED_MARKER@,
                    i <= marker@.len(),
                    forall|k: int| 0 <= k < marker@.len() ==> (#[trigger] marker@[k] as u32) < 128,
                    bytes@ == before + marker_bytes().take(i as int),
                decreases marker@.len() - i,
            {
                bytes.push(marker[i] as u8);
                assert(marker_bytes().take(i as int + 1) =~= marker_bytes().take(i as int).push(
                    marker_bytes()[i as int],
                ));
                assert(bytes@ =~= before + marker_bytes().take(i as int + 1));
                i = i + 1;
            }
            assert(marker_bytes().take(marker_bytes().len() as int) =~= marker_bytes());
        }
        bytes
    }
}

/// How the reading of a program's output ended.
pub enum PipeEnd {
    /// There was nothing to read.
    NoPipe,
    Bytes(Vec<u8>),
    Failed(String),
    /// The pipe stayed open after the program had ended.
    TimedOut,
    Stopped,
}

/// The message for output that could not be read.
pub open spec fn pipe_failure(end: PipeEnd, program: Seq<char>, stream: Seq<char>) -> Option<
    Seq<char>,
> {
    match end {
        PipeEnd::NoPipe => None,
        PipeEnd::Bytes(_) => None,
        PipeEnd::Failed(error) => Some(
            "failed to read "@ + program + " "@ + stream + ": "@ + error@,
        ),
        PipeEnd::TimedOut => Some(
            "timed out while draining "@ + program + " "@ + stream
                + "; a descendant may still hold the pipe"@,
        ),
        PipeEnd::Stopped => Some(program + " "@ + stream + " reader stopped unexpectedly"@),
    }
}

/// The bytes that were read.
pub open spec fn pipe_bytes(end: PipeEnd) -> Seq<u8> {
    match end {
        PipeEnd::Bytes(bytes) => bytes@,
        _ => Seq::empty(),
    }
}

/// The bytes that were read, or why they were not.
pub fn finish_pipe(end: PipeEnd, program: &str, stream: &str) -> (r: Result<Vec<u8>, String>)
    ensures
        match pipe_failure(end, program@, stream@) {
            None => r matches Ok(bytes) && bytes@ == pipe_bytes(end),
            Some(reason) => r matches Err(message) && message@ == reason,
        },
{
    match end {
        PipeEnd::NoPipe => {
            let none: Vec<u8> = Vec::new();
            assert(none@ =~= Seq::<u8>::empty());
            Ok(none)
        },
        PipeEnd::Bytes(bytes) => Ok(bytes),
        PipeEnd::Failed(error) => {
            let mut message = concat5("failed to read ", program, " ", stream, ": ");
            push_text(&mut message, &error);
            Err(message)
        },
        PipeEnd::TimedOut => Err(
            concat5(
                "timed out while draining ",
                program,
                " ",
                stream,
                "; a descendant may still hold the pipe",
            ),
        ),
        PipeEnd::Stopped => Err(
            concat4(program, " ", stream, " reader stopped unexpectedly"),
        ),
    }
}

/// How a program ended.
pub enum ProgramEnd {
    /// It ended by itself; `status` says how in words.
    Exited { success: bool, status: String },
    TimedOut,
    /// Its end could not be waited for.
    Failed(String),
}

/// What a run of a program comes to.
pub enum RunResult {
    Output(Vec<u8>),
    Error {
        message: String,
        /// Whether what is left of the program is to be ended.
        kill: bool,
    },
}

/// Whether `r` is the result of a run.
pub open spec fn run_comes_to(
    program: Seq<char>,
    end: ProgramEnd,
    stdout: PipeEnd,
    stderr: PipeEnd,
    timeout_ms: u64,
    r: RunResult,
) -> bool {
    match end {
        ProgramEnd::TimedOut => r matches RunResult::Error { message, kill } && !kill && message@
            == program + " timed out after "@ + decimal(timeout_ms as nat) + " ms"@,
        ProgramEnd::Failed(error) => r matches RunResult::Error { message, kill } && !kill
            && message@ == "failed to wait for "@ + program + ": "@ + error@,
        ProgramEnd::Exited { success, status } => {
            let out_failure = pipe_failure(stdout, program, "stdout"@);
            let err_failure = pipe_failure(stderr, program, "stderr"@);
            let said = trimmed(lossy_text(pipe_bytes(stderr)));
            if out_failure is Some {
                r matches RunResult::Error { message, kill } && kill && message@ == out_failure->0
            } else if err_failure is Some {
                r matches RunResult::Error { message, kill } && kill && message@ == err_failure->0
            } else if success {
                r matches RunResult::Output(bytes) && bytes@ == pipe_bytes(stdout)
            } else {
                r matches RunResult::Error { message, kill } && !kill && message@ == (
                if said.len() == 0 {
                    program + " exited with "@ + status@
                } else {
                    program + ": "@ + said
                })
            }
        },
    }
}

/// Says what a run of a program comes to.
pub fn run_result(
    program: &str,
    end: ProgramEnd,
    stdout: PipeEnd,
    stderr: PipeEnd,
    timeout_ms: u64,
) -> (r: RunResult)
    ensures
        run_comes_to(program@, end, stdout, stderr, timeout_ms, r),
{
    match end {
        ProgramEnd::TimedOut => {
            let time = numeral(timeout_ms);
            RunResult::Error {
                message: concat4(program, " timed out after ", &time, " ms"),
                kill: false,
            }
        },
        ProgramEnd::Failed(error) => RunResult::Error {
            message: concat4("failed to wait for ", program, ": ", &error),
            kill: false,
        },
        ProgramEnd::Exited { success, status } => {
            let out = match finish_pipe(stdout, program, "stdout") {
                Ok(bytes) => bytes,
                Err(message) => return RunResult::Error { message, kill: true },
            };
            let err = match finish_pipe(stderr, program, "stderr") {
                Ok(bytes) => bytes,
                Err(message) => return RunResult::Error { message, kill: true },
            };
            if success {
                return RunResult::Output(out);
            }
            let decoded = decode_lossy(&err);
            RunResult::Error { message: failure_message(program, &decoded, &status), kill: false }
        },
    }
}

/// The message for a program that failed: what it said of the failure, else its status.
pub fn failure_message(program: &str, stderr: &str, status: &str) -> (r: String)
    ensures
        r@ == (if trimmed(stderr@).len() == 0 {
            program@ + " exited with "@ + status@
        } else {
            program@ + ": "@ + trimmed(stderr@)
        }),
{
    let said = trim(stderr);
    if said.as_str().is_empty() {
        concat3(program, " exited with ", status)
    } else {
        concat3(program, ": ", &said)
    }
}

/// The text that a program printed.
pub fn output_text(bytes: &Vec<u8>) -> (r: String)
    ensures
        r@ == trimmed(lossy_text(bytes@)),
{
    let decoded = decode_lossy(bytes);
    trim(&decoded)
}

/// What is heard of a program that is waited for.
#[derive(Clone, Copy, Debug, PartialEq, Eq, Structural)]
pub enum WaitEvent {
    Exited,
    /// Its end could not be learned.
    Failed,
    /// Whoever waited for it is gone.
    Disconnected,
    /// The time is over.
    TimedOut,
}

/// The signals that end a program and all that it started.
#[derive(Clone, Copy, Debug, PartialEq, Eq, Structural)]
pub enum Signal {
    Terminate,
    Kill,
}

/// What to do with a program that is waited for.
#[derive(Clone, Copy, Debug, PartialEq, Eq, Structural)]
pub struct WaitStep {
    pub signal: Option<Signal>,
    pub then: WaitThen,
}

#[derive(Clone, Copy, Debug, PartialEq, Eq, Structural)]
pub enum WaitThen {
    ReportExit,
    ReportFailure,
    ReportTimeout,
    /// Give the program a moment to end.
    WaitForGrace,
    /// Give the killed program a moment, then report that the time was over.
    WaitForKill,
}

/// What to do at the first thing that is heard of a program.
pub fn first_wait(event: WaitEvent) -> (r: WaitStep)
    ensures
        r == (match event {
            WaitEvent::Exited => WaitStep { signal: None, then: WaitThen::ReportExit },
            WaitEvent::Failed => WaitStep {
                signal: Some(Signal::Kill),
                then: WaitThen::ReportFailure,
            },
            WaitEvent::Disconnected => WaitStep {
                signal: Some(Signal::Kill),
                then: WaitThen::ReportFailure,
            },
            WaitEvent::TimedOut => WaitStep {
                signal: Some(Signal::Terminate),
                then: WaitThen::WaitForGrace,
            },
        }),
{
    match event {
        WaitEvent::Exited => WaitStep { signal: None, then: WaitThen::ReportExit },
        WaitEvent::Failed => WaitStep {
            signal: Some(Signal::Kill),
            then: WaitThen::ReportFailure,
        },
        WaitEvent::Disconnected => WaitStep {
            signal: Some(Signal::Kill),
            then: WaitThen::ReportFailure,
        },
        WaitEvent::TimedOut => WaitStep {
            signal: Some(Signal::Terminate),
            then: WaitThen::WaitForGrace,
        },
    }
}

/// What to do at what is heard after a program was told to end.
pub fn grace_wait(event: WaitEvent) -> (r: WaitStep)
    ensures
        r == (match event {
            WaitEvent::Exited => WaitStep {
                signal: Some(Signal::Kill),
                then: WaitThen::ReportTimeout,
            },
            WaitEvent::Failed => WaitStep {
                signal: Some(Signal::Kill),
                then: WaitThen::ReportTimeout,
            },
            WaitEvent::TimedOut => WaitStep {
                signal: Some(Signal::Kill),
                then: WaitThen::WaitForKill,
            },
            WaitEvent::Disconnected => WaitStep { signal: None, then: WaitThen::ReportTimeout },
        }),
{
    match event {
        WaitEvent::Exited => WaitStep {
            signal: Some(Signal::Kill),
            then: WaitThen::ReportTimeout,
        },
        WaitEvent::Failed => WaitStep {
            signal: Some(Signal::Kill),
            then: WaitThen::ReportTimeout,
        },
        WaitEvent::TimedOut => WaitStep {
            signal: Some(Signal::Kill),
            then: WaitThen::WaitForKill,
        },
        WaitEvent::Disconnected => WaitStep { signal: None, then: WaitThen::ReportTimeout },
    }
}

/// What is kept of output is never longer than the limit, and is all of it below the limit.
pub proof fn captures_are_bounded(all: Seq<u8>)
    ensures
        captured(all).len() <= MAX_CAPTURE_BYTES,
        all.len() <= MAX_CAPTURE_BYTES ==> captured(all) == all,
        forall|i: int| 0 <= i < captured(all).len() ==> captured(all)[i] == all[i],
{
}

/// Whether the reading of a pipe ended well.
pub open spec fn pipe_ended_well(end: PipeEnd) -> bool {
    end is NoPipe || end is Bytes
}

/// A run gives output exactly for a program that ended by itself with success and whose two pipes
/// were read to their ends, and the output is what it printed. Only a program that has ended while
/// one of its pipes could not be read leaves something to be killed.
pub proof fn output_means_success(
    program: &str,
    end: ProgramEnd,
    stdout: PipeEnd,
    stderr: PipeEnd,
    timeout_ms: u64,
    r: RunResult,
)
    requires
        call_ensures(run_result, (program, end, stdout, stderr, timeout_ms), r),
    ensures
        (r is Output) == ((end matches ProgramEnd::Exited { success, .. } && success)
            && pipe_ended_well(stdout) && pipe_ended_well(stderr)),
        r matches RunResult::Output(bytes) ==> match stdout {
            PipeEnd::Bytes(printed) => bytes@ == printed@,
            _ => bytes@.len() == 0,
        },
        r matches RunResult::Error { kill, .. } ==> kill == (end is Exited && !(pipe_ended_well(
            stdout,
        ) && pipe_ended_well(stderr))),
{
}

/// The message on a run that failed names the program, and tells the time for one that took too
/// long, the error for one that could not be waited for, and for one that ended badly what it said
/// of it, or else its status.
pub proof fn failures_tell_their_reason(
    program: &str,
    end: ProgramEnd,
    stdout: PipeEnd,
    stderr: PipeEnd,
    timeout_ms: u64,
    r: RunResult,
)
    requires
        call_ensures(run_result, (program, end, stdout, stderr, timeout_ms), r),
    ensures
        r matches RunResult::Error { message, .. } ==> has_text(message@, program@),
        end is TimedOut ==> (r matches RunResult::Error { message, .. } && begins_with(
            message@,
            program@,
        ) && has_text(message@, decimal(timeout_ms as nat))),
        end matches ProgramEnd::Failed(error) ==> (r matches RunResult::Error { message, .. }
            && ends_with(message@, error@)),
        end matches ProgramEnd::Exited { success, status } ==> (!success && pipe_ended_well(stdout)
            && pipe_ended_well(stderr) ==> (r matches RunResult::Error { message, .. } && ends_with(
            message@,
            match stderr {
                PipeEnd::Bytes(said) => if trimmed(lossy_text(said@)).len() > 0 {
                    trimmed(lossy_text(said@))
                } else {
                    status@
                },
                _ => status@,
            },
        ))),
{
    let p = program@;
    let none = Seq::<char>::empty();
    match end {
        ProgramEnd::TimedOut => {
            let time = decimal(timeout_ms as nat);
            parts_show(none, p, " timed out after "@ + time + " ms"@);
            parts_show(p, " timed out after "@ + time + " ms"@, none);
            parts_show(p + " timed out after "@, time, " ms"@);
            assert(p + " timed out after "@ + time + " ms"@ =~= none + p + (" timed out after "@
                + time + " ms"@));
            assert(p + " timed out after "@ + time + " ms"@ =~= p + (" timed out after "@ + time
                + " ms"@));
        },
        ProgramEnd::Failed(error) => {
            let m = "failed to wait for "@ + p + ": "@ + error@;
            parts_show("failed to wait for "@, p, ": "@ + error@);
            parts_show("failed to wait for "@ + p, ": "@, error@);
            assert(m =~= "failed to wait for "@ + p + (": "@ + error@));
        },
        ProgramEnd::Exited { success, status } => {
            pipe_messages_name(stdout, p, "stdout"@);
            pipe_messages_name(stderr, p, "stderr"@);
            assert(lossy_text(pipe_bytes(stderr)) == lossy_text(pipe_bytes(stderr)));
            let said = trimmed(lossy_text(pipe_bytes(stderr)));
            parts_show(p, " exited with "@, status@);
            parts_show(p, ": "@, said);
            parts_show(none, p, " exited with "@ + status@);
            parts_show(none, p, ": "@ + said);
            assert(p + " exited with "@ + status@ =~= none + p + (" exited with "@ + status@));
            assert(p + ": "@ + said =~= none + p + (": "@ + said));
            if !(stderr is Bytes) {
                ascii_bytes_are_their_text(pipe_bytes(stderr));
                assert(lossy_text(pipe_bytes(stderr)).len() == 0);
            }
        },
    }
}

proof fn pipe_messages_name(end: PipeEnd, program: Seq<char>, stream: Seq<char>)
    ensures
        pipe_failure(end, program, stream) matches Some(message) ==> has_text(message, program)
            && has_text(message, stream),
{
    let p = program;
    let none = Seq::<char>::empty();
    match end {
        PipeEnd::Failed(error) => {
            let m = "failed to read "@ + p + " "@ + stream + ": "@ + error@;
            parts_show("failed to read "@, p, " "@ + stream + ": "@ + error@);
            parts_show("failed to read "@ + p + " "@, stream, ": "@ + error@);
            assert(m =~= "failed to read "@ + p + (" "@ + stream + ": "@ + error@));
            assert(m =~= "failed to read "@ + p + " "@ + stream + (": "@ + error@));
        },
        PipeEnd::TimedOut => {
            let tail = "; a descendant may still hold the pipe"@;
            let m = "timed out while draining "@ + p + " "@ + stream + tail;
            parts_show("timed out while draining "@, p, " "@ + stream + tail);
            parts_show("timed out while draining "@ + p + " "@, stream, tail);
            assert(m =~= "timed out while draining "@ + p + (" "@ + stream + tail));
        },
        PipeEnd::Stopped => {
            let tail = " reader stopped unexpectedly"@;
            parts_show(none, p, " "@ + stream + tail);
            parts_show(p + " "@, stream, tail);
            assert(p + " "@ + stream + tail =~= none + p + (" "@ + stream + tail));
        },
        _ => {},
    }
}

/// A pipe gives its bytes exactly where its reading ended well; else the message names the program
/// and the stream, and carries the error that came.
pub proof fn pipes_give_bytes_or_a_reason(
    end: PipeEnd,
    program: &str,
    stream: &str,
    r: Result<Vec<u8>, String>,
)
    requires
        call_ensures(finish_pipe, (end, program, stream), r),
    ensures
        (r is Ok) == pipe_ended_well(end),
        r matches Ok(bytes) ==> match end {
            PipeEnd::Bytes(read) => bytes@ == read@,
            _ => bytes@.len() == 0,
        },
        r matches Err(message) ==> has_text(message@, program@) && has_text(message@, stream@) && (
        end matches PipeEnd::Failed(error) ==> ends_with(message@, error@)),
{
    pipe_messages_name(end, program@, stream@);
    if end is Failed {
        parts_show("failed to read "@ + program@ + " "@ + stream@, ": "@, end->Failed_0@);
    }
}

/// Output up to a mebibyte is kept whole; of longer output the first mebibyte is kept, and a note
/// behind it says that there was more.
pub proof fn long_output_is_cut(buffer: CaptureBuffer, all: Seq<u8>, r: Vec<u8>)
    requires
        buffer.keeps(all),
        call_ensures(CaptureBuffer::finish, (buffer,), r),
    ensures
        all.len() <= 1_048_576 ==> r@ == all,
        all.len() > 1_048_576 ==> r@.len() == 1_048_576 + "\n[output truncated]\n"@.len() && r@.take(
            1_048_576,
        ) == all.take(1_048_576) && forall|i: int|
            0 <= i < "\n[output truncated]\n"@.len() ==> r@[1_048_576 + i] as int
                == #[trigger] "\n[output truncated]\n"@[i] as int,
{
    reveal_strlit("\n[output truncated]\n");
    let marker = marker_bytes();
    if all.len() > 1_048_576 {
        assert(r@.take(1_048_576) =~= all.take(1_048_576));
        assert forall|i: int| 0 <= i < "\n[output truncated]\n"@.len() implies r@[1_048_576 + i] as int
            == #[trigger] "\n[output truncated]\n"@[i] as int by {
            assert(r@[1_048_576 + i] == marker[i]);
        }
    }
}

/// Bytes come out in the order in which they were read, whatever the pieces they came in.
pub proof fn pieces_of_output_join(
    buffer: &mut CaptureBuffer,
    first: &[u8],
    again: &mut CaptureBuffer,
    second: &[u8],
)
    requires
        old(buffer).keeps(Seq::empty()),
        call_ensures(CaptureBuffer::absorb, (buffer, first), ()),
        *old(again) == *final(buffer),
        call_ensures(CaptureBuffer::absorb, (again, second), ()),
        first@.len() + second@.len() <= 1_048_576,
    ensures
        final(again).bytes@ == first@ + second@,
        !final(again).truncated,
{
    assert(final(buffer).bytes@ =~= first@);
}

/// A program that is waited for is reported as ended only when it did end in its time, is asked to
/// end before it is killed, and gets no signal once it is known to have ended in its time.
pub proof fn programs_are_asked_before_they_are_killed(
    event: WaitEvent,
    first: WaitStep,
    grace: WaitStep,
)
    requires
        call_ensures(first_wait, (event,), first),
        call_ensures(grace_wait, (event,), grace),
    ensures
        ({
            let WaitStep { signal, then: next } = first;
            &&& (next is ReportExit) == (event is Exited)
            &&& (signal is None) == (event is Exited)
            &&& (signal == Some(Signal::Terminate)) == (event is TimedOut)
            &&& (next is WaitForGrace) == (event is TimedOut)
            &&& (next is ReportFailure) == (event is Failed || event is Disconnected)
        }),
        ({
            let WaitStep { signal, then: next } = grace;
            &&& next is WaitForKill || next is ReportTimeout
            &&& (next is WaitForKill) == (event is TimedOut)
            &&& (signal is None) == (event is Disconnected)
            &&& signal != Some(Signal::Terminate)
        }),
{
}

/// The program of the environment comes before that of the build, and an empty name counts as
/// none.
pub proof fn named_programs_come_first(
    runtime: Option<bool>,
    build: Option<bool>,
    r: ProgramSource,
)
    requires
        call_ensures(program_source, (runtime, build), r),
    ensures
        (r is Runtime) == (runtime == Some(false)),
        r is BuildTime ==> build == Some(false) && runtime != Some(false),
        (r is Fallback) == (runtime != Some(false) && build != Some(false)),
{
}

/// The text of a program's output stands in it, has no white space around it, and is not changed by
/// white space around the output.
pub proof fn output_is_trimmed(bytes: Vec<u8>, r: String, text: Seq<char>)
    requires
        call_ensures(output_text, (&bytes,), r),
        bytes@ == encode_utf8(text),
    ensures
        r@ == trimmed(text),
        has_text(text, r@),
        is_blank(text) ==> r@.len() == 0,
{
    encoded_texts_are_read_back(text);
    trimming_takes_white_space_alone(text);
    let (from, to) = choose|from: int, to: int|
        0 <= from <= to <= text.len() && #[trigger] text.subrange(from, to) == trimmed(text)
            && is_blank(text.subrange(0, from)) && is_blank(text.subrange(to, text.len() as int));
    assert(occurs_at(text, r@, from));
    if is_blank(text) {
        blank_texts_trim_to_nothing(text);
    }
}

/// A reason tells apart a pipe that could not be read, one that was not read to its end in time, and
/// a reader that stopped.
pub proof fn reasons_tell_pipes_apart(
    end: PipeEnd,
    program: &str,
    stream: &str,
    r: Result<Vec<u8>, String>,
)
    requires
        call_ensures(finish_pipe, (end, program, stream), r),
    ensures
        end is Failed ==> r is Err && begins_with(r->Err_0@, "failed to read "@),
        end is TimedOut ==> r is Err && begins_with(r->Err_0@, "timed out while draining "@)
            && ends_with(r->Err_0@, "; a descendant may still hold the pipe"@),
        end is Stopped ==> r is Err && begins_with(r->Err_0@, program@) && ends_with(
            r->Err_0@,
            " reader stopped unexpectedly"@,
        ),
{
    let (p, s) = (program@, stream@);
    let none = Seq::<char>::empty();
    if end is Failed {
        let start = "failed to read "@;
        parts_show(start, p, none);
        fronts_stay(start + p, " "@, start);
        fronts_stay(start + p + " "@, s, start);
        fronts_stay(start + p + " "@ + s, ": "@, start);
        fronts_stay(start + p + " "@ + s + ": "@, end->Failed_0@, start);
    }
    if end is TimedOut {
        let start = "timed out while draining "@;
        let tail = "; a descendant may still hold the pipe"@;
        parts_show(start, p, none);
        fronts_stay(start + p, " "@, start);
        fronts_stay(start + p + " "@, s, start);
        fronts_stay(start + p + " "@ + s, tail, start);
        parts_show(start + p + " "@ + s, tail, none);
    }
    if end is Stopped {
        let tail = " reader stopped unexpectedly"@;
        parts_show(p, " "@, none);
        fronts_stay(p + " "@, s, p);
        fronts_stay(p + " "@ + s, tail, p);
        parts_show(p + " "@ + s, tail, none);
    }
}

} // verus!
