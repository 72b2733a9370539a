//! The command executor's logic: shaping a subprocess outcome into an
//! `ExecResult`, validating file operations, and building the reply
//! envelopes for an executed remote command. Spawning, reading pipes and
//! killing on timeout happen at the process edge; every decision about the
//! outcome is made here.

use vstd::prelude::*;
use vstd::string::*;
use crate::text::{dec_digits, dec_int};
use crate::remote::{Command, CommandResult, ProgressUpdate, Envelope, MessageType};

verus! {

pub struct Executor;

impl Executor {
    pub fn new() -> (r: Self) {
        Executor
    }
}

/// The outcome record of a shell command or file operation.
pub struct ExecResult {
    pub success: bool,
    pub stdout: String,
    pub stderr: String,
    pub exit_code: i32,
    pub duration_ms: u64,
    pub timed_out: bool,
}

/// What the subprocess race produced: an exit, or the timer winning.
pub enum CommandOutcome {
    Exited { exit_code: i32, stdout: String, stderr: String },
    TimedOut,
}

/// The stderr text reported for a timed-out command.
pub open spec fn timeout_msg(timeout_secs: u64) -> Seq<char> {
    "Command timed out after "@ + dec_digits(timeout_secs as nat) + "s"@
}

/// Shapes a finished subprocess race into its result record: an exit is a
/// success exactly when its code is zero; a timeout is never a success,
/// reports exit code -1 and says so in stderr.
pub fn exec_result_from_outcome(outcome: CommandOutcome, timeout_secs: u64, duration_ms: u64)
    -> (r: ExecResult)
    ensures
        r.duration_ms == duration_ms,
        match outcome {
            CommandOutcome::Exited { exit_code, stdout, stderr } => {
                &&& r.success == (exit_code == 0)
                &&& r.stdout@ == stdout@
                &&& r.stderr@ == stderr@
                &&& r.exit_code == exit_code
                &&& r.timed_out == false
            },
            CommandOutcome::TimedOut => {
                &&& r.success == false
                &&& r.stdout@ == Seq::<char>::empty()
                &&& r.stderr@ == timeout_msg(timeout_secs)
                &&& r.exit_code == -1
                &&& r.timed_out == true
            },
        },
{
    match outcome {
        CommandOutcome::Exited { exit_code, stdout, stderr } => ExecResult {
            success: exit_code == 0,
            stdout,
            stderr,
            exit_code,
            duration_ms,
            timed_out: false,
        },
        CommandOutcome::TimedOut => {
            let mut stderr = String::from_str("Command timed out after ");
            let secs = crate::text::u64_to_string(timeout_secs);
            stderr.append(secs.as_str());
            stderr.append("s");
            proof {
                assert(stderr@ =~= timeout_msg(timeout_secs));
            }
            ExecResult {
                success: false,
                stdout: String::new(),
                stderr,
                exit_code: -1,
                duration_ms,
                timed_out: true,
            }
        },
    }
}

/// The timeout in whole seconds enforced for a remote command: its
/// `timeout_ms` rounded down, and never below five seconds.
pub fn command_timeout_secs(timeout_ms: i64) -> (r: u64)
    ensures
        timeout_ms >= 5000 ==> r == timeout_ms as int / 1000,
        timeout_ms < 5000 ==> r == 5,
{
    if timeout_ms < 5000 {
        5
    } else {
        (timeout_ms as u64) / 1000
    }
}

// ───────────────────────── trimming ─────────────────────────

pub open spec fn is_space(c: char) -> bool {
    c == ' ' || c == '\t' || c == '\n' || c == '\r'
}

pub open spec fn trim_front(s: Seq<char>) -> Seq<char>
    decreases s.len(),
{
    if s.len() > 0 && is_space(s[0]) {
        trim_front(s.drop_first())
    } else {
        s
    }
}

pub open spec fn trim_back(s: Seq<char>) -> Seq<char>
    decreases s.len(),
{
    if s.len() > 0 && is_space(s.last()) {
        trim_back(s.drop_last())
    } else {
        s
    }
}

/// ASCII whitespace stripped from both ends.
pub open spec fn spec_trim(s: Seq<char>) -> Seq<char> {
    trim_back(trim_front(s))
}

fn is_space_exec(c: char) -> (r: bool)
    ensures
        r == is_space(c),
{
    c == ' ' || c == '\t' || c == '\n' || c == '\r'
}

/// Strips ASCII whitespace from both ends of a string.
pub fn trim_ascii(s: &str) -> (r: String)
    ensures
        r@ == spec_trim(s@),
{
    let n = s.unicode_len();
    let mut i: usize = 0;
    proof {
        assert(s@.skip(0) =~= s@);
    }
    while i < n && is_space_exec(s.get_char(i))
        invariant
            i <= n,
            n == s@.len(),
            trim_front(s@) == trim_front(s@.skip(i as int)),
        decreases n - i,
    {
        proof {
            let t = s@.skip(i as int);
            assert(t[0] == s@[i as int]);
            assert(t.drop_first() =~= s@.skip(i as int + 1));
        }
        i = i + 1;
    }
    proof {
        let t = s@.skip(i as int);
        if i < n {
            assert(t[0] == s@[i as int]);
        }
        assert(trim_front(t) == t);
    }
    let mut j: usize = n;
    proof {
        assert(s@.skip(i as int) =~= s@.subrange(i as int, n as int));
    }
    while j > i && is_space_exec(s.get_char(j - 1))
        invariant
            i <= j <= n,
            n == s@.len(),
            trim_front(s@) == s@.skip(i as int),
            trim_back(s@.skip(i as int)) == trim_back(s@.subrange(i as int, j as int)),
        decreases j,
    {
        proof {
            let t = s@.subrange(i as int, j as int);
            assert(t.last() == s@[j as int - 1]);
            assert(t.drop_last() =~= s@.subrange(i as int, j as int - 1));
        }
        j = j - 1;
    }
    proof {
        let t = s@.subrange(i as int, j as int);
        if j > i {
            assert(t.last() == s@[j as int - 1]);
        }
        assert(trim_back(t) == t);
        assert(s@.skip(i as int) =~= s@.subrange(i as int, n as int));
    }
    s.substring_char(i, j).to_owned()
}

// ───────────────────────── file operations ─────────────────────────

/// A validated file operation, ready for the process edge to perform.
#[derive(Debug)]
pub enum FileOpPlan {
    Read { path: String },
    Write { path: String, content: String },
    Move { path: String, destination: String },
    Delete { path: String },
}

/// Validates a requested file operation. `FILE_READ`, `FILE_WRITE`,
/// `FILE_MOVE` and `FILE_DELETE` are accepted; a move without a
/// destination and any other action name are refused with the error text
/// the caller reports.
pub fn file_op_plan(
    action: &str,
    path: &String,
    destination: Option<&String>,
    content: Option<&String>,
) -> (r: Result<FileOpPlan, String>)
    ensures
        match r {
            Ok(plan) => match plan {
                FileOpPlan::Read { path: p } => action@ == "FILE_READ"@ && p@ == path@,
                FileOpPlan::Write { path: p, content: c } => action@ == "FILE_WRITE"@ && p@
                    == path@ && c@ == (match content {
                    Some(s) => s@,
                    None => Seq::<char>::empty(),
                }),
                FileOpPlan::Move { path: p, destination: d } => action@ == "FILE_MOVE"@ && p@
                    == path@ && destination is Some && d@ == destination->Some_0@,
                FileOpPlan::Delete { path: p } => action@ == "FILE_DELETE"@ && p@ == path@,
            },
            Err(msg) => {
                (action@ == "FILE_MOVE"@ && destination is None && msg@
                    == "FILE_MOVE requires a destination path"@) || (action@ != "FILE_READ"@
                    && action@ != "FILE_WRITE"@ && action@ != "FILE_MOVE"@ && action@
                    != "FILE_DELETE"@ && msg@ == "Unknown file action: "@ + action@)
            },
        },
{
    let a = String::from_str(action);
    if a == String::from_str("FILE_READ") {
        Ok(FileOpPlan::Read { path: path.clone() })
    } else if a == String::from_str("FILE_WRITE") {
        let c = match content {
            Some(s) => s.clone(),
            None => String::new(),
        };
        Ok(FileOpPlan::Write { path: path.clone(), content: c })
    } else if a == String::from_str("FILE_MOVE") {
        match destination {
            Some(d) => Ok(FileOpPlan::Move { path: path.clone(), destination: d.clone() }),
            None => Err(String::from_str("FILE_MOVE requires a destination path")),
        }
    } else if a == String::from_str("FILE_DELETE") {
        Ok(FileOpPlan::Delete { path: path.clone() })
    } else {
        let mut msg = String::from_str("Unknown file action: ");
        msg.append(action);
        proof {
            assert(msg@ =~= "Unknown file action: "@ + action@);
        }
        Err(msg)
    }
}

/// The success record of a completed read: the file's text on stdout.
pub fn read_result(data: String, duration_ms: u64) -> (r: ExecResult)
    ensures
        r.success == true,
        r.stdout == data,
        r.stderr@ == Seq::<char>::empty(),
        r.exit_code == 0,
        r.duration_ms == duration_ms,
        r.timed_out == false,
{
    ExecResult {
        success: true,
        stdout: data,
        stderr: String::new(),
        exit_code: 0,
        duration_ms,
        timed_out: false,
    }
}

/// The text reported after a completed write.
pub open spec fn write_msg(n_bytes: u64, path: Seq<char>) -> Seq<char> {
    "Written "@ + dec_digits(n_bytes as nat) + " bytes to "@ + path
}

pub fn write_result(path: &String, n_bytes: u64, duration_ms: u64) -> (r: ExecResult)
    ensures
        r.success == true,
        r.stdout@ == write_msg(n_bytes, path@),
        r.stderr@ == Seq::<char>::empty(),
        r.exit_code == 0,
        r.duration_ms == duration_ms,
        r.timed_out == false,
{
    let mut stdout = String::from_str("Written ");
    let n = crate::text::u64_to_string(n_bytes);
    stdout.append(n.as_str());
    stdout.append(" bytes to ");
    stdout.append(path.as_str());
    proof {
        assert(stdout@ =~= write_msg(n_bytes, path@));
    }
    ExecResult {
        success: true,
        stdout,
        stderr: String::new(),
        exit_code: 0,
        duration_ms,
        timed_out: false,
    }
}

/// The text reported after a completed move.
pub open spec fn move_msg(path: Seq<char>, dest: Seq<char>) -> Seq<char> {
    "Moved "@ + path + " -> "@ + dest
}

pub fn move_result(path: &String, destination: &String, duration_ms: u64) -> (r: ExecResult)
    ensures
        r.success == true,
        r.stdout@ == move_msg(path@, destination@),
        r.stderr@ == Seq::<char>::empty(),
        r.exit_code == 0,
        r.duration_ms == duration_ms,
        r.timed_out == false,
{
    let mut stdout = String::from_str("Moved ");
    stdout.append(path.as_str());
    stdout.append(" -> ");
    stdout.append(destination.as_str());
    proof {
        assert(stdout@ =~= move_msg(path@, destination@));
    }
    ExecResult {
        success: true,
        stdout,
        stderr: String::new(),
        exit_code: 0,
        duration_ms,
        timed_out: false,
    }
}

/// The text reported after a completed delete.
pub open spec fn delete_msg(path: Seq<char>) -> Seq<char> {
    "Deleted "@ + path
}

pub fn delete_result(path: &String, duration_ms: u64) -> (r: ExecResult)
    ensures
        r.success == true,
        r.stdout@ == delete_msg(path@),
        r.stderr@ == Seq::<char>::empty(),
        r.exit_code == 0,
        r.duration_ms == duration_ms,
        r.timed_out == false,
{
    let mut stdout = String::from_str("Deleted ");
    stdout.append(path.as_str());
    proof {
        assert(stdout@ =~= delete_msg(path@));
    }
    ExecResult {
        success: true,
        stdout,
        stderr: String::new(),
        exit_code: 0,
        duration_ms,
        timed_out: false,
    }
}

// ───────────────────────── command replies ─────────────────────────

/// Extracts the command out of a remote envelope: the tag must say
/// `Command` and the payload must decode as one.
pub fn command_from_envelope(env: &Envelope) -> (r: Option<Command>)
    ensures
        match r {
            Some(c) => env.msg_type == MessageType::Command.spec_tag()
                && crate::remote::spec_decode_command(env.payload@) == Some(c@),
            None => env.msg_type != MessageType::Command.spec_tag()
                || crate::remote::spec_decode_command(env.payload@) is None,
        },
{
    if env.msg_type != MessageType::Command.tag() {
        return None;
    }
    Command::decode(&env.payload)
}

/// The progress text reported for one executed step.
pub open spec fn progress_msg(step_number: i32, shell_command: Seq<char>, exec: ExecResult)
    -> Seq<char> {
    if exec.success {
        "Step "@ + dec_int(step_number as int) + " completed: "@ + shell_command
    } else {
        "Step "@ + dec_int(step_number as int) + " failed: "@ + spec_trim(exec.stderr@)
    }
}

/// Builds the command-result message reported upstream for one executed
/// command.
pub fn command_result_from_exec(cmd: &Command, exec: &ExecResult) -> (r: CommandResult)
    ensures
        r.command_id@ == cmd.id@,
        r.task_id@ == cmd.task_id@,
        r.success == exec.success,
        r.stdout@ == exec.stdout@,
        r.stderr@ == exec.stderr@,
        r.exit_code == exec.exit_code,
        r.duration_ms == exec.duration_ms as i64,
{
    CommandResult {
        command_id: cmd.id.clone(),
        task_id: cmd.task_id.clone(),
        success: exec.success,
        stdout: exec.stdout.clone(),
        stderr: exec.stderr.clone(),
        exit_code: exec.exit_code,
        duration_ms: exec.duration_ms as i64,
    }
}

/// Builds the progress update reported upstream for one executed command.
pub fn progress_from_exec(cmd: &Command, exec: &ExecResult) -> (r: ProgressUpdate)
    ensures
        r.task_id@ == cmd.task_id@,
        r.step_number == cmd.step_number,
        r.message@ == progress_msg(cmd.step_number, cmd.shell_command@, *exec),
        r.percent_complete == 0,
{
    let mut message = String::from_str("Step ");
    let num = crate::text::i32_to_string(cmd.step_number);
    message.append(num.as_str());
    if exec.success {
        message.append(" completed: ");
        message.append(cmd.shell_command.as_str());
    } else {
        message.append(" failed: ");
        let trimmed = trim_ascii(exec.stderr.as_str());
        message.append(trimmed.as_str());
    }
    proof {
        assert(message@ =~= progress_msg(cmd.step_number, cmd.shell_command@, *exec));
    }
    ProgressUpdate {
        task_id: cmd.task_id.clone(),
        step_number: cmd.step_number,
        message,
        percent_complete: 0,
    }
}

/// A fresh remote envelope around an encoded payload.
pub fn make_envelope(session_id: &str, msg_type: MessageType, payload: Vec<u8>) -> (r: Envelope)
    ensures
        r.session_id@ == session_id@,
        r.msg_type == msg_type.spec_tag(),
        r.payload == payload,
        r.id@.len() == 36,
        r.timestamp_ms >= 0,
{
    Envelope {
        id: crate::sys::new_uuid(),
        session_id: session_id.to_owned(),
        timestamp_ms: crate::sys::now_ms(),
        msg_type: msg_type.tag(),
        payload,
    }
}

/// The two envelopes sent upstream after executing one remote command: a
/// progress update and the command's result, both under the command's
/// session.
pub fn command_reply_envelopes(cmd: &Command, session_id: &str, exec: &ExecResult) -> (r: (
    Envelope,
    Envelope,
))
    ensures
        r.0.session_id@ == session_id@,
        r.0.msg_type == MessageType::ProgressUpdate.spec_tag(),
        r.0.payload@ == crate::remote::spec_encode_progress_update(
            ProgressUpdateV_of(cmd, exec),
        ),
        r.0.id@.len() == 36,
        r.0.timestamp_ms >= 0,
        r.1.session_id@ == session_id@,
        r.1.msg_type == MessageType::CommandResult.spec_tag(),
        r.1.payload@ == crate::remote::spec_encode_command_result(CommandResultV_of(cmd, exec)),
        r.1.id@.len() == 36,
        r.1.timestamp_ms >= 0,
{
    let progress = progress_from_exec(cmd, exec);
    let progress_bytes = progress.encode_to_vec();
    let progress_env = make_envelope(session_id, MessageType::ProgressUpdate, progress_bytes);
    let result = command_result_from_exec(cmd, exec);
    let result_bytes = result.encode_to_vec();
    let result_env = make_envelope(session_id, MessageType::CommandResult, result_bytes);
    proof {
        assert(progress@ == ProgressUpdateV_of(cmd, exec));
        assert(result@ == CommandResultV_of(cmd, exec));
    }
    (progress_env, result_env)
}

/// The progress-update model produced for one executed command.
pub open spec fn ProgressUpdateV_of(cmd: &Command, exec: &ExecResult)
    -> crate::remote::ProgressUpdateV {
    crate::remote::ProgressUpdateV {
        task_id: cmd.task_id@,
        step_number: cmd.step_number,
        message: progress_msg(cmd.step_number, cmd.shell_command@, *exec),
        percent_complete: 0,
    }
}

/// The command-result model produced for one executed command.
pub open spec fn CommandResultV_of(cmd: &Command, exec: &ExecResult)
    -> crate::remote::CommandResultV {
    crate::remote::CommandResultV {
        command_id: cmd.id@,
        task_id: cmd.task_id@,
        success: exec.success,
        stdout: exec.stdout@,
        stderr: exec.stderr@,
        exit_code: exec.exit_code,
        duration_ms: exec.duration_ms as i64,
    }
}

} // verus!
