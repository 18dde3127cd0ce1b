use vstd::prelude::*;

use crate::errs::{capability_error, CapabilityError, CapabilityErrorCode};

verus! {

/// A finished process's captured output and exit status. The provider runs a
/// command to completion before a handle ever exists, so a resource only
/// holds captured buffers, never a running child.
#[derive(Debug)]
pub struct ProcessResource {
    pub command: String,
    pub stdout: Vec<u8>,
    pub stderr: Vec<u8>,
    pub stdout_pos: usize,
    pub stderr_pos: usize,
    pub exit_code: Option<i32>,
    pub timed_out: bool,
}

impl ProcessResource {
    /// The read cursors never run past their buffers.
    pub open spec fn wf(self) -> bool {
        self.stdout_pos <= self.stdout@.len() && self.stderr_pos <= self.stderr@.len()
    }
}

/// A terminal exit status: code, optional signal, and the timeout flag.
#[derive(Clone, Copy, Debug, PartialEq, Eq, Structural)]
pub struct ExitStatus {
    pub code: Option<i32>,
    pub signal: Option<i32>,
    pub timed_out: bool,
}

/// One bounded read from a captured stream: the bytes and an end flag.
#[derive(Debug)]
pub struct StreamRead {
    pub data: Vec<u8>,
    pub eof: bool,
}

/// The exit status a finished process resource reports.
pub fn to_exit_status(resource: &ProcessResource) -> (r: ExitStatus)
    ensures
        r.code == resource.exit_code,
        r.signal is None,
        r.timed_out == resource.timed_out,
{
    ExitStatus { code: resource.exit_code, signal: None, timed_out: resource.timed_out }
}

/// How many bytes one bounded read takes from position `pos`.
pub open spec fn spec_take(len: int, pos: int, max_bytes: u32) -> int {
    if len - pos < max_bytes as int {
        len - pos
    } else {
        max_bytes as int
    }
}

/// Reads at most `max_bytes` bytes from the buffer at the cursor, advances
/// the cursor, and reports end-of-stream once the cursor reaches the end.
pub fn read_process_stream(data: &[u8], offset: &mut usize, max_bytes: u32) -> (r: StreamRead)
    requires
        *old(offset) <= data@.len(),
    ensures
        *final(offset) == *old(offset) + spec_take(data@.len() as int, *old(offset) as int,
            max_bytes),
        *final(offset) <= data@.len(),
        r.data@ == data@.subrange(*old(offset) as int, *final(offset) as int),
        r.eof == (*final(offset) == data@.len()),
{
    let len = data.len();
    let start: usize = *offset;
    let remaining = len - start;
    let max = max_bytes as usize;
    let take: usize = if remaining < max {
        remaining
    } else {
        max
    };
    let mut chunk: Vec<u8> = Vec::new();
    let mut k: usize = 0;
    while k < take
        invariant
            0 <= k <= take,
            start + take <= len,
            len == data@.len(),
            chunk@ == data@.subrange(start as int, start as int + k as int),
        decreases take - k,
    {
        chunk.push(data[start + k]);
        proof {
            assert(chunk@ =~= data@.subrange(start as int, start as int + k as int + 1));
        }
        k = k + 1;
    }
    *offset = start + take;
    let eof = *offset >= len;
    StreamRead { data: chunk, eof }
}

/// The bytes a run of bounded reads yields, one read per entry of `maxes`,
/// starting with the cursor at `pos`.
pub open spec fn drained(data: Seq<u8>, pos: int, maxes: Seq<u32>) -> Seq<u8>
    decreases maxes.len(),
{
    if maxes.len() == 0 {
        Seq::empty()
    } else {
        let take = spec_take(data.len() as int, pos, maxes[0]);
        data.subrange(pos, pos + take) + drained(data, pos + take, maxes.drop_first())
    }
}

/// The budgets' total.
pub open spec fn sum_maxes(maxes: Seq<u32>) -> int
    decreases maxes.len(),
{
    if maxes.len() == 0 {
        0
    } else {
        maxes[0] + sum_maxes(maxes.drop_first())
    }
}

/// Law: repeated bounded reads concatenate to one contiguous span of the
/// captured buffer; once the budgets cover the rest of the buffer, that span
/// is exactly what a single unbounded read from the cursor would return.
pub proof fn lemma_reads_concatenate(data: Seq<u8>, pos: int, maxes: Seq<u32>)
    requires
        0 <= pos <= data.len(),
    ensures
        drained(data, pos, maxes) == data.subrange(
            pos,
            pos + if sum_maxes(maxes) < data.len() - pos {
                sum_maxes(maxes)
            } else {
                data.len() - pos
            },
        ),
    decreases maxes.len(),
{
    lemma_sum_maxes_nonneg(maxes);
    if maxes.len() == 0 {
        assert(data.subrange(pos, pos) =~= Seq::empty());
    } else {
        let take = spec_take(data.len() as int, pos, maxes[0]);
        lemma_sum_maxes_nonneg(maxes.drop_first());
        lemma_reads_concatenate(data, pos + take, maxes.drop_first());
        let rest_span = if sum_maxes(maxes.drop_first()) < data.len() - pos - take {
            sum_maxes(maxes.drop_first())
        } else {
            data.len() - pos - take
        };
        let total_span = if sum_maxes(maxes) < data.len() - pos {
            sum_maxes(maxes)
        } else {
            data.len() - pos
        };
        assert(take + rest_span == total_span);
        assert(data.subrange(pos, pos + take) + data.subrange(
            pos + take,
            pos + take + rest_span,
        ) =~= data.subrange(pos, pos + total_span));
    }
}

/// Law: once the read budgets cover the rest of the buffer, the drained
/// bytes are exactly what a single unbounded read from the cursor returns.
pub proof fn lemma_reads_drain_everything(data: Seq<u8>, pos: int, maxes: Seq<u32>)
    requires
        0 <= pos <= data.len(),
        sum_maxes(maxes) >= data.len() - pos,
    ensures
        drained(data, pos, maxes) == data.subrange(pos, data.len() as int),
{
    lemma_reads_concatenate(data, pos, maxes);
}

pub proof fn lemma_sum_maxes_nonneg(maxes: Seq<u32>)
    ensures
        sum_maxes(maxes) >= 0,
    decreases maxes.len(),
{
    if maxes.len() > 0 {
        lemma_sum_maxes_nonneg(maxes.drop_first());
    }
}

/// An element-wise copy of a byte buffer.
pub fn clone_bytes(v: &Vec<u8>) -> (r: Vec<u8>)
    ensures
        r@ == v@,
{
    let n = v.len();
    let mut out: Vec<u8> = Vec::new();
    let mut i: usize = 0;
    while i < n
        invariant
            0 <= i <= n,
            n == v@.len(),
            out@ == v@.subrange(0, i as int),
        decreases n - i,
    {
        out.push(v[i]);
        proof {
            assert(out@ =~= v@.subrange(0, i as int + 1));
        }
        i = i + 1;
    }
    proof {
        assert(v@.subrange(0, n as int) =~= v@);
    }
    out
}

/// How the guest asks for a child process's standard streams to be wired.
#[derive(Clone, Copy, Debug, PartialEq, Eq, Structural)]
pub enum StdioMode {
    Null,
    Pipe,
    Inherit,
}

/// One environment variable for a spawned process.
#[derive(Clone, Debug)]
pub struct EnvVar {
    pub key: String,
    pub value: String,
}

/// The guest's spawn request options.
#[derive(Debug)]
pub struct SpawnOptions {
    pub argv: Vec<String>,
    pub working_dir: Option<String>,
    pub env: Vec<EnvVar>,
    pub timeout_ms: Option<u64>,
    pub stdin: StdioMode,
    pub stdout: StdioMode,
    pub stderr: StdioMode,
}

/// Why a spawn request was refused before any command ran.
pub open spec fn spec_spawn_options_rejection(options: SpawnOptions) -> Option<Seq<char>> {
    if options.timeout_ms is Some {
        Some("timeout is not supported yet"@)
    } else if !(options.stdin == StdioMode::Null) {
        Some("stdin must be null for now"@)
    } else if !(options.stdout == StdioMode::Pipe) || !(options.stderr == StdioMode::Pipe) {
        Some("stdout/stderr must be pipe"@)
    } else {
        None
    }
}

/// Validates the stdio and timeout shape of a spawn request: only the
/// "no stdin, piped stdout and stderr, no timeout" mode is supported.
pub fn check_spawn_options(options: &SpawnOptions) -> (r: Result<(), CapabilityError>)
    ensures
        match spec_spawn_options_rejection(*options) {
            Some(msg) => r matches Result::Err(e) && e.code
                == CapabilityErrorCode::InvalidArgument && e.message@ == msg,
            None => r is Ok,
        },
{
    if options.timeout_ms.is_some() {
        return Result::Err(
            capability_error(CapabilityErrorCode::InvalidArgument, "timeout is not supported yet"),
        );
    }
    if !matches!(options.stdin, StdioMode::Null) {
        return Result::Err(
            capability_error(CapabilityErrorCode::InvalidArgument, "stdin must be null for now"),
        );
    }
    if !matches!(options.stdout, StdioMode::Pipe) || !matches!(options.stderr, StdioMode::Pipe) {
        return Result::Err(
            capability_error(CapabilityErrorCode::InvalidArgument, "stdout/stderr must be pipe"),
        );
    }
    Result::Ok(())
}

/// What the unverified backend reports after running a command to
/// completion: the captured streams and the exit code, if any.
#[derive(Debug)]
pub struct RawProcOutput {
    pub exit_code: Option<i32>,
    pub stdout: Vec<u8>,
    pub stderr: Vec<u8>,
}

/// A finished process record built from a backend's captured output, with
/// both read cursors at the start.
pub fn process_resource_from_output(command: String, output: RawProcOutput) -> (r: ProcessResource)
    ensures
        r.wf(),
        r.command == command,
        r.stdout == output.stdout,
        r.stderr == output.stderr,
        r.stdout_pos == 0,
        r.stderr_pos == 0,
        r.exit_code == output.exit_code,
        !r.timed_out,
{
    ProcessResource {
        command,
        stdout: output.stdout,
        stderr: output.stderr,
        stdout_pos: 0,
        stderr_pos: 0,
        exit_code: output.exit_code,
        timed_out: false,
    }
}

} // verus!
