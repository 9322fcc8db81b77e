//! Container lifecycle: the start sequence as a verified state machine, the
//! accelerator-fallback rule, idempotent teardown, and the exact runtime
//! command lines.
//!
//! The runtime itself is external; the surrounding process runs one
//! subprocess per step and feeds the observed outcome back as a
//! [`StartEvent`].  Everything decided here — which command runs next, when
//! the CPU fallback is taken, which failure is fatal — is proved.

use vstd::prelude::*;

verus! {

use vstd::string::*;
use crate::text::{contains_seq, contains_str, str_views};

/// Why a start attempt failed, with the runtime's diagnostic text verbatim.
#[derive(Debug, PartialEq, Eq)]
pub enum StartError {
    /// The container runtime itself cannot be reached; fatal, not retryable.
    RuntimeUnavailable(String),
    /// The routing configuration could not be persisted.
    ConfigWrite(String),
    /// The detached launch failed (after the one permitted fallback retry,
    /// if the accelerator-absence signature allowed one).
    Launch(String),
}

/// Where the start sequence stands; `Launch(true)` requests all accelerator
/// devices, `Launch(false)` is the CPU fallback attempt.
#[derive(Debug, PartialEq, Eq)]
pub enum StartStep {
    CheckRuntime,
    CleanInstance,
    WriteConfig,
    Launch(bool),
    Done(Result<(), StartError>),
}

/// The observed outcome of the subprocess a step asked for.  The pre-clean
/// removal reports `Cleaned` whatever happened: removing a missing instance
/// is not a failure.
#[derive(Debug, PartialEq, Eq)]
pub enum StartEvent {
    RuntimeOk,
    RuntimeMissing(String),
    Cleaned,
    ConfigWritten,
    ConfigWriteFailed(String),
    LaunchOk,
    LaunchFailed(String),
}

/// The accelerator-absence signature: the diagnostic of a launch that failed
/// only because no accelerator driver is available.
pub open spec fn gpu_absent_sig(stderr: Seq<char>) -> bool {
    contains_seq(stderr, "could not select device driver"@) || contains_seq(stderr, "nvidia"@)
}

/// Does this launch diagnostic mean the accelerator is unavailable (so that
/// a CPU retry is warranted)?
pub fn is_gpu_unavailable_error(stderr: &str) -> (r: bool)
    ensures
        r == gpu_absent_sig(stderr@),
{
    contains_str(stderr, "could not select device driver") || contains_str(stderr, "nvidia")
}

/// The transition relation of the start sequence.  A launch failure retries
/// once without the accelerator exactly when the diagnostic carries the
/// accelerator-absence signature; every other failure is fatal.  An event
/// that does not belong to the current step leaves it unchanged.
pub open spec fn spec_next(s: StartStep, e: StartEvent) -> StartStep {
    match (s, e) {
        (StartStep::CheckRuntime, StartEvent::RuntimeOk) => StartStep::CleanInstance,
        (StartStep::CheckRuntime, StartEvent::RuntimeMissing(d)) => StartStep::Done(
            Err(StartError::RuntimeUnavailable(d)),
        ),
        (StartStep::CleanInstance, StartEvent::Cleaned) => StartStep::WriteConfig,
        (StartStep::WriteConfig, StartEvent::ConfigWritten) => StartStep::Launch(true),
        (StartStep::WriteConfig, StartEvent::ConfigWriteFailed(d)) => StartStep::Done(
            Err(StartError::ConfigWrite(d)),
        ),
        (StartStep::Launch(_), StartEvent::LaunchOk) => StartStep::Done(Ok(())),
        (StartStep::Launch(gpu), StartEvent::LaunchFailed(d)) => {
            if gpu && gpu_absent_sig(d@) {
                StartStep::Launch(false)
            } else {
                StartStep::Done(Err(StartError::Launch(d)))
            }
        },
        (other, _) => other,
    }
}

/// Advances the start sequence by one observed event.
pub fn next_step(s: StartStep, e: StartEvent) -> (r: StartStep)
    ensures
        r == spec_next(s, e),
{
    match (s, e) {
        (StartStep::CheckRuntime, StartEvent::RuntimeOk) => StartStep::CleanInstance,
        (StartStep::CheckRuntime, StartEvent::RuntimeMissing(d)) => StartStep::Done(
            Err(StartError::RuntimeUnavailable(d)),
        ),
        (StartStep::CleanInstance, StartEvent::Cleaned) => StartStep::WriteConfig,
        (StartStep::WriteConfig, StartEvent::ConfigWritten) => StartStep::Launch(true),
        (StartStep::WriteConfig, StartEvent::ConfigWriteFailed(d)) => StartStep::Done(
            Err(StartError::ConfigWrite(d)),
        ),
        (StartStep::Launch(_), StartEvent::LaunchOk) => StartStep::Done(Ok(())),
        (StartStep::Launch(gpu), StartEvent::LaunchFailed(d)) => {
            if gpu && is_gpu_unavailable_error(d.as_str()) {
                StartStep::Launch(false)
            } else {
                StartStep::Done(Err(StartError::Launch(d)))
            }
        },
        (other, _) => other,
    }
}

/// Progress measure of a step: transitions never move backwards, and the
/// terminal step absorbs every event.
pub open spec fn rank(s: StartStep) -> int {
    match s {
        StartStep::CheckRuntime => 0,
        StartStep::CleanInstance => 1,
        StartStep::WriteConfig => 2,
        StartStep::Launch(gpu) => if gpu {
            3
        } else {
            4
        },
        StartStep::Done(_) => 5,
    }
}

/// One transition never decreases the rank.
pub proof fn lemma_rank_monotone(s: StartStep, e: StartEvent)
    ensures
        rank(spec_next(s, e)) >= rank(s),
{
}

/// The steps visited when `es` is fed, one event at a time, from `s0`:
/// `s0` first, then the step after each event.
pub open spec fn states_of(s0: StartStep, es: Seq<StartEvent>) -> Seq<StartStep>
    decreases es.len(),
{
    if es.len() == 0 {
        seq![s0]
    } else {
        seq![s0] + states_of(spec_next(s0, es.first()), es.drop_first())
    }
}

pub proof fn lemma_states_of_shape(s0: StartStep, es: Seq<StartEvent>)
    ensures
        states_of(s0, es).len() == es.len() + 1,
        states_of(s0, es)[0] == s0,
    decreases es.len(),
{
    if es.len() > 0 {
        lemma_states_of_shape(spec_next(s0, es.first()), es.drop_first());
    }
}

pub proof fn lemma_states_of_step(s0: StartStep, es: Seq<StartEvent>, i: int)
    requires
        0 <= i < es.len(),
    ensures
        states_of(s0, es)[i + 1] == spec_next(states_of(s0, es)[i], es[i]),
    decreases es.len(),
{
    let s1 = spec_next(s0, es.first());
    let rest = es.drop_first();
    lemma_states_of_shape(s0, es);
    lemma_states_of_shape(s1, rest);
    if i == 0 {
        assert(states_of(s0, es)[1] == states_of(s1, rest)[0]);
    } else {
        lemma_states_of_step(s1, rest, i - 1);
        assert(rest[i - 1] == es[i]);
        assert(states_of(s0, es)[i] == states_of(s1, rest)[i - 1]);
        assert(states_of(s0, es)[i + 1] == states_of(s1, rest)[i]);
    }
}

/// Along any run the rank never decreases.
pub proof fn lemma_rank_monotone_trace(s0: StartStep, es: Seq<StartEvent>, i: int, j: int)
    requires
        0 <= i <= j < states_of(s0, es).len(),
    ensures
        rank(states_of(s0, es)[i]) <= rank(states_of(s0, es)[j]),
    decreases j - i,
{
    lemma_states_of_shape(s0, es);
    if i < j {
        lemma_rank_monotone_trace(s0, es, i, j - 1);
        lemma_states_of_step(s0, es, j - 1);
        lemma_rank_monotone(states_of(s0, es)[j - 1], es[j - 1]);
    }
}

/// The only way into the CPU fallback attempt is an accelerator launch that
/// failed with the accelerator-absence signature.
pub proof fn lemma_cpu_entry(s: StartStep, e: StartEvent)
    requires
        spec_next(s, e) == StartStep::Launch(false),
        s != StartStep::Launch(false),
    ensures
        s == StartStep::Launch(true),
        e matches StartEvent::LaunchFailed(d) && gpu_absent_sig(d@),
{
}

/// A launch failure with the accelerator-absence signature moves the
/// attempt to the CPU image; one without it is fatal at once; and a failure
/// of the CPU attempt is always fatal — there is never a second retry.
pub proof fn lemma_fallback_policy(d: String)
    ensures
        gpu_absent_sig(d@) ==> spec_next(StartStep::Launch(true), StartEvent::LaunchFailed(d))
            == StartStep::Launch(false),
        !gpu_absent_sig(d@) ==> spec_next(StartStep::Launch(true), StartEvent::LaunchFailed(d))
            == StartStep::Done(Err(StartError::Launch(d))),
        spec_next(StartStep::Launch(false), StartEvent::LaunchFailed(d)) == StartStep::Done(
            Err(StartError::Launch(d)),
        ),
{
}

/// Within one start run the CPU fallback is entered at most once: there is
/// at most one position where the run switches to the fallback attempt.
pub proof fn lemma_single_fallback(es: Seq<StartEvent>, p: int, q: int)
    requires
        0 < p < states_of(StartStep::CheckRuntime, es).len(),
        0 < q < states_of(StartStep::CheckRuntime, es).len(),
        states_of(StartStep::CheckRuntime, es)[p] == StartStep::Launch(false),
        states_of(StartStep::CheckRuntime, es)[p - 1] != StartStep::Launch(false),
        states_of(StartStep::CheckRuntime, es)[q] == StartStep::Launch(false),
        states_of(StartStep::CheckRuntime, es)[q - 1] != StartStep::Launch(false),
    ensures
        p == q,
{
    let sts = states_of(StartStep::CheckRuntime, es);
    lemma_states_of_shape(StartStep::CheckRuntime, es);
    lemma_states_of_step(StartStep::CheckRuntime, es, p - 1);
    lemma_cpu_entry(sts[p - 1], es[p - 1]);
    lemma_states_of_step(StartStep::CheckRuntime, es, q - 1);
    lemma_cpu_entry(sts[q - 1], es[q - 1]);
    if p < q {
        lemma_rank_monotone_trace(StartStep::CheckRuntime, es, p, q - 1);
        assert(rank(sts[p]) == 4);
        assert(rank(sts[q - 1]) == 3);
    } else if q < p {
        lemma_rank_monotone_trace(StartStep::CheckRuntime, es, q, p - 1);
        assert(rank(sts[q]) == 4);
        assert(rank(sts[p - 1]) == 3);
    }
}

/// The outcome of force-removing the named instance.
#[derive(Debug, PartialEq, Eq)]
pub enum RemoveOutcome {
    /// An instance existed and was removed.
    Removed,
    /// No instance of the name was present; removal is a silent success.
    NothingToRemove,
    /// The runtime itself could not be reached.
    RuntimeUnreachable(String),
}

/// What `stop` reports for each removal outcome: only an unreachable
/// runtime is an error.
pub open spec fn spec_stop_result(o: RemoveOutcome) -> Result<(), String> {
    match o {
        RemoveOutcome::RuntimeUnreachable(d) => Err(d),
        _ => Ok(()),
    }
}

/// Turns the observed removal outcome into the result of `stop`.  Stopping
/// is idempotent: with nothing to remove it still succeeds.
pub fn stop_result(outcome: RemoveOutcome) -> (r: Result<(), String>)
    ensures
        r == spec_stop_result(outcome),
        (r is Ok) <==> !(outcome is RuntimeUnreachable),
{
    match outcome {
        RemoveOutcome::RuntimeUnreachable(d) => Err(d),
        _ => Ok(()),
    }
}

/// Stopping with no instance present returns success, not an error.
pub proof fn lemma_stop_without_instance_succeeds()
    ensures
        spec_stop_result(RemoveOutcome::NothingToRemove) is Ok,
{
}

/// Effect of one observed start event on whether an instance of the fixed
/// name exists in the runtime: the pre-clean removes it, a successful
/// detached launch creates it, a failed launch leaves none behind.
pub open spec fn presence_after_event(present: bool, e: StartEvent) -> bool {
    match e {
        StartEvent::Cleaned => false,
        StartEvent::LaunchOk => true,
        StartEvent::LaunchFailed(_) => false,
        _ => present,
    }
}

/// Instance presence after a whole run of observed events.
pub open spec fn presence_after(present: bool, es: Seq<StartEvent>) -> bool
    decreases es.len(),
{
    if es.len() == 0 {
        present
    } else {
        presence_after(presence_after_event(present, es.first()), es.drop_first())
    }
}

/// Stopping force-removes the named instance, so afterwards it is absent.
pub open spec fn presence_after_stop(present: bool) -> bool {
    false
}

/// A start run — whichever path it took, accelerator or CPU fallback,
/// success or failure — followed immediately by a stop leaves the runtime
/// with no instance of the fixed name.
pub proof fn lemma_start_then_stop_absent(present0: bool, es: Seq<StartEvent>)
    ensures
        !presence_after_stop(presence_after(present0, es)),
{
}

/// Decimal digit character for one digit value.
pub open spec fn dec_digit(d: int) -> char {
    ((48 + d) as u32) as char
}

/// Decimal rendering of a non-negative number, most significant digit
/// first, with no leading zeroes (a single zero renders as itself).
pub open spec fn dec_str(n: int) -> Seq<char>
    decreases n,
{
    if n < 0 {
        Seq::<char>::empty()
    } else if n < 10 {
        seq![dec_digit(n)]
    } else {
        dec_str(n / 10) + seq![dec_digit(n % 10)]
    }
}

fn digit_str(d: u16) -> (r: &'static str)
    requires
        d < 10,
    ensures
        r@ == seq![dec_digit(d as int)],
{
    let r: &'static str = match d {
        0 => "0",
        1 => "1",
        2 => "2",
        3 => "3",
        4 => "4",
        5 => "5",
        6 => "6",
        7 => "7",
        8 => "8",
        _ => "9",
    };
    proof {
        reveal_strlit("0");
        reveal_strlit("1");
        reveal_strlit("2");
        reveal_strlit("3");
        reveal_strlit("4");
        reveal_strlit("5");
        reveal_strlit("6");
        reveal_strlit("7");
        reveal_strlit("8");
        reveal_strlit("9");
        vstd::utf8::char_u32_cast('0', 48);
        vstd::utf8::char_u32_cast('1', 49);
        vstd::utf8::char_u32_cast('2', 50);
        vstd::utf8::char_u32_cast('3', 51);
        vstd::utf8::char_u32_cast('4', 52);
        vstd::utf8::char_u32_cast('5', 53);
        vstd::utf8::char_u32_cast('6', 54);
        vstd::utf8::char_u32_cast('7', 55);
        vstd::utf8::char_u32_cast('8', 56);
        vstd::utf8::char_u32_cast('9', 57);
        assert(r@ =~= seq![dec_digit(d as int)]);
    }
    r
}

/// Renders a port number in decimal.
pub fn u16_dec_string(v: u16) -> (r: String)
    ensures
        r@ == dec_str(v as int),
    decreases v,
{
    if v < 10 {
        String::from_str(digit_str(v))
    } else {
        let mut s = u16_dec_string(v / 10);
        s.append(digit_str(v % 10));
        s
    }
}

/// The arguments of the detached launch: fixed name, accelerator request
/// (on the accelerator attempt only), cache-home override, port binding to
/// the server's fixed internal port, mounts for the weights directory and
/// the routing document, and the image variant for the attempt.
pub open spec fn run_args(
    models_dir: Seq<char>,
    config_path: Seq<char>,
    port: int,
    gpu: bool,
) -> Seq<Seq<char>> {
    seq!["run"@, "-d"@, "--name"@, "opencode-llm"@] + (if gpu {
        seq!["--gpus"@, "all"@]
    } else {
        Seq::<Seq<char>>::empty()
    }) + seq![
        "-e"@,
        "HF_HOME=/models"@,
        "-p"@,
        dec_str(port) + ":8080"@,
        "-v"@,
        models_dir + ":/models"@,
        "-v"@,
        config_path + ":/app/config.yaml"@,
        if gpu {
            "ghcr.io/mostlygeek/llama-swap:cuda"@
        } else {
            "ghcr.io/mostlygeek/llama-swap:cpu"@
        },
    ]
}

/// Builds the launch argument list for one attempt.
pub fn docker_run_args(models_dir: &String, config_path: &String, port: u16, gpu: bool) -> (r: Vec<
    String,
>)
    ensures
        str_views(r@) == run_args(models_dir@, config_path@, port as int, gpu),
{
    let mut args: Vec<String> = Vec::new();
    args.push(String::from_str("run"));
    args.push(String::from_str("-d"));
    args.push(String::from_str("--name"));
    args.push(String::from_str("opencode-llm"));
    if gpu {
        args.push(String::from_str("--gpus"));
        args.push(String::from_str("all"));
    }
    args.push(String::from_str("-e"));
    args.push(String::from_str("HF_HOME=/models"));
    args.push(String::from_str("-p"));
    let mut port_map = u16_dec_string(port);
    port_map.append(":8080");
    args.push(port_map);
    args.push(String::from_str("-v"));
    let mut vol = models_dir.clone();
    vol.append(":/models");
    args.push(vol);
    args.push(String::from_str("-v"));
    let mut conf = config_path.clone();
    conf.append(":/app/config.yaml");
    args.push(conf);
    if gpu {
        args.push(String::from_str("ghcr.io/mostlygeek/llama-swap:cuda"));
    } else {
        args.push(String::from_str("ghcr.io/mostlygeek/llama-swap:cpu"));
    }
    proof {
        assert(str_views(args@) =~= run_args(
            models_dir@,
            config_path@,
            port as int,
            gpu,
        ));
    }
    args
}

/// The arguments of the idempotent force-removal of the named instance.
pub open spec fn remove_args() -> Seq<Seq<char>> {
    seq!["rm"@, "-f"@, "opencode-llm"@]
}

/// Builds the force-removal argument list (used by the pre-clean and by
/// `stop`).
pub fn docker_remove_args() -> (r: Vec<String>)
    ensures
        str_views(r@) == remove_args(),
{
    let mut args: Vec<String> = Vec::new();
    args.push(String::from_str("rm"));
    args.push(String::from_str("-f"));
    args.push(String::from_str("opencode-llm"));
    proof {
        assert(str_views(args@) =~= remove_args());
    }
    args
}

/// The arguments for following the instance's log stream with a bounded
/// backlog.
pub open spec fn logs_args() -> Seq<Seq<char>> {
    seq!["logs"@, "-f"@, "--tail"@, "50"@, "opencode-llm"@]
}

/// Builds the log-streaming argument list.
pub fn docker_logs_args() -> (r: Vec<String>)
    ensures
        str_views(r@) == logs_args(),
{
    let mut args: Vec<String> = Vec::new();
    args.push(String::from_str("logs"));
    args.push(String::from_str("-f"));
    args.push(String::from_str("--tail"));
    args.push(String::from_str("50"));
    args.push(String::from_str("opencode-llm"));
    proof {
        assert(str_views(args@) =~= logs_args());
    }
    args
}

/// Location of the routing document inside the weights directory, mounted
/// into the instance.
pub fn config_path_for(models_dir: &String) -> (r: String)
    ensures
        r@ == models_dir@ + "/llama-swap.yaml"@,
{
    let mut p = models_dir.clone();
    p.append("/llama-swap.yaml");
    p
}

} // verus!
