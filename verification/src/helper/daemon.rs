//! The helper's command line and its daemon: which task files it picks up, what
//! a task file asks for, and what it logs when a task ends.

use vstd::prelude::*;
use vstd::string::*;
use crate::helper::device_paths::{raw_device, raw_device_path};
use crate::number::{parse_unsigned, parse_unsigned_chars, parse_i32_spec, parse_trimmed_i32, u64_to_decimal};
use crate::platform::Platform;
use crate::text::{chars_of, concat, eq_str, has_prefix, has_suffix, starts_with, ends_with, trim, trim_bounds, opt_view, sub_string};

verus! {

/// Tasks run at once unless the app asks for another number.
pub const MAX_CONCURRENT: usize = 3;

/// The daemon rewrites its pid file this often, in seconds.
pub const PID_REFRESH_SECS: u64 = 5;

/// The daemon checks whether its binary was replaced this often, in seconds.
pub const BINARY_CHECK_SECS: u64 = 15;

/// The daemon looks for tasks this often, in milliseconds.
pub const POLL_INTERVAL_MS: u64 = 300;

/// The serving loop's timers: when the pid file was last written and when the
/// binary was last checked, in milliseconds on a clock of the caller's choosing.
#[derive(Debug, Clone, Copy, PartialEq, Eq, Structural)]
pub struct ServeClock {
    pub last_pid_write_ms: u64,
    pub last_bin_check_ms: u64,
}

/// The chores of one round of the serving loop, before it looks for tasks: whether
/// to rewrite the pid file and whether to check the binary, and the timers after
/// the round.
#[derive(Debug, Clone, Copy, PartialEq, Eq, Structural)]
pub struct RoundChores {
    pub write_pid: bool,
    pub check_binary: bool,
    pub clock: ServeClock,
}

/// Whether `secs` whole seconds or more passed from `from_ms` to `now_ms` (the
/// time before is taken as none passed, as `Instant::elapsed` does).
pub open spec fn secs_passed(from_ms: u64, now_ms: u64, secs: u64) -> bool {
    now_ms >= from_ms && now_ms - from_ms >= secs * 1000
}

/// The chores of a round at `now_ms`: the pid file is rewritten every 5 seconds and
/// the binary checked every 15; a timer restarts when its chore is done.
pub fn round_chores(clock: &ServeClock, now_ms: u64) -> (r: RoundChores)
    ensures
        r.write_pid == secs_passed(clock.last_pid_write_ms, now_ms, PID_REFRESH_SECS),
        r.check_binary == secs_passed(clock.last_bin_check_ms, now_ms, BINARY_CHECK_SECS),
        r.clock.last_pid_write_ms == (if r.write_pid {
            now_ms
        } else {
            clock.last_pid_write_ms
        }),
        r.clock.last_bin_check_ms == (if r.check_binary {
            now_ms
        } else {
            clock.last_bin_check_ms
        }),
{
    let write_pid = now_ms >= clock.last_pid_write_ms && now_ms - clock.last_pid_write_ms
        >= PID_REFRESH_SECS * 1000;
    let check_binary = now_ms >= clock.last_bin_check_ms && now_ms - clock.last_bin_check_ms
        >= BINARY_CHECK_SECS * 1000;
    RoundChores {
        write_pid,
        check_binary,
        clock: ServeClock {
            last_pid_write_ms: if write_pid {
                now_ms
            } else {
                clock.last_pid_write_ms
            },
            last_bin_check_ms: if check_binary {
                now_ms
            } else {
                clock.last_bin_check_ms
            },
        },
    }
}

/// Whether the daemon restarts itself: at a binary check, when the binary's
/// modification time (seconds and nanoseconds) is known both from the start and
/// now, and differs.
pub fn restart_due(check_binary: bool, started: Option<(u64, u32)>, current: Option<(u64, u32)>) -> (r: bool)
    ensures
        r == (check_binary && started is Some && current is Some && started != current),
{
    if !check_binary {
        return false;
    }
    match (started, current) {
        (Some(a), Some(b)) => a.0 != b.0 || a.1 != b.1,
        _ => false,
    }
}

/// The number of tasks to run at once, from the contents of the concurrency file
/// (`None` when it cannot be read): a number there kept within 1 to 8, else 3.
pub open spec fn concurrency_from(content: Option<Seq<char>>) -> usize {
    match content {
        Some(c) => match parse_unsigned(trim(c), usize::MAX as nat) {
            Some(n) => if n < 1 {
                1
            } else if n > 8 {
                8
            } else {
                n as usize
            },
            None => MAX_CONCURRENT,
        },
        None => MAX_CONCURRENT,
    }
}

/// The number of tasks to run at once.
pub fn daemon_concurrency(content: &Option<String>) -> (r: usize)
    ensures
        r == concurrency_from(opt_view(*content)),
        1 <= r <= 8,
{
    match content {
        Some(c) => {
            let cs = chars_of(c.as_str());
            let (a, b) = trim_bounds(&cs);
            let t = crate::number::slice_vec(&cs, a, b);
            match parse_unsigned_chars(&t, usize::MAX as u64) {
                Some(n) => if n < 1 {
                    1
                } else if n > 8 {
                    8
                } else {
                    n as usize
                },
                None => MAX_CONCURRENT,
            }
        },
        None => MAX_CONCURRENT,
    }
}

/// A task file waiting to be picked up: `flash-task-*.json`.
pub open spec fn is_task_name(name: Seq<char>) -> bool {
    has_prefix(name, "flash-task-"@) && has_suffix(name, ".json"@)
}

/// A task being worked on: `flash-task-*.processing`.
pub open spec fn is_processing_name(name: Seq<char>) -> bool {
    has_prefix(name, "flash-task-"@) && has_suffix(name, ".processing"@)
}

pub fn is_task_file(name: &str) -> (r: bool)
    ensures
        r == is_task_name(name@),
{
    let cs = chars_of(name);
    starts_with(&cs, &chars_of("flash-task-")) && ends_with(&cs, &chars_of(".json"))
}

pub fn is_processing_file(name: &str) -> (r: bool)
    ensures
        r == is_processing_name(name@),
{
    let cs = chars_of(name);
    starts_with(&cs, &chars_of("flash-task-")) && ends_with(&cs, &chars_of(".processing"))
}

pub open spec fn name_views(names: Seq<String>) -> Seq<Seq<char>> {
    names.map_values(|s: String| s@)
}

/// The number of tasks being worked on among the names.
pub open spec fn processing_count(names: Seq<Seq<char>>) -> nat
    decreases names.len(),
{
    if names.len() == 0 {
        0
    } else {
        processing_count(names.drop_last()) + if is_processing_name(names.last()) {
            1nat
        } else {
            0nat
        }
    }
}

/// The number of tasks being worked on, from the names in the work directory.
pub fn count_processing_tasks(names: &Vec<String>) -> (r: usize)
    ensures
        r == processing_count(name_views(names@)),
{
    let mut n: usize = 0;
    let mut i: usize = 0;
    while i < names.len()
        invariant
            i <= names@.len(),
            n <= i,
            n == processing_count(name_views(names@.take(i as int))),
        decreases names@.len() - i,
    {
        assert(name_views(names@.take(i + 1)).drop_last() =~= name_views(names@.take(i as int)));
        if is_processing_file(names[i].as_str()) {
            n = n + 1;
        }
        i = i + 1;
    }
    assert(names@.take(i as int) =~= names@);
    n
}

/// The task files among the names, in order.
pub open spec fn task_names(names: Seq<Seq<char>>) -> Seq<Seq<char>>
    decreases names.len(),
{
    if names.len() == 0 {
        seq![]
    } else if is_task_name(names.last()) {
        task_names(names.drop_last()).push(names.last())
    } else {
        task_names(names.drop_last())
    }
}

/// The task files to pick up: when fewer than `max` tasks are being worked on,
/// the first waiting ones up to the free slots; else none.
pub open spec fn tasks_to_pick(names: Seq<Seq<char>>, max: nat, processing: nat) -> Seq<Seq<char>> {
    if processing < max {
        let t = task_names(names);
        let slots = (max - processing) as nat;
        if t.len() <= slots {
            t
        } else {
            t.take(slots as int)
        }
    } else {
        seq![]
    }
}

/// The task files to pick up from the names in the work directory.
pub fn pick_tasks(names: &Vec<String>, max: usize, processing: usize) -> (r: Vec<String>)
    ensures
        name_views(r@) == tasks_to_pick(name_views(names@), max as nat, processing as nat),
{
    let mut picked: Vec<String> = Vec::new();
    if processing >= max {
        assert(name_views(picked@) =~= Seq::<Seq<char>>::empty());
        return picked;
    }
    let slots = max - processing;
    let mut i: usize = 0;
    let ghost all = name_views(names@);
    while i < names.len()
        invariant
            i <= names@.len(),
            all == name_views(names@),
            slots == max - processing,
            processing < max,
            name_views(picked@) == (if task_names(all.take(i as int)).len() <= slots {
                task_names(all.take(i as int))
            } else {
                task_names(all.take(i as int)).take(slots as int)
            }),
        decreases names@.len() - i,
    {
        assert(all.take(i + 1).drop_last() =~= all.take(i as int));
        assert(all.take(i + 1).last() == names@[i as int]@);
        let ghost before = task_names(all.take(i as int));
        if is_task_file(names[i].as_str()) {
            if picked.len() < slots {
                picked.push(names[i].clone());
            }
        }
        proof {
            let after = task_names(all.take(i + 1));
            if is_task_name(names@[i as int]@) {
                assert(after == before.push(names@[i as int]@));
                if before.len() < slots {
                    assert(name_views(picked@) =~= after);
                } else {
                    assert(after.take(slots as int) =~= before.take(slots as int));
                    if before.len() == slots {
                        assert(before.take(slots as int) =~= before);
                    }
                }
            } else {
                assert(after == before);
            }
        }
        i = i + 1;
    }
    assert(all.take(i as int) =~= all);
    picked
}

/// The name a picked-up task file is renamed to while it is worked on.
pub open spec fn processing_name_of(name: Seq<char>) -> Seq<char> {
    name.take(name.len() - 5) + ".processing"@
}

/// The name a task file is renamed to when it is picked up (its `.json` extension
/// replaced by `.processing`).
pub fn processing_name(name: &str) -> (r: String)
    requires
        is_task_name(name@),
    ensures
        r@ == processing_name_of(name@),
{
    let n = chars_of(name).len();
    proof {
        reveal_strlit(".json");
    }
    concat(sub_string(name, 0, n - 5).as_str(), ".processing")
}

/// The file whose presence asks the helper to cancel the task with this id.
pub fn cancel_flag_path(task_id: &str) -> (r: String)
    ensures
        r@ == "/tmp/flash-cancel-"@ + task_id@,
{
    concat("/tmp/flash-cancel-", task_id)
}

/// The pid of another live instance to probe, from the pid file's contents: the
/// number there, unless it is this process's own.
pub open spec fn pid_to_probe(content: Option<Seq<char>>, own_pid: u32) -> Option<i32> {
    match content {
        Some(c) => match parse_i32_spec(trim(c)) {
            Some(p) => if p == (own_pid as i32) as int {
                None
            } else {
                Some(p as i32)
            },
            None => None,
        },
        None => None,
    }
}

/// The pid a starting daemon must check for a running instance before it serves.
pub fn single_instance_probe(content: &Option<String>, own_pid: u32) -> (r: Option<i32>)
    ensures
        r == pid_to_probe(opt_view(*content), own_pid),
{
    match content {
        Some(c) => match parse_trimmed_i32(c.as_str()) {
            Some(p) => {
                let own: i32 = #[verifier::truncate] (own_pid as i32);
                if p == own {
                    None
                } else {
                    Some(p)
                }
            },
            None => None,
        },
        None => None,
    }
}

// ---------------------------------------------------------------------------
// Jobs.
/// What the helper is asked to do.
#[derive(Debug, Clone)]
pub enum Job {
    /// Write an image to a device, then check it.
    Flash { image: String, device: String, task_id: String },
    /// Read a device (or part of it) into an image file.
    Export { device: String, image: String, task_id: String, start: u64, length: u64 },
    /// Check a device against an image.
    Verify { image: String, device: String, task_id: String },
}

/// A task file's fields, each present when it is a string (or an unsigned number
/// for the export range).
#[derive(Debug, Clone)]
pub struct TaskFile {
    pub mode: Option<String>,
    pub image: Option<String>,
    pub device: Option<String>,
    pub log: Option<String>,
    pub id: Option<String>,
    pub export_start: Option<u64>,
    pub export_length: Option<u64>,
}

/// The job a task file asks for, where to log, and the task's id.
#[derive(Debug)]
pub struct TaskPlan {
    pub log: String,
    pub id: String,
    pub job: Result<Job, String>,
}

pub open spec fn or_default(o: Option<String>, d: Seq<char>) -> Seq<char> {
    match o {
        Some(s) => s@,
        None => d,
    }
}

fn or_default_exec(o: &Option<String>, d: &str) -> (r: String)
    ensures
        r@ == or_default(*o, d@),
{
    match o {
        Some(s) => s.clone(),
        None => String::from_str(d),
    }
}

/// What a task file asks for: missing strings read as empty (the log as the
/// daemon's default log, the id as `0`); an export covers the whole device unless
/// the file gives a range.
pub fn plan_task(f: &TaskFile) -> (r: TaskPlan)
    ensures
        r.log@ == or_default(f.log, "/tmp/flash-helper-daemon.jsonl"@),
        r.id@ == or_default(f.id, "0"@),
        ({
            let mode = or_default(f.mode, ""@);
            let image = or_default(f.image, ""@);
            let device = or_default(f.device, ""@);
            if mode == "flash"@ {
                r.job matches Ok(Job::Flash { image: i, device: d, task_id: t }) && i@ == image && d@
                    == device && t@ == r.id@
            } else if mode == "export"@ {
                r.job matches Ok(Job::Export { device: d, image: i, task_id: t, start, length })
                    && i@ == image && d@ == device && t@ == r.id@ && start == (match f.export_start {
                    Some(s) => s,
                    None => 0,
                }) && length == (match f.export_length {
                    Some(l) => l,
                    None => u64::MAX,
                })
            } else {
                r.job matches Err(e) && e@ == "未知任务模式: "@ + mode
            }
        }),
{
    let mode = or_default_exec(&f.mode, "");
    let image = or_default_exec(&f.image, "");
    let device = or_default_exec(&f.device, "");
    let log = or_default_exec(&f.log, "/tmp/flash-helper-daemon.jsonl");
    let id = or_default_exec(&f.id, "0");
    let job = if eq_str(mode.as_str(), "flash") {
        Ok(Job::Flash { image, device, task_id: id.clone() })
    } else if eq_str(mode.as_str(), "export") {
        let start = match f.export_start {
            Some(s) => s,
            None => 0,
        };
        let length = match f.export_length {
            Some(l) => l,
            None => u64::MAX,
        };
        Ok(Job::Export { device, image, task_id: id.clone(), start, length })
    } else {
        Err(concat("未知任务模式: ", mode.as_str()))
    };
    TaskPlan { log, id, job }
}

/// What the daemon logs when a task ends.
#[derive(Debug, Clone)]
pub enum Completion {
    /// A `done` line.
    Done,
    /// Nothing: the task was cancelled and said so already.
    Silent,
    /// An `error` line with this message.
    Failed(String),
}

/// What to log when a task ends with this result.
pub fn completion(result: &Result<(), String>) -> (r: Completion)
    ensures
        match result {
            Ok(()) => r is Done,
            Err(e) => if e@ == "__CANCELLED__"@ {
                r is Silent
            } else {
                r matches Completion::Failed(m) && m@ == e@
            },
        },
{
    match result {
        Ok(()) => Completion::Done,
        Err(e) => if eq_str(e.as_str(), crate::helper::plan::CANCELLED) {
            Completion::Silent
        } else {
            Completion::Failed(e.clone())
        },
    }
}

/// What the helper's command line asks for.
#[derive(Debug)]
pub enum CliCommand {
    /// Run as the task daemon.
    Serve,
    /// Wrong arguments: print the usage.
    Usage,
    /// Run one job, logging to `log`; the job is an error for an unknown mode.
    Run { log: String, job: Result<Job, String> },
}

/// What the helper's arguments (program name first) ask for: `serve`, or
/// `<log> <flash|export|verify> <arg1> <arg2>`. A command-line export covers the
/// whole device; a check reads the device's raw node.
pub fn cli_command(args: &Vec<String>, platform: Platform) -> (r: CliCommand)
    ensures
        args@.len() >= 2 && args@[1]@ == "serve"@ ==> r is Serve,
        !(args@.len() >= 2 && args@[1]@ == "serve"@) && args@.len() != 5 ==> r is Usage,
        !(args@.len() >= 2 && args@[1]@ == "serve"@) && args@.len() == 5 ==> (r matches CliCommand::Run { log, job } && log@ == args@[1]@ && (
            if args@[2]@ == "flash"@ {
                job matches Ok(Job::Flash { image, device, task_id }) && image@ == args@[3]@
                    && device@ == args@[4]@ && task_id@ == "cli"@
            } else if args@[2]@ == "export"@ {
                job matches Ok(Job::Export { device, image, task_id, start, length }) && device@
                    == args@[3]@ && image@ == args@[4]@ && task_id@ == "cli"@ && start == 0
                    && length == u64::MAX
            } else if args@[2]@ == "verify"@ {
                job matches Ok(Job::Verify { image, device, task_id }) && image@ == args@[3]@
                    && device@ == raw_device_path(args@[4]@, platform) && task_id@ == "cli"@
            } else {
                job matches Err(e) && e@ == "未知模式: "@ + args@[2]@
            })),
{
    if args.len() >= 2 && eq_str(args[1].as_str(), "serve") {
        return CliCommand::Serve;
    }
    if args.len() != 5 {
        return CliCommand::Usage;
    }
    let log = args[1].clone();
    let mode = &args[2];
    let job = if eq_str(mode.as_str(), "flash") {
        Ok(Job::Flash { image: args[3].clone(), device: args[4].clone(), task_id: String::from_str("cli") })
    } else if eq_str(mode.as_str(), "export") {
        Ok(
            Job::Export {
                device: args[3].clone(),
                image: args[4].clone(),
                task_id: String::from_str("cli"),
                start: 0,
                length: u64::MAX,
            },
        )
    } else if eq_str(mode.as_str(), "verify") {
        Ok(
            Job::Verify {
                image: args[3].clone(),
                device: raw_device(args[4].as_str(), platform),
                task_id: String::from_str("cli"),
            },
        )
    } else {
        Err(concat("未知模式: ", mode.as_str()))
    };
    CliCommand::Run { log, job }
}

} // verus!
