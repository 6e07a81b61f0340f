//! Handing a task to the helper daemon: the task file it reads, where it logs
//! progress, and the file that asks it to cancel.

use vstd::prelude::*;
use vstd::string::*;
use crate::engine::{QueuedTask, ExportRange};
use crate::number::{decimal, u64_to_decimal};
use crate::text::concat;

verus! {

/// What is written to the daemon's task file for one task, and the paths involved.
#[derive(Debug, Clone)]
pub struct TaskSubmission {
    /// `flash` or `export`.
    pub mode: String,
    /// The task id in decimal.
    pub id: String,
    /// The image to write from (flash) or to write to (export).
    pub image: String,
    pub device: String,
    /// Where the daemon logs progress, one JSON object per line.
    pub log_path: String,
    /// The task file the daemon picks up.
    pub task_path: String,
    /// The file whose presence asks the daemon to cancel the task.
    pub cancel_path: String,
    /// For an export of part of a device: its start and length.
    pub export_range: Option<ExportRange>,
}

pub open spec fn log_path_of(id: u64) -> Seq<char> {
    "/tmp/flash-helper-"@ + decimal(id as nat) + ".jsonl"@
}

pub open spec fn task_path_of(id: u64) -> Seq<char> {
    "/tmp/flash-task-"@ + decimal(id as nat) + ".json"@
}

pub open spec fn cancel_path_of(id: u64) -> Seq<char> {
    "/tmp/flash-cancel-"@ + decimal(id as nat)
}

/// The name of the file in the work directory that asks the daemon to cancel task `id`.
pub open spec fn cancel_name_of(id: u64) -> Seq<char> {
    "flash-cancel-"@ + decimal(id as nat)
}

/// The name of the file that asks the daemon to cancel task `id`.
pub fn cancel_file_name(id: u64) -> (r: String)
    ensures
        r@ == cancel_name_of(id),
{
    concat("flash-cancel-", u64_to_decimal(id).as_str())
}

/// Whether a file in the work directory is a cancellation request (these are
/// cleared when the app starts).
pub fn is_cancel_file(name: &str) -> (r: bool)
    ensures
        r == crate::text::has_prefix(name@, "flash-cancel-"@),
{
    crate::text::starts_with(&crate::text::chars_of(name), &crate::text::chars_of("flash-cancel-"))
}

fn paths(id: u64) -> (r: (String, String, String, String))
    ensures
        r.0@ == decimal(id as nat),
        r.1@ == log_path_of(id),
        r.2@ == task_path_of(id),
        r.3@ == cancel_path_of(id),
{
    let n = u64_to_decimal(id);
    let log = concat(concat("/tmp/flash-helper-", n.as_str()).as_str(), ".jsonl");
    let task = concat(concat("/tmp/flash-task-", n.as_str()).as_str(), ".json");
    let cancel = concat("/tmp/flash-cancel-", n.as_str());
    (n, log, task, cancel)
}

/// The submission of a flash task: the image to write is required.
pub fn flash(task: &QueuedTask) -> (r: Result<TaskSubmission, String>)
    ensures
        match task.image_path {
            None => r matches Err(e) && e@ == "缺少镜像路径"@,
            Some(img) => r matches Ok(s) && s.mode@ == "flash"@ && s.id@ == decimal(task.id as nat)
                && s.image@ == img@ && s.device@ == task.device_path@ && s.log_path@
                == log_path_of(task.id) && s.task_path@ == task_path_of(task.id) && s.cancel_path@
                == cancel_path_of(task.id) && s.export_range is None,
        },
{
    let image = match &task.image_path {
        Some(i) => i.clone(),
        None => {
            return Err(String::from_str("缺少镜像路径"));
        },
    };
    let (id, log_path, task_path, cancel_path) = paths(task.id);
    Ok(
        TaskSubmission {
            mode: String::from_str("flash"),
            id,
            image,
            device: task.device_path.clone(),
            log_path,
            task_path,
            cancel_path,
            export_range: None,
        },
    )
}

/// The submission of an export task: the file to export to is required; the
/// task's range, if any, goes with it.
pub fn export(task: &QueuedTask) -> (r: Result<TaskSubmission, String>)
    ensures
        match task.image_path {
            None => r matches Err(e) && e@ == "缺少导出目标路径"@,
            Some(img) => r matches Ok(s) && s.mode@ == "export"@ && s.id@ == decimal(
                task.id as nat,
            ) && s.image@ == img@ && s.device@ == task.device_path@ && s.log_path@
                == log_path_of(task.id) && s.task_path@ == task_path_of(task.id) && s.cancel_path@
                == cancel_path_of(task.id) && s.export_range == task.export_range,
        },
{
    let image = match &task.image_path {
        Some(i) => i.clone(),
        None => {
            return Err(String::from_str("缺少导出目标路径"));
        },
    };
    let (id, log_path, task_path, cancel_path) = paths(task.id);
    Ok(
        TaskSubmission {
            mode: String::from_str("export"),
            id,
            image,
            device: task.device_path.clone(),
            log_path,
            task_path,
            cancel_path,
            export_range: task.export_range,
        },
    )
}

} // verus!
