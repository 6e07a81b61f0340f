use sdcard_image_flasher::engine::poll::{classify, last_line_of, verdict_after_exit, LogRecord, PollState, PollStep};
use sdcard_image_flasher::engine::submission::{cancel_file_name, export, flash, is_cancel_file};
use sdcard_image_flasher::engine::{
    check_request, outcome_event, start_event, task_kind, ExportRange, FlashStartRequest, PollOutcome, QueuedTask,
    TaskKind, TaskQueue,
};

fn request(mode: &str, image: Option<&str>, devices: &[&str], concurrency: Option<u32>) -> FlashStartRequest {
    FlashStartRequest {
        mode: mode.to_string(),
        image_path: image.map(|s| s.to_string()),
        device_paths: devices.iter().map(|s| s.to_string()).collect(),
        export_range: None,
        concurrency,
    }
}

#[test]
fn enqueue_assigns_consecutive_ids() {
    let mut q = TaskQueue::new();
    let out = q.enqueue(&request("flash", Some("/img.iso"), &["/dev/disk4", "/dev/disk5"], None)).unwrap();
    assert_eq!(out.ids, vec![1, 2]);
    assert_eq!(out.concurrency, 3);
    assert_eq!(out.spawn_workers, 3);
    let out = q.enqueue(&request("flash", Some("/img.iso"), &["/dev/disk6"], Some(2))).unwrap();
    assert_eq!(out.ids, vec![3]);
    assert_eq!(out.concurrency, 2);
    assert_eq!(out.spawn_workers, 0);
    let out = q.enqueue(&request("flash", Some("/img.iso"), &["/dev/disk7"], Some(5))).unwrap();
    assert_eq!(out.ids, vec![4]);
    assert_eq!(out.spawn_workers, 2);
    assert_eq!(q.last_id(), 4);
    assert_eq!(q.pending(), 4);
}

#[test]
fn tasks_come_out_in_order() {
    let mut q = TaskQueue::new();
    let mut req = request("export", Some("/out.img"), &["/dev/a", "/dev/b"], None);
    req.export_range = Some(ExportRange { start: 512, length: 1024 });
    q.enqueue(&req).unwrap();
    q.enqueue(&request("flash", Some("/x.img"), &["/dev/c"], None)).unwrap();
    let t1 = q.next_task().unwrap();
    assert_eq!((t1.id, t1.device_path.as_str(), t1.mode.as_str()), (1, "/dev/a", "export"));
    assert_eq!(t1.image_path.as_deref(), Some("/out.img"));
    assert_eq!(t1.export_range.map(|r| (r.start, r.length)), Some((512, 1024)));
    let t2 = q.next_task().unwrap();
    assert_eq!((t2.id, t2.device_path.as_str()), (2, "/dev/b"));
    let t3 = q.next_task().unwrap();
    assert_eq!((t3.id, t3.device_path.as_str(), t3.mode.as_str()), (3, "/dev/c", "flash"));
    assert!(q.next_task().is_none());
}

#[test]
fn refused_requests_change_nothing() {
    let mut q = TaskQueue::default();
    assert_eq!(q.enqueue(&request("flash", Some("/i"), &[], None)).unwrap_err(), "未选择任何目标设备");
    assert_eq!(q.enqueue(&request("erase", Some("/i"), &["/dev/a"], None)).unwrap_err(), "未知模式: erase");
    assert_eq!(q.enqueue(&request("flash", None, &["/dev/a"], None)).unwrap_err(), "未选择镜像文件");
    assert_eq!(q.last_id(), 0);
    assert_eq!(q.pending(), 0);
    let out = q.enqueue(&request("export", None, &["/dev/a"], Some(0))).unwrap();
    assert_eq!(out.concurrency, 1);
    let out = q.enqueue(&request("export", None, &["/dev/a"], Some(100))).unwrap();
    assert_eq!(out.concurrency, 8);
    assert_eq!(out.spawn_workers, 7);
}

fn task(id: u64, mode: &str, image: Option<&str>) -> QueuedTask {
    QueuedTask {
        id,
        mode: mode.to_string(),
        image_path: image.map(|s| s.to_string()),
        device_path: "/dev/disk4".to_string(),
        export_range: Some(ExportRange { start: 0, length: 4096 }),
    }
}

#[test]
fn worker_dispatch_and_events() {
    assert_eq!(task_kind(&task(1, "flash", None)), TaskKind::Flash);
    assert_eq!(task_kind(&task(1, "export", None)), TaskKind::Export);
    assert_eq!(task_kind(&task(1, "wipe", None)), TaskKind::Unknown);
    let s = start_event();
    assert_eq!((s.stage.as_str(), s.complete), ("flashing", false));
    let e = outcome_event(&Ok(PollOutcome::Done));
    assert_eq!((e.stage.as_str(), e.complete, e.message), ("done", true, None));
    let e = outcome_event(&Ok(PollOutcome::Cancelled));
    assert_eq!((e.stage.as_str(), e.complete), ("cancelled", false));
    let e = outcome_event(&Err("boom".to_string()));
    assert_eq!((e.stage.as_str(), e.message.as_deref()), ("error", Some("boom")));
}

#[test]
fn submissions_name_their_files() {
    let s = flash(&task(42, "flash", Some("/img/raspios.img"))).unwrap();
    assert_eq!(s.mode, "flash");
    assert_eq!(s.id, "42");
    assert_eq!(s.image, "/img/raspios.img");
    assert_eq!(s.device, "/dev/disk4");
    assert_eq!(s.log_path, "/tmp/flash-helper-42.jsonl");
    assert_eq!(s.task_path, "/tmp/flash-task-42.json");
    assert_eq!(s.cancel_path, "/tmp/flash-cancel-42");
    assert!(s.export_range.is_none());
    let s = export(&task(7, "export", Some("/out.img"))).unwrap();
    assert_eq!(s.mode, "export");
    assert_eq!(s.task_path, "/tmp/flash-task-7.json");
    assert_eq!(s.export_range.map(|r| r.length), Some(4096));
    assert_eq!(flash(&task(1, "flash", None)).unwrap_err(), "缺少镜像路径");
    assert_eq!(export(&task(1, "export", None)).unwrap_err(), "缺少导出目标路径");
}

#[test]
fn cancel_files() {
    assert_eq!(cancel_file_name(0), "flash-cancel-0");
    assert_eq!(cancel_file_name(18446744073709551615), "flash-cancel-18446744073709551615");
    assert!(is_cancel_file("flash-cancel-3"));
    assert!(!is_cancel_file("flash-task-3.json"));
}

fn record(stage: Option<&str>, error: Option<&str>, done: Option<u64>, total: Option<u64>) -> Option<LogRecord> {
    Some(LogRecord {
        stage: stage.map(|s| s.to_string()),
        error: error.map(|s| s.to_string()),
        bytes_done: done,
        bytes_total: total,
    })
}

#[test]
fn poll_sees_new_last_lines_only() {
    let mut st = PollState::new();
    assert_eq!(st.observe(&None), None);
    assert_eq!(st.observe(&Some(String::new())), None);
    let a = "{\"stage\":\"flashing\",\"bytes_done\":1}\r\n{\"stage\":\"flashing\",\"bytes_done\":2}\n".to_string();
    assert_eq!(st.observe(&Some(a.clone())).as_deref(), Some("{\"stage\":\"flashing\",\"bytes_done\":2}"));
    assert_eq!(st.observe(&Some(a)), None);
    let b = "x\ny\r\n".to_string();
    assert_eq!(st.observe(&Some(b)).as_deref(), Some("y"));
    assert_eq!(last_line_of("a\r"), Some("a\r".to_string()));
    assert_eq!(last_line_of("a\n\n"), Some(String::new()));
}

#[test]
fn poll_classifies_lines() {
    assert!(matches!(classify(&None), PollStep::Continue));
    assert!(matches!(classify(&record(None, None, None, None)), PollStep::Continue));
    assert!(matches!(classify(&record(Some("done"), None, None, None)), PollStep::Finished(Ok(PollOutcome::Done))));
    assert!(matches!(classify(&record(Some("cancelled"), None, None, None)), PollStep::Finished(Ok(PollOutcome::Cancelled))));
    match classify(&record(Some("error"), Some("写入设备失败"), None, None)) {
        PollStep::Finished(Err(e)) => assert_eq!(e, "写入设备失败"),
        other => panic!("{:?}", other),
    }
    match classify(&record(Some("error"), None, None, None)) {
        PollStep::Finished(Err(e)) => assert_eq!(e, "未知错误"),
        other => panic!("{:?}", other),
    }
    match classify(&record(Some("verifying"), None, Some(10), None)) {
        PollStep::Progress { stage, bytes_done, bytes_total } => {
            assert_eq!((stage.as_str(), bytes_done, bytes_total), ("verifying", 10, 0))
        }
        other => panic!("{:?}", other),
    }
}

#[test]
fn poll_verdict_after_daemon_exit() {
    assert_eq!(verdict_after_exit(&record(Some("done"), None, None, None)), Ok(PollOutcome::Done));
    assert_eq!(verdict_after_exit(&record(Some("cancelled"), None, None, None)), Ok(PollOutcome::Cancelled));
    assert_eq!(verdict_after_exit(&record(Some("error"), Some("e"), None, None)), Err("e".to_string()));
    assert_eq!(verdict_after_exit(&record(Some("flashing"), None, None, None)), Err("权限助手进程已退出，任务异常终止".to_string()));
    assert_eq!(verdict_after_exit(&None), Err("权限助手进程已退出，任务异常终止".to_string()));
}

#[test]
fn ids_count_up_across_requests() {
    let mut q = TaskQueue::default();
    let mut all = Vec::new();
    let reqs = vec![
        request("flash", Some("/i"), &["/dev/a", "/dev/b"], None),
        request("flash", None, &["/dev/c"], None),
        request("export", None, &["/dev/d"], None),
        request("erase", None, &["/dev/e"], None),
        request("export", None, &["/dev/f", "/dev/g", "/dev/h"], Some(1)),
    ];
    for r in &reqs {
        if let Ok(out) = q.enqueue(r) {
            all.extend(out.ids);
        }
    }
    assert_eq!(all, vec![1, 2, 3, 4, 5, 6]);
    assert_eq!(q.last_id(), 6);
}

#[test]
fn requests_are_checked_in_order() {
    assert_eq!(check_request(&request("erase", None, &[], None)).unwrap_err(), "未选择任何目标设备");
    assert_eq!(check_request(&request("erase", None, &["/dev/a"], None)).unwrap_err(), "未知模式: erase");
    assert_eq!(check_request(&request("flash", None, &["/dev/a"], None)).unwrap_err(), "未选择镜像文件");
    assert!(check_request(&request("export", None, &["/dev/a"], None)).is_ok());
}
