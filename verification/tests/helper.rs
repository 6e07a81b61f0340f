use sdcard_image_flasher::helper::daemon::{
    cancel_flag_path, cli_command, completion, count_processing_tasks, daemon_concurrency,
    is_processing_file, is_task_file, pick_tasks, plan_task, processing_name, single_instance_probe,
    CliCommand, Completion, Job, TaskFile, round_chores, restart_due, ServeClock,
};
use sdcard_image_flasher::helper::device_paths::{
    device_size, diskutil_disk, raw_device, size_from_plist, unmount_target,
};
use sdcard_image_flasher::helper::plan::{
    check_image_size, check_run_args, check_run_verdict, compare_chunk, dd_failure, dd_plan,
    dd_segment_args, dd_tail_args, dd_tail_failure, differ_char_number, export_window,
    export_write_len, is_permission_denied, mismatch_message, padded_len, tail_temp_path,
    verify_segments, write_step, WriteStep, DD_BS,
};
use sdcard_image_flasher::helper::tracker::Tracker;
use sdcard_image_flasher::platform::Platform;

#[test]
fn raw_nodes_on_macos() {
    assert_eq!(raw_device("/dev/disk4", Platform::MacOs), "/dev/rdisk4");
    assert_eq!(raw_device("/dev/rdisk4", Platform::MacOs), "/dev/rdisk4");
    assert_eq!(raw_device(&raw_device("/dev/disk4", Platform::MacOs), Platform::MacOs), "/dev/rdisk4");
    assert_eq!(raw_device("/dev/sdb", Platform::MacOs), "/dev/sdb");
    assert_eq!(raw_device("/dev/disk4", Platform::Linux), "/dev/disk4");
    assert_eq!(unmount_target("/dev/disk4", Platform::MacOs).as_deref(), Some("disk4"));
    assert_eq!(unmount_target("/dev/disk4", Platform::Windows), None);
    assert_eq!(unmount_target("/dev/sdb", Platform::MacOs), None);
}

#[test]
fn diskutil_names() {
    assert_eq!(diskutil_disk("/dev/rdisk4"), "disk4");
    assert_eq!(diskutil_disk("/dev/disk4"), "disk4");
    assert_eq!(diskutil_disk("disk2s1"), "disk2s1");
    assert_eq!(diskutil_disk("/dev//dev/diskdisk3"), "disk3");
}

const PLIST: &str = "<plist>\n\t<key>SizeX</key>\n\t<string>x</string>\n\t<key>Size</key>\n\t<integer>31914983424</integer>\n</plist>\n";

#[test]
fn plist_sizes() {
    assert_eq!(size_from_plist(PLIST), Some(31914983424));
    assert_eq!(size_from_plist("<key>Size</key>\n<integer>x</integer>\n<key>Size</key>\r\n  <integer>7</integer>"), Some(7));
    assert_eq!(size_from_plist("<key>Size</key>"), None);
    assert_eq!(size_from_plist(""), None);
    assert_eq!(device_size(Platform::MacOs, &Ok(PLIST.to_string()), Some(5)), Ok(31914983424));
    assert_eq!(device_size(Platform::MacOs, &Ok(String::new()), Some(5)), Ok(5));
    assert_eq!(
        device_size(Platform::MacOs, &Ok(String::new()), None),
        Err("无法获取设备大小（diskutil 输出解析失败）".to_string())
    );
    assert_eq!(
        device_size(Platform::MacOs, &Err("No such file".to_string()), None),
        Err("无法执行 diskutil: No such file".to_string())
    );
    assert_eq!(device_size(Platform::Linux, &Ok(PLIST.to_string()), Some(5)), Err("此平台暂不支持导出功能".to_string()));
}

#[test]
fn sector_padding() {
    assert_eq!(padded_len(0), 0);
    assert_eq!(padded_len(1), 512);
    assert_eq!(padded_len(512), 512);
    assert_eq!(padded_len(513), 1024);
    assert_eq!(padded_len(4194304), 4194304);
}

#[test]
fn export_windows() {
    assert_eq!(export_window(100, u64::MAX, 1000), (0, 1000));
    assert_eq!(export_window(100, 200, 1000), (100, 200));
    assert_eq!(export_window(900, 200, 1000), (900, 100));
    assert_eq!(export_window(2000, 200, 1000), (1000, 0));
    assert_eq!(export_write_len(4096, 10000, 8000), 2000);
    assert_eq!(export_write_len(100, 10000, 0), 100);
}

#[test]
fn chunk_comparison() {
    let image = vec![1u8, 2, 3];
    let mut dev = vec![0u8; 512];
    dev[..3].copy_from_slice(&image);
    assert_eq!(compare_chunk(&image, &dev), None);
    dev[2] = 9;
    assert_eq!(compare_chunk(&image, &dev), Some(2));
    dev[2] = 3;
    dev[100] = 1;
    assert_eq!(compare_chunk(&image, &dev), Some(0));
    assert_eq!(mismatch_message(12345), "校验失败：偏移量 12345 字节处数据不一致");
}

#[test]
fn check_runs_plan() {
    let total = 40 * DD_BS + 7;
    let runs = verify_segments(total);
    assert_eq!(runs.len(), 3);
    assert_eq!((runs[0].offset, runs[0].length, runs[0].progress), (0, 16 * DD_BS, 16 * DD_BS));
    assert_eq!((runs[1].offset, runs[1].length), (16 * DD_BS, 16 * DD_BS));
    assert_eq!((runs[2].offset, runs[2].length, runs[2].progress), (32 * DD_BS, 8 * DD_BS + 7, total));
    assert!(verify_segments(0).is_empty());
    let args = check_run_args(&runs[1], "/img", "/dev/rdisk4");
    assert_eq!(args, vec!["-i", "67108864:67108864", "-n", "67108864", "/img", "/dev/rdisk4"]);
}

#[test]
fn check_run_reports() {
    assert_eq!(differ_char_number("a b differ: char 5, line 1"), 5);
    assert_eq!(differ_char_number("a b differ: char  77 , line 1"), 77);
    assert_eq!(differ_char_number("no report"), 1);
    assert_eq!(differ_char_number("char x, line 1"), 1);
    assert_eq!(differ_char_number("char 9"), 9);
    assert_eq!(check_run_verdict(Some(0), 1, 0, ""), Ok(()));
    assert_eq!(check_run_verdict(Some(1), 5, 100, ""), Err("校验失败：偏移量 104 字节处数据不一致".to_string()));
    assert_eq!(check_run_verdict(Some(2), 1, 0, " cmp: EOF \n"), Err("校验命令失败: cmp: EOF".to_string()));
    assert_eq!(check_run_verdict(None, 1, 0, ""), Err("校验命令失败: ".to_string()));
}

#[test]
fn dd_plans() {
    let total = 33 * DD_BS + 1000;
    let p = dd_plan(total);
    assert_eq!(p.segments.len(), 3);
    assert_eq!((p.segments[0].skip, p.segments[0].count, p.segments[0].progress), (0, 16, 16 * DD_BS));
    assert_eq!((p.segments[2].skip, p.segments[2].count, p.segments[2].progress), (32, 1, 33 * DD_BS));
    let t = p.tail.unwrap();
    assert_eq!((t.offset, t.length, t.padded), (33 * DD_BS, 1000, 1024));
    assert!(dd_plan(2 * DD_BS).tail.is_none());
    let small = dd_plan(100);
    assert!(small.segments.is_empty());
    assert_eq!(small.tail.map(|t| (t.offset, t.length, t.padded)), Some((0, 100, 512)));
    assert_eq!(
        dd_segment_args("/img", "/dev/rdisk4", &p.segments[1]),
        vec!["if=/img", "of=/dev/rdisk4", "bs=4194304", "skip=16", "seek=16", "count=16"]
    );
    assert_eq!(
        dd_tail_args("/tmp/t.bin", "/dev/rdisk4", &t),
        vec!["if=/tmp/t.bin", "of=/dev/rdisk4", "bs=512", "seek=270336", "count=2"]
    );
    assert_eq!(tail_temp_path(321), "/tmp/flash-helper-tail-321.bin");
    assert_eq!(dd_failure(Some(1), "dd: bad\n"), "写入失败：dd 退出码 Some(1)，错误: dd: bad");
    assert_eq!(dd_failure(Some(-9), ""), "写入失败：dd 退出码 Some(-9)，错误: ");
    assert_eq!(dd_tail_failure(None, "x"), "写入尾部失败：dd 退出码 None，错误: x");
}

#[test]
fn flash_preconditions() {
    assert_eq!(check_image_size(0), Err("镜像文件为空".to_string()));
    assert_eq!(check_image_size(1), Ok(()));
    assert!(is_permission_denied("open /dev/rdisk4: Operation not permitted (os error 1)"));
    assert!(is_permission_denied("Permission denied (os error 13)"));
    assert!(!is_permission_denied("No such file or directory"));
}

#[test]
fn tracker_throttles_reports() {
    let mut t = Tracker::new(1000, 50);
    assert!(t.set(10, 120).is_none());
    assert_eq!(t.done, 10);
    let s = t.set(20, 150).unwrap();
    assert_eq!((s.done, s.total, s.elapsed_ms), (20, 1000, 100));
    t.logged(150);
    assert!(t.set(30, 249).is_none());
    assert!(t.set(40, 250).is_some());
    assert!(t.set(50, 10).is_none());
}

#[test]
fn daemon_concurrency_file() {
    assert_eq!(daemon_concurrency(&None), 3);
    assert_eq!(daemon_concurrency(&Some("5\n".to_string())), 5);
    assert_eq!(daemon_concurrency(&Some("0".to_string())), 1);
    assert_eq!(daemon_concurrency(&Some("99".to_string())), 8);
    assert_eq!(daemon_concurrency(&Some("lots".to_string())), 3);
}

fn names(v: &[&str]) -> Vec<String> {
    v.iter().map(|s| s.to_string()).collect()
}

#[test]
fn daemon_task_files() {
    let dir = names(&[
        "flash-task-1.json",
        "flash-task-2.processing",
        "other.json",
        "flash-task-3.json",
        "flash-task-4.json",
        "flash-helper.pid",
    ]);
    assert_eq!(count_processing_tasks(&dir), 1);
    assert_eq!(pick_tasks(&dir, 3, 1), names(&["flash-task-1.json", "flash-task-3.json"]));
    assert_eq!(pick_tasks(&dir, 8, 1), names(&["flash-task-1.json", "flash-task-3.json", "flash-task-4.json"]));
    assert!(pick_tasks(&dir, 1, 1).is_empty());
    assert!(is_task_file("flash-task-9.json"));
    assert!(!is_task_file("flash-task-9.processing"));
    assert!(is_processing_file("flash-task-9.processing"));
    assert_eq!(processing_name("flash-task-12.json"), "flash-task-12.processing");
    assert_eq!(cancel_flag_path("12"), "/tmp/flash-cancel-12");
}

#[test]
fn single_instance() {
    assert_eq!(single_instance_probe(&Some(" 4242\n".to_string()), 100), Some(4242));
    assert_eq!(single_instance_probe(&Some("100".to_string()), 100), None);
    assert_eq!(single_instance_probe(&Some("-7".to_string()), 100), Some(-7));
    assert_eq!(single_instance_probe(&Some("x".to_string()), 100), None);
    assert_eq!(single_instance_probe(&None, 100), None);
}

fn file(mode: Option<&str>) -> TaskFile {
    TaskFile {
        mode: mode.map(|s| s.to_string()),
        image: Some("/img".to_string()),
        device: Some("/dev/disk4".to_string()),
        log: None,
        id: Some("9".to_string()),
        export_start: None,
        export_length: Some(4096),
    }
}

#[test]
fn daemon_task_plans() {
    let p = plan_task(&file(Some("flash")));
    assert_eq!(p.log, "/tmp/flash-helper-daemon.jsonl");
    assert_eq!(p.id, "9");
    match p.job {
        Ok(Job::Flash { image, device, task_id }) => assert_eq!((image.as_str(), device.as_str(), task_id.as_str()), ("/img", "/dev/disk4", "9")),
        other => panic!("{:?}", other),
    }
    match plan_task(&file(Some("export"))).job {
        Ok(Job::Export { start, length, .. }) => assert_eq!((start, length), (0, 4096)),
        other => panic!("{:?}", other),
    }
    assert_eq!(plan_task(&file(None)).job.unwrap_err(), "未知任务模式: ");
    let mut f = file(Some("wipe"));
    f.id = None;
    let p = plan_task(&f);
    assert_eq!(p.id, "0");
    assert_eq!(p.job.unwrap_err(), "未知任务模式: wipe");
}

#[test]
fn task_completion() {
    assert!(matches!(completion(&Ok(())), Completion::Done));
    assert!(matches!(completion(&Err("__CANCELLED__".to_string())), Completion::Silent));
    match completion(&Err("写入设备失败".to_string())) {
        Completion::Failed(m) => assert_eq!(m, "写入设备失败"),
        other => panic!("{:?}", other),
    }
}

#[test]
fn helper_command_line() {
    assert!(matches!(cli_command(&names(&["flash-helper", "serve"]), Platform::MacOs), CliCommand::Serve));
    assert!(matches!(cli_command(&names(&["flash-helper"]), Platform::MacOs), CliCommand::Usage));
    match cli_command(&names(&["h", "/tmp/l", "verify", "/img", "/dev/disk4"]), Platform::MacOs) {
        CliCommand::Run { log, job: Ok(Job::Verify { image, device, task_id }) } => {
            assert_eq!((log.as_str(), image.as_str(), device.as_str(), task_id.as_str()), ("/tmp/l", "/img", "/dev/rdisk4", "cli"))
        }
        other => panic!("{:?}", other),
    }
    match cli_command(&names(&["h", "/tmp/l", "export", "/dev/disk4", "/out"]), Platform::MacOs) {
        CliCommand::Run { job: Ok(Job::Export { device, image, start, length, .. }), .. } => {
            assert_eq!((device.as_str(), image.as_str(), start, length), ("/dev/disk4", "/out", 0, u64::MAX))
        }
        other => panic!("{:?}", other),
    }
    match cli_command(&names(&["h", "/tmp/l", "zap", "a", "b"]), Platform::MacOs) {
        CliCommand::Run { job: Err(e), .. } => assert_eq!(e, "未知模式: zap"),
        other => panic!("{:?}", other),
    }
}

#[test]
fn only_the_tail_is_padded() {
    let cap = 4096;
    assert_eq!(write_step(0, 0, cap), WriteStep::Finished);
    assert_eq!(write_step(0, 1000, cap), WriteStep::ReadMore);
    assert_eq!(write_step(1000, 3096, cap), WriteStep::Write { data: 4096, len: 4096, last: false });
    assert_eq!(write_step(1000, 0, cap), WriteStep::Write { data: 1000, len: 1024, last: true });
    assert_eq!(write_step(1024, 0, cap), WriteStep::Write { data: 1024, len: 1024, last: true });
    assert_eq!(write_step(4095, 0, cap), WriteStep::Write { data: 4095, len: 4096, last: true });
}

#[test]
fn serve_round_chores() {
    let c = ServeClock { last_pid_write_ms: 0, last_bin_check_ms: 0 };
    let r = round_chores(&c, 4999);
    assert!(!r.write_pid && !r.check_binary);
    assert_eq!(r.clock, c);
    let r = round_chores(&c, 5000);
    assert!(r.write_pid && !r.check_binary);
    assert_eq!(r.clock, ServeClock { last_pid_write_ms: 5000, last_bin_check_ms: 0 });
    let r = round_chores(&r.clock, 15000);
    assert!(r.write_pid && r.check_binary);
    assert_eq!(r.clock, ServeClock { last_pid_write_ms: 15000, last_bin_check_ms: 15000 });
    assert!(!round_chores(&ServeClock { last_pid_write_ms: 9000, last_bin_check_ms: 9000 }, 100).write_pid);
    assert!(restart_due(true, Some((10, 5)), Some((10, 6))));
    assert!(!restart_due(true, Some((10, 5)), Some((10, 5))));
    assert!(!restart_due(false, Some((10, 5)), Some((11, 5))));
    assert!(!restart_due(true, None, Some((11, 5))));
    assert!(!restart_due(true, Some((10, 5)), None));
}
