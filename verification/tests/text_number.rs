use sdcard_image_flasher::number::{i32_to_decimal, parse_trimmed_i32, parse_trimmed_u64, parse_u64, u64_to_decimal};
use sdcard_image_flasher::permission::{daemon_start, elevation_result, elevation_timeout, parse_pid, ps_shows_process, DaemonStart};
use sdcard_image_flasher::platform::Platform;
use sdcard_image_flasher::text::trimmed;

#[test]
fn decimal_text() {
    assert_eq!(u64_to_decimal(0), "0");
    assert_eq!(u64_to_decimal(1234567890), "1234567890");
    assert_eq!(u64_to_decimal(u64::MAX), "18446744073709551615");
    assert_eq!(i32_to_decimal(-2147483648), "-2147483648");
    assert_eq!(i32_to_decimal(-5), "-5");
    for n in [0u64, 9, 10, 99, 1 << 40, u64::MAX] {
        assert_eq!(parse_u64(&u64_to_decimal(n)), Some(n));
    }
}

#[test]
fn number_parsing() {
    assert_eq!(parse_u64("+7"), Some(7));
    assert_eq!(parse_u64("+"), None);
    assert_eq!(parse_u64(""), None);
    assert_eq!(parse_u64(" 7"), None);
    assert_eq!(parse_u64("007"), Some(7));
    assert_eq!(parse_trimmed_u64(" 7\n"), Some(7));
    assert_eq!(parse_trimmed_i32("-2147483648"), Some(i32::MIN));
    assert_eq!(parse_trimmed_i32("2147483648"), None);
    assert_eq!(parse_trimmed_i32("-"), None);
    assert_eq!(parse_trimmed_i32(" +12 "), Some(12));
}

#[test]
fn trimming() {
    assert_eq!(trimmed("\u{3000} a b \u{a0}\n"), "a b");
    assert_eq!(trimmed("   "), "");
}

#[test]
fn daemon_liveness() {
    assert_eq!(parse_pid(" 321\n"), Some(321));
    assert_eq!(parse_pid("-1"), None);
    assert_eq!(parse_pid("4294967296"), None);
    assert!(ps_shows_process("  321\n"));
    assert!(!ps_shows_process(" \n"));
}

#[test]
fn daemon_start_plans() {
    match daemon_start(Platform::MacOs, "/Applications/X.app/flash-helper") {
        DaemonStart::Instruct(m) => {
            assert!(m.contains("sudo nohup /Applications/X.app/flash-helper serve >/dev/null 2>&1 &"));
            assert!(m.starts_with("权限守护进程未运行。"));
        }
        other => panic!("{:?}", other),
    }
    assert!(matches!(daemon_start(Platform::Windows, "h"), DaemonStart::Elevate));
    match daemon_start(Platform::Linux, "h") {
        DaemonStart::Unsupported(m) => assert_eq!(m, "此平台暂不支持权限守护进程"),
        other => panic!("{:?}", other),
    }
    assert_eq!(elevation_result(33), Ok(()));
    assert_eq!(elevation_result(5), Err("无法启动提权进程（UAC 被拒绝或 ShellExecute 失败）".to_string()));
    assert_eq!(elevation_timeout(), "等待管理员授权超时，请检查 UAC 对话框");
}
