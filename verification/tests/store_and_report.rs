use vmctl::digits::u64_to_string;
use vmctl::exception::ErrorKind;
use vmctl::exception::Exception;
use vmctl::list::render_header;
use vmctl::list::render_row;
use vmctl::list::List;
use vmctl::list::to_string;
use vmctl::list::VmRow;
use vmctl::vm_config::Os;
use vmctl::vm_dir::check_vm_name;
use vmctl::vm_dir::disk_size_bytes;
use vmctl::vm_dir::live_pid;
use vmctl::vm_dir::resolve;
use vmctl::vm_dir::vm_dir;
use vmctl::vm_dir::ProcessProbe;

#[test]
fn decimal_rendering() {
    assert_eq!(u64_to_string(0), "0");
    assert_eq!(u64_to_string(57), "57");
    assert_eq!(u64_to_string(u64::MAX), "18446744073709551615");
}

#[test]
fn vm_dir_paths() {
    let d = vm_dir("/Users/me/.vms", "x");
    assert_eq!(d.dir, "/Users/me/.vms/x");
    assert_eq!(d.config_path, "/Users/me/.vms/x/config.json");
    assert_eq!(d.disk_path, "/Users/me/.vms/x/disk.img");
    assert_eq!(d.nvram_path, "/Users/me/.vms/x/nvram.bin");
    assert_eq!(d.pid_path, "/Users/me/.vms/x/pid");
}

#[test]
fn vm_names_are_checked() {
    assert!(check_vm_name("x"));
    assert!(check_vm_name("my-vm.2"));
    assert!(!check_vm_name(""));
    assert!(!check_vm_name("."));
    assert!(!check_vm_name(".."));
    assert!(!check_vm_name("a/b"));
    assert!(!check_vm_name("/"));
}

#[test]
fn resolve_rejects_traversal() {
    match resolve("/home/me/.vms", "../escape") {
        Err(Exception::ValidationError(_)) => {}
        other => panic!("expected a validation error, got {:?}", other),
    }
    let d = resolve("/home/me/.vms", "ok").unwrap();
    assert_eq!(d.dir, "/home/me/.vms/ok");
}

// The liveness decision: an absent marker is never running, however the
// last probe went; a stale marker is not running; a probe refused for
// permission means alive.
#[test]
fn liveness_decision() {
    assert_eq!(live_pid(None, ProcessProbe::Alive), None);
    assert_eq!(live_pid(None, ProcessProbe::NotFound), None);
    assert_eq!(live_pid(Some(7), ProcessProbe::NotFound), None);
    assert_eq!(live_pid(Some(7), ProcessProbe::Alive), Some(7));
    assert_eq!(live_pid(Some(7), ProcessProbe::AccessDenied), Some(7));
}

// Requesting a 50 GB disk means a logical length of exactly fifty
// decimal gigabytes.
#[test]
fn disk_sizing_is_decimal() {
    assert_eq!(disk_size_bytes(50), 50_000_000_000);
    assert_eq!(disk_size_bytes(0), 0);
    assert_eq!(disk_size_bytes(10), 10_000_000_000);
}

#[test]
fn exception_kinds_and_messages() {
    let e = Exception::IoError("disk full".to_string());
    assert_eq!(e.kind(), ErrorKind::Io);
    assert_eq!(e.message(), "disk full");
    let e = Exception::AlreadyExistsError("vm already exists".to_string());
    assert_eq!(e.kind(), ErrorKind::AlreadyExists);
}

#[test]
fn os_column_text() {
    assert_eq!(to_string(Os::Linux), "linux");
    assert_eq!(to_string(Os::MacOs), "macOS");
}

// The five-column row contract: a fresh Linux VM named `x` with a 10 GB
// sparse disk shows one CPU, one binary gigabyte of memory, nothing yet
// allocated, and a stopped status.
#[test]
fn row_for_fresh_linux_vm() {
    let row = VmRow {
        name: "x".to_string(),
        os: Os::Linux,
        cpu: 1,
        memory: 1_073_741_824,
        disk_blocks: 0,
        disk_length: 10_000_000_000,
        running: false,
    };
    let expected = format!(
        "{:<16}{:<8}{:<8}{:<8}{:<16}{:<16}",
        "x", "linux", "1", "1.00G", "0.00G/10.00G", "stopped"
    );
    assert_eq!(render_row(&row), expected);
}

#[test]
fn row_for_running_macos_vm() {
    let row = VmRow {
        name: "work".to_string(),
        os: Os::MacOs,
        cpu: 4,
        memory: 8_589_934_592,
        disk_blocks: 2_929_688,            // 1_500_000_256 bytes allocated
        disk_length: 50_000_000_000,
        running: true,
    };
    let expected = format!(
        "{:<16}{:<8}{:<8}{:<8}{:<16}{:<16}",
        "work", "macOS", "4", "8.00G", "1.50G/50.00G", "running"
    );
    assert_eq!(render_row(&row), expected);
}

#[test]
fn header_matches_columns() {
    let expected = format!(
        "{:<16}{:<8}{:<8}{:<8}{:<16}{:<16}",
        "name", "os", "cpu", "memory", "disk", "status"
    );
    assert_eq!(render_header(), expected);
}

#[test]
fn report_lists_rows_in_order() {
    let rows = vec![
        VmRow {
            name: "a".to_string(),
            os: Os::Linux,
            cpu: 1,
            memory: 1_073_741_824,
            disk_blocks: 0,
            disk_length: 10_000_000_000,
            running: false,
        },
        VmRow {
            name: "b".to_string(),
            os: Os::Linux,
            cpu: 2,
            memory: 2_147_483_648,
            disk_blocks: 0,
            disk_length: 20_000_000_000,
            running: true,
        },
    ];
    let report = List.render(&rows);
    let lines: Vec<&str> = report.lines().collect();
    assert_eq!(lines.len(), 3);
    assert!(lines[0].starts_with("name"));
    assert!(lines[1].starts_with("a "));
    assert!(lines[2].starts_with("b "));
    assert!(lines[2].ends_with("running         "));
}

#[test]
fn memory_rounding_is_half_up() {
    // 1.5 binary gigabytes is exactly 1.50G; a third of one rounds to 0.33G.
    let row = VmRow {
        name: "r".to_string(),
        os: Os::Linux,
        cpu: 1,
        memory: 1_610_612_736,
        disk_blocks: 0,
        disk_length: 0,
        running: false,
    };
    let text = render_row(&row);
    assert!(text.contains("1.50G"));
    let row = VmRow { memory: 357_913_941, ..row };
    let text = render_row(&row);
    assert!(text.contains("0.33G"));
}
