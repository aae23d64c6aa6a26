use blixard_core::error::BlixardError;
use blixard_core::system_metrics::{
    SystemResourceCollector,
    cgroup_memory_mb, cgroup_usage_usec, cpu_times_from_stat, process_cpu_ticks, resident_memory_mb,
    used_memory_mb, vm_cgroup_path, vm_data_path, vm_service_name,
};
use blixard_core::text_fields::{parse_u64_text, split_lines, split_words};

const PROC_STAT: &str = "cpu  4705 356 584 3699176 23060 0 277 0 0 0\ncpu0 1393280 32966 572056 13343292 6130 0 17875 0 0 0\nintr 114930548 113199788 3 0 5 263 0\n";

const MEMINFO: &str = "MemTotal:       16384000 kB\nMemFree:         1024000 kB\nMemAvailable:    8192000 kB\nBuffers:          204800 kB\n";

#[test]
fn test_system_resource_collection() {
    let cpu_usage = cpu_times_from_stat(PROC_STAT);
    assert!(cpu_usage.is_ok());

    let memory_usage = used_memory_mb(MEMINFO);
    assert!(memory_usage > 0);

    let disk_usage = SystemResourceCollector::get_disk_usage("/tmp");
    assert!(disk_usage.is_ok());
}

#[test]
fn cpu_times_of_first_line() {
    assert_eq!(cpu_times_from_stat(PROC_STAT), Ok((4705 + 356 + 584, 4705 + 356 + 584 + 3699176 + 23060)));
    assert_eq!(
        cpu_times_from_stat(""),
        Err(BlixardError::Internal { message: "Empty /proc/stat file" })
    );
    assert_eq!(
        cpu_times_from_stat("cpu 1 2 3\n"),
        Err(BlixardError::Internal { message: "Invalid /proc/stat format" })
    );
    assert_eq!(
        cpu_times_from_stat("intr 1 2 3 4 5 6 7 8\ncpu 1 2 3 4 5 6 7 8\n"),
        Err(BlixardError::Internal { message: "Invalid /proc/stat format" })
    );
    // Unreadable figures count as 0.
    assert_eq!(cpu_times_from_stat("cpu x 2 3 4 5 6 7 8"), Ok((5, 14)));
}

#[test]
fn memory_in_use_from_meminfo() {
    assert_eq!(used_memory_mb(MEMINFO), 16000 - 8000);
    assert_eq!(used_memory_mb("MemTotal: 1024 kB\n"), 1);
    assert_eq!(used_memory_mb("MemAvailable: 4096 kB\nMemTotal: 2048 kB\n"), 0);
    assert_eq!(used_memory_mb("MemTotal: 2048 kB\nMemTotal: 8192 kB\n"), 8);
}

#[test]
fn process_figures() {
    let stat = "1234 (qemu) S 1 1234 1234 0 -1 4194560 100 0 0 0 250 50 0 0 20 0 4 0";
    assert_eq!(process_cpu_ticks(stat), Some(300));
    assert_eq!(process_cpu_ticks("1 (x) S"), None);
    let status = "Name:\tqemu\nVmPeak:\t 4096 kB\nVmRSS:\n VmRSS:\t 2048 kB\nVmRSS:\t 524288 kB\n";
    assert_eq!(resident_memory_mb(status), 512);
    assert_eq!(resident_memory_mb("Name: x\n"), 0);
}

#[test]
fn cgroup_figures() {
    assert_eq!(cgroup_usage_usec("usage_usec 3000000\nuser_usec 2000000\n"), 3_000_000);
    assert_eq!(cgroup_usage_usec("user_usec 2\n"), 0);
    assert_eq!(cgroup_memory_mb("  536870912\n"), 512);
    assert_eq!(cgroup_memory_mb("max\n"), 0);
    assert_eq!(cgroup_memory_mb("1 2"), 0);
}

#[test]
fn vm_paths() {
    assert_eq!(vm_service_name("web"), "blixard-vm-web.service");
    assert_eq!(vm_cgroup_path("web"), "/sys/fs/cgroup/system.slice/blixard-vm-web.service");
    assert_eq!(vm_data_path("web"), "/var/lib/blixard/vms/web");
}

#[test]
fn splitting_and_numbers() {
    assert_eq!(split_lines("a\nb\n"), vec!["a".to_string(), "b".to_string(), "".to_string()]);
    assert_eq!(split_lines(""), vec!["".to_string()]);
    assert_eq!(split_words("  a\tbc \u{3000}d "), vec!["a".to_string(), "bc".to_string(), "d".to_string()]);
    assert!(split_words(" \n ").is_empty());
    assert_eq!(parse_u64_text("42"), Some(42));
    assert_eq!(parse_u64_text("+7"), Some(7));
    assert_eq!(parse_u64_text("007"), Some(7));
    assert_eq!(parse_u64_text("18446744073709551615"), Some(u64::MAX));
    assert_eq!(parse_u64_text("18446744073709551616"), None);
    assert_eq!(parse_u64_text("-1"), None);
    assert_eq!(parse_u64_text("+"), None);
    assert_eq!(parse_u64_text(""), None);
    assert_eq!(parse_u64_text("1a"), None);
    for s in ["0", "12", "+3", "99999999999999999999", "x", " 1"] {
        assert_eq!(parse_u64_text(s), s.parse::<u64>().ok());
    }
}
