use liboj::runner::cgroup::controller::cpuacct::{PerCpuFile, UsageAllFile};
use liboj::runner::cgroup::controller::{
    Controller, CpuAcctController, CpuController, MemoryController,
};
use liboj::runner::cgroup::hierarchy::{
    AttrFile, CountFile, CpuTimeFile, FileWrite, Hierarchy, NanosFile, PidFile,
};
use liboj::runner::cgroup::subsystem;
use liboj::runner::cgroup::{CgroupRoot, Context};
use liboj::Duration;
use std::iter::FromIterator;
use std::path::{Path, PathBuf};

#[test]
fn test_cgroup_path() {
    let mut ctx = Context::new();

    let created = CpuController::initialize(&mut ctx);
    let cpu_controller = ctx.cpu_controller();
    assert!(cpu_controller.is_initialized());
    let cpu_path = cpu_controller.path();
    assert_eq!(created, cpu_path);
    assert_eq!(Path::new(&cpu_path), PathBuf::from_iter(&["/sys/fs/cgroup/cpu/", ctx.name()]));

    let created = CpuAcctController::initialize(&mut ctx);
    let cpuacct_controller = ctx.cpuacct_controller();
    assert!(cpuacct_controller.is_initialized());
    let cpuacct_path = cpuacct_controller.path();
    assert_eq!(created, cpuacct_path);
    assert_eq!(
        Path::new(&cpuacct_path),
        PathBuf::from_iter(&["/sys/fs/cgroup/cpuacct/", ctx.name()])
    );

    let created = MemoryController::initialize(&mut ctx);
    let memory_controller = ctx.memory_controller();
    assert!(memory_controller.is_initialized());
    let memory_path = memory_controller.path();
    assert_eq!(created, memory_path);
    assert_eq!(
        Path::new(&memory_path),
        PathBuf::from_iter(&["/sys/fs/cgroup/memory/", ctx.name()])
    );
}

/// What the kernel shows of a file after a write: the content and a line
/// feed.
fn stored(write: &FileWrite) -> Vec<u8> {
    let mut content = write.content.clone();
    content.push(b'\n');
    content
}

#[test]
fn test_cpu_controller() {
    let mut ctx = Context::new();
    CpuController::initialize(&mut ctx);
    let cpu_controller = ctx.cpu_controller();

    let period = cpu_controller.period().write(&Duration::from_millis(200));
    let quota = cpu_controller.quota().write(&Duration::from_millis(80));
    assert_eq!(cpu_controller.period().read(&stored(&period)), Some(Duration::from_millis(200)));
    assert_eq!(cpu_controller.quota().read(&stored(&quota)), Some(Duration::from_millis(80)));

    let period = cpu_controller.period().write(&Duration::from_millis(150));
    let quota = cpu_controller.quota().write(&Duration::from_millis(50));
    assert_eq!(cpu_controller.period().read(&stored(&period)), Some(Duration::from_millis(150)));
    assert_eq!(cpu_controller.quota().read(&stored(&quota)), Some(Duration::from_millis(50)));
}

#[test]
fn test_cpu_acct_controller() {
    let mut ctx = Context::new();
    CpuAcctController::initialize(&mut ctx);
    let cpuacct_controller = ctx.cpuacct_controller();
    // A cgroup that no process has entered has used no CPU time.
    let cpu_usage = cpuacct_controller.usage().read(b"0\n");
    assert_eq!(cpu_usage, Some(Duration::from_secs(0)));
}

#[test]
fn test_memory_controller() {
    let mut ctx = Context::new();
    MemoryController::initialize(&mut ctx);
    let memory_controller = ctx.memory_controller();

    let limit = memory_controller.limit_in_bytes().write(&(128 * 1024));
    assert_eq!(memory_controller.limit_in_bytes().read(&stored(&limit)), Some(128 * 1024));

    let limit = memory_controller.limit_in_bytes().write(&(128 * 1024));
    assert_eq!(memory_controller.limit_in_bytes().read(&stored(&limit)), Some(128 * 1024));

    // A cgroup that no process has entered has used no memory.
    assert_eq!(memory_controller.usage_in_bytes().read(b"0\n"), Some(0));
    assert_eq!(memory_controller.max_usage_in_bytes().read(b"0\n"), Some(0));
    assert_eq!(memory_controller.failcnt().read(b"0\n"), Some(0));
}

#[test]
fn fresh_context_has_a_uuid_name_and_no_controller() {
    let ctx = Context::new();
    let name = ctx.name().to_string();
    assert_eq!(name.len(), 36);
    for (i, c) in name.chars().enumerate() {
        if i == 8 || i == 13 || i == 18 || i == 23 {
            assert_eq!(c, '-');
        } else {
            assert!(c.is_ascii_digit() || ('a'..='f').contains(&c), "{:?}", name);
        }
    }
    assert_eq!(name.as_bytes()[14], b'4');
    assert!(b"89ab".contains(&name.as_bytes()[19]));
    assert!(!ctx.has_cpu() && !ctx.has_cpuacct() && !ctx.has_memory());
    assert!(!ctx.cpu_controller().is_initialized());
    assert!(!ctx.cpuacct_controller().is_initialized());
    assert!(!ctx.memory_controller().is_initialized());
    assert!(ctx.hierarchies().is_empty());
    assert_ne!(Context::new().name(), name);
}

#[test]
fn named_context_paths() {
    let ctx = Context::with_name("judge-1");
    assert_eq!(ctx.name(), "judge-1");
    assert_eq!(Context::root(), "/sys/fs/cgroup/");
    assert_eq!(CpuController::name(), "cpu");
    assert_eq!(CpuAcctController::name(), "cpuacct");
    assert_eq!(MemoryController::name(), "memory");
    assert_eq!(ctx.leaf_of("cpu"), "/sys/fs/cgroup/cpu/judge-1");
    let cpu = CpuController::from_ctx(&ctx);
    assert_eq!(cpu.path(), "/sys/fs/cgroup/cpu/judge-1");
    assert_eq!(cpu.period().path, "/sys/fs/cgroup/cpu/judge-1/cpu.cfs_period_us");
    assert_eq!(cpu.quota().path, "/sys/fs/cgroup/cpu/judge-1/cpu.cfs_quota_us");
    assert_eq!(cpu.procs().path, "/sys/fs/cgroup/cpu/judge-1/cgroup.procs");
    assert_eq!(cpu.tasks().path, "/sys/fs/cgroup/cpu/judge-1/tasks");
    let acct = ctx.cpuacct_controller();
    assert_eq!(acct.path(), "/sys/fs/cgroup/cpuacct/judge-1");
    assert_eq!(acct.usage().path, "/sys/fs/cgroup/cpuacct/judge-1/cpuacct.usage");
    assert_eq!(acct.usage_all().path, "/sys/fs/cgroup/cpuacct/judge-1/cpuacct.usage_all");
    assert_eq!(acct.usage_percpu().path, "/sys/fs/cgroup/cpuacct/judge-1/cpuacct.usage_percpu");
    assert_eq!(
        acct.usage_percpu_sys().path,
        "/sys/fs/cgroup/cpuacct/judge-1/cpuacct.usage_percpu_sys"
    );
    assert_eq!(
        acct.usage_percpu_user().path,
        "/sys/fs/cgroup/cpuacct/judge-1/cpuacct.usage_percpu_user"
    );
    assert_eq!(acct.usage_sys().path, "/sys/fs/cgroup/cpuacct/judge-1/cpuacct.usage_sys");
    assert_eq!(acct.usage_user().path, "/sys/fs/cgroup/cpuacct/judge-1/cpuacct.usage_user");
    assert_eq!(acct.procs().path, "/sys/fs/cgroup/cpuacct/judge-1/cgroup.procs");
    let memory = ctx.memory_controller();
    assert_eq!(memory.path(), "/sys/fs/cgroup/memory/judge-1");
    assert_eq!(
        memory.usage_in_bytes().path,
        "/sys/fs/cgroup/memory/judge-1/memory.usage_in_bytes"
    );
    assert_eq!(
        memory.max_usage_in_bytes().path,
        "/sys/fs/cgroup/memory/judge-1/memory.max_usage_in_bytes"
    );
    assert_eq!(
        memory.limit_in_bytes().path,
        "/sys/fs/cgroup/memory/judge-1/memory.limit_in_bytes"
    );
    assert_eq!(memory.failcnt().path, "/sys/fs/cgroup/memory/judge-1/memory.failcnt");
    assert_eq!(memory.swappiness().path, "/sys/fs/cgroup/memory/judge-1/memory.swappiness");
    assert_eq!(memory.tasks().path, "/sys/fs/cgroup/memory/judge-1/tasks");
}

#[test]
fn a_name_from_the_root_stands_for_itself() {
    let ctx = Context::with_name("/tmp/box");
    assert_eq!(ctx.cpu_controller().path(), "/tmp/box");
    assert_eq!(ctx.memory_controller().path(), "/tmp/box");
}

#[test]
fn older_controller_directories() {
    assert_eq!(subsystem::Controller::Cpu.cgroup_path(), "/sys/fs/cgroup/cpu");
    assert_eq!(subsystem::Controller::Memory.cgroup_path(), "/sys/fs/cgroup/memory");
}

#[test]
fn initialize_is_tracked_and_torn_down() {
    let mut ctx = Context::with_name("t");
    assert_eq!(MemoryController::initialize(&mut ctx), "/sys/fs/cgroup/memory/t");
    assert!(ctx.has_memory() && !ctx.has_cpu() && !ctx.has_cpuacct());
    assert_eq!(ctx.hierarchies(), vec!["/sys/fs/cgroup/memory/t"]);
    assert_eq!(CpuController::initialize(&mut ctx), "/sys/fs/cgroup/cpu/t");
    // Once more changes nothing.
    assert_eq!(CpuController::initialize(&mut ctx), "/sys/fs/cgroup/cpu/t");
    assert_eq!(ctx.hierarchies(), vec!["/sys/fs/cgroup/cpu/t", "/sys/fs/cgroup/memory/t"]);
    assert_eq!(CpuAcctController::initialize(&mut ctx), "/sys/fs/cgroup/cpuacct/t");
    let all = vec!["/sys/fs/cgroup/cpu/t", "/sys/fs/cgroup/cpuacct/t", "/sys/fs/cgroup/memory/t"];
    assert_eq!(ctx.hierarchies(), all);
    assert_eq!(ctx.teardown(), all);
    assert!(!ctx.has_memory() && !ctx.has_cpu() && !ctx.has_cpuacct());
    assert!(ctx.hierarchies().is_empty());
    assert!(ctx.teardown().is_empty());
    assert_eq!(ctx.name(), "t");
}

#[test]
fn processes_are_added_to_every_initialized_hierarchy() {
    let mut ctx = Context::with_name("t");
    assert!(ctx.add_process(42).is_empty());
    CpuController::initialize(&mut ctx);
    MemoryController::initialize(&mut ctx);
    assert_eq!(
        ctx.add_process(42),
        vec![
            FileWrite { path: String::from("/sys/fs/cgroup/cpu/t/cgroup.procs"), content: b"42".to_vec() },
            FileWrite {
                path: String::from("/sys/fs/cgroup/memory/t/cgroup.procs"),
                content: b"42".to_vec()
            },
        ]
    );
    assert_eq!(
        ctx.add_task(7),
        vec![
            FileWrite { path: String::from("/sys/fs/cgroup/cpu/t/tasks"), content: b"7".to_vec() },
            FileWrite { path: String::from("/sys/fs/cgroup/memory/t/tasks"), content: b"7".to_vec() },
        ]
    );
}

#[test]
fn cpu_time_file_counts_microseconds() {
    let file = CpuTimeFile { path: String::from("p") };
    let w = file.write(&Duration::from_secs(1));
    assert_eq!(w.path, "p");
    assert_eq!(w.content, b"1000000");
    assert_eq!(file.write(&Duration::from_nanos(1_999)).content, b"1");
    assert_eq!(file.write(&Duration::from_nanos(999)).content, b"0");
    assert_eq!(file.read(b"1000000\n"), Some(Duration::from_secs(1)));
    assert_eq!(file.read(b"  5 "), Some(Duration::from_micros(5)));
    assert_eq!(file.read(b"18446744073709551615"), Some(Duration::from_micros(u64::MAX)));
    assert_eq!(file.read(b"18446744073709551616"), None);
    assert_eq!(file.read(b"-1\n"), None);
    assert_eq!(file.read(b""), None);
    assert_eq!(file.read(b"\n"), None);
    assert_eq!(file.read(b"1 2"), None);
    assert_eq!(file.read(b"max"), None);
}

#[test]
fn cpu_time_round_trip_rounds_to_microseconds() {
    let file = CpuTimeFile { path: String::new() };
    for nanos in [0u64, 1, 999, 1_000, 1_001, 123_456_789, u64::MAX] {
        let written = file.write(&Duration::from_nanos(nanos));
        assert_eq!(file.read(&written.content), Some(Duration::from_micros(nanos / 1_000)));
        assert_eq!(file.read(&stored(&written)), Some(Duration::from_micros(nanos / 1_000)));
    }
    for micros in [0u64, 1, 50_000, 80_000, 1_000_000, u64::MAX] {
        let written = file.write(&Duration::from_micros(micros));
        assert_eq!(written.content, micros.to_string().as_bytes());
        assert_eq!(file.read(&stored(&written)), Some(Duration::from_micros(micros)));
    }
    // More microseconds than fit in 64 bits cannot be read back.
    let long = file.write(&Duration::from_secs(u64::MAX));
    assert_eq!(long.content, b"18446744073709551615000000");
    assert_eq!(file.read(&long.content), None);
}

#[test]
fn count_file_round_trip() {
    let file = CountFile { path: String::from("m") };
    assert_eq!(file.write(&0).content, b"0");
    assert_eq!(file.write(&(16 * 1024 * 1024)).content, b"16777216");
    for n in [0usize, 1, 60, 131_072, usize::MAX] {
        let w = file.write(&n);
        assert_eq!(w.path, "m");
        assert_eq!(file.read(&stored(&w)), Some(n));
    }
    assert_eq!(file.read(b"9223372036854771712\n"), Some(9_223_372_036_854_771_712));
    assert_eq!(file.read(b"x"), None);
    assert_eq!(file.read(b"340282366920938463463374607431768211456"), None);
}

#[test]
fn nanos_file_reads_nanoseconds() {
    let file = NanosFile { path: String::new() };
    assert_eq!(file.read(b"0\n"), Some(Duration::from_nanos(0)));
    assert_eq!(file.read(b"1234567890\n"), Some(Duration::new(1, 234_567_890)));
    assert_eq!(file.read(b"18446744073709551615\n"), Some(Duration::from_nanos(u64::MAX)));
    assert_eq!(file.read(b"18446744073709551616\n"), None);
    assert_eq!(file.read(b"1.5\n"), None);
}

#[test]
fn pid_file_round_trip() {
    let file = PidFile { path: String::from("procs") };
    assert_eq!(file.write(&1).content, b"1");
    assert_eq!(file.write(&4_194_304).content, b"4194304");
    assert_eq!(file.write(&-1).content, b"-1");
    assert_eq!(file.read(b""), Some(vec![]));
    assert_eq!(file.read(b"1\n22\n333\n"), Some(vec![1, 22, 333]));
    assert_eq!(file.read(b" 7  -8\t+9 "), Some(vec![7, -8, 9]));
    assert_eq!(file.read(b"1\nx\n3\n"), None);
    assert_eq!(file.read(b"2147483648"), None);
    for pid in [0, 1, 32_768, i32::MAX, i32::MIN] {
        assert_eq!(file.read(&stored(&file.write(&pid))), Some(vec![pid]));
    }
}

#[test]
fn per_cpu_file_reads_one_span_for_each_cpu() {
    let file = PerCpuFile { path: String::new() };
    assert_eq!(file.read(b""), Some(vec![]));
    assert_eq!(file.read(b"\n"), Some(vec![]));
    assert_eq!(
        file.read(b"10 0 2000000000 \n"),
        Some(vec![Duration::from_nanos(10), Duration::from_nanos(0), Duration::from_secs(2)])
    );
    assert_eq!(file.read(b"10 -1"), None);
    assert_eq!(file.read(b"10 18446744073709551616"), None);
}

#[test]
fn usage_all_file_reads_a_record_for_each_line() {
    let file = UsageAllFile { path: String::new() };
    let content = b"cpu user system\n0 100 20\n1 0 0\n2 3000000000 1\n";
    assert_eq!(
        file.read(content),
        Some(vec![
            (0, Duration::from_nanos(100), Duration::from_nanos(20)),
            (1, Duration::from_nanos(0), Duration::from_nanos(0)),
            (2, Duration::from_secs(3), Duration::from_nanos(1)),
        ])
    );
    // The heading is not looked at, and neither is what follows the third
    // word of a line.
    assert_eq!(
        file.read(b"\n5 6 7 8 nine\r\n"),
        Some(vec![(5, Duration::from_nanos(6), Duration::from_nanos(7))])
    );
    assert_eq!(file.read(b""), Some(vec![]));
    assert_eq!(file.read(b"cpu user system"), Some(vec![]));
    assert_eq!(file.read(b"cpu user system\n"), Some(vec![]));
    assert_eq!(file.read(b"cpu user system\n0 1\n"), None);
    assert_eq!(file.read(b"cpu user system\n0 1 2\n\n1 1 2\n"), None);
    assert_eq!(file.read(b"cpu user system\n0 1 x\n"), None);
    assert_eq!(file.read(b"cpu user system\n-1 1 2\n"), None);
    assert_eq!(file.read(b"cpu user system\n0 18446744073709551616 2\n"), None);
}

#[test]
fn default_context_is_a_new_one() {
    let ctx = Context::default();
    assert_eq!(ctx.name().len(), 36);
    assert!(ctx.hierarchies().is_empty());
    assert_ne!(ctx.name(), Context::default().name());
}
