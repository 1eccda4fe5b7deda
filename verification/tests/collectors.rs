use fleetwatch::collect::fetch;
use fleetwatch::cpu::{fetch_cpu_info, parse_cpu_output, CpuInfo};
use fleetwatch::disk::{disk_command, fetch_disk_info, parse_disk_output, DiskInfo};
use fleetwatch::gpu::{
    fetch_gpu_info, parse_lspci_reply, parse_nvidia_reply, parse_profiler_output, parse_vram,
    read_profiler_line, GpuInfo, MacGpu,
};
use fleetwatch::memory::{
    fetch_memory_info, parse_free_output, parse_vm_output, read_vm_line, read_vm_stat,
    used_megabytes, MemoryInfo, VmCounters,
};
use fleetwatch::os::{fetch_os_info, read_linux_zone, read_mac_zone, OsInfo};
use fleetwatch::probe::{join, Reply, Request, Step};
use fleetwatch::ssh_status::{verify_connection, SshStatus};
use fleetwatch::store::{Metric, MetricKind};
use fleetwatch::tasks::{
    parse_two_numbers, run_task, CpuMetrics, CpuTask, DiskMetrics, DiskTask, MemMetrics, MemTask,
    SshTask,
};

fn ok(text: &str) -> Reply {
    Ok(text.to_string())
}

fn err(text: &str) -> Reply {
    Err(text.to_string())
}

fn run(command: &str) -> Request {
    Request::Run(command.to_string())
}

const VM_STAT: &str = "Mach Virtual Memory Statistics: (page size of 16384 bytes)\n\
Pages free:                               12345.\n\
Pages active:                            200000.\n\
Pages inactive:                          190000.\n\
Pages speculative:                         1000.\n\
Pages throttled:                              0.\n\
Pages wired down:                        100000.\n\
Pages purgeable:                           5000.\n\
\"Translation faults\":                 123456789.\n\
File-backed pages:                        50000.\n\
Anonymous pages:                         300000.\n\
Pages stored in compressor:              400000.\n\
Pages occupied by compressor:             60000.\n";

#[test]
fn join_puts_one_text_behind_the_other() {
    assert_eq!(join("TCP error: ", "refused"), "TCP error: refused");
    assert_eq!(join("", ""), "");
}

#[test]
fn connectivity_success_and_failure() {
    assert_eq!(verify_connection(&vec![]), Step::Need(Request::Connect));
    assert_eq!(verify_connection(&vec![ok("")]), Step::Done(SshStatus::Connected));
    assert_eq!(
        verify_connection(&vec![err("TCP error: connection refused")]),
        Step::Done(SshStatus::Failed("TCP error: connection refused".to_string()))
    );
}

#[test]
fn disk_command_is_df_of_root() {
    assert_eq!(disk_command(), "df -h / | awk 'NR==2 {print $2, $3, $4, $5}'");
    assert_eq!(fetch_disk_info(&vec![ok("")]), Step::Need(run(&disk_command())));
}

#[test]
fn disk_success_keeps_the_columns_verbatim() {
    let step = fetch_disk_info(&vec![ok(""), ok("  228Gi 10Gi  154Gi 7% extra\n")]);
    assert_eq!(
        step,
        Step::Done(DiskInfo::Success {
            total: "228Gi".to_string(),
            used: "10Gi".to_string(),
            avail: "154Gi".to_string(),
            usage_percent: "7%".to_string(),
        })
    );
}

#[test]
fn disk_malformed_output_is_a_failure_that_says_unexpected() {
    let step = fetch_disk_info(&vec![ok(""), ok("only-one-field")]);
    match step {
        Step::Done(DiskInfo::Failure(reason)) => {
            assert!(reason.contains("Unexpected"));
            assert_eq!(reason, "Unexpected df output: only-one-field");
        }
        other => panic!("expected a failure, got {:?}", other),
    }
    assert_eq!(
        parse_disk_output("a b c"),
        DiskInfo::Failure("Unexpected df output: a b c".to_string())
    );
    assert_eq!(parse_disk_output(""), DiskInfo::Failure("Unexpected df output: ".to_string()));
}

#[test]
fn disk_failures_of_requests_are_passed_on() {
    assert_eq!(
        fetch_disk_info(&vec![err("Handshake error: x")]),
        Step::Done(DiskInfo::Failure("Handshake error: x".to_string()))
    );
    assert_eq!(
        fetch_disk_info(&vec![ok(""), err("Exec error: y")]),
        Step::Done(DiskInfo::Failure("Exec error: y".to_string()))
    );
    assert_eq!(DiskInfo::failure("m".to_string()), DiskInfo::Failure("m".to_string()));
    assert_eq!(
        DiskInfo::success("1".to_string(), "2".to_string(), "3".to_string(), "4".to_string()),
        DiskInfo::Success {
            total: "1".to_string(),
            used: "2".to_string(),
            avail: "3".to_string(),
            usage_percent: "4".to_string()
        }
    );
}

#[test]
fn cpu_on_linux() {
    let command = "echo $(nproc); echo $(ps -A -o %cpu | awk '{s+=$1} END {print s}')";
    assert_eq!(fetch_cpu_info(&vec![]), Step::Need(Request::Connect));
    assert_eq!(fetch_cpu_info(&vec![ok("")]), Step::Need(run("uname")));
    assert_eq!(fetch_cpu_info(&vec![ok(""), ok("Linux\n")]), Step::Need(run(command)));
    assert_eq!(command, CpuTask.command());
    assert_eq!(
        fetch_cpu_info(&vec![ok(""), ok("Linux\n"), ok("4\n12.5")]),
        Step::Done(CpuInfo::Success { core_count: 4, usage_percent: "12.5".to_string() })
    );
    assert_eq!(
        fetch_cpu_info(&vec![ok(""), ok("Linux\n"), ok(" 16 \r\n 103.7 \r\nmore\n")]),
        Step::Done(CpuInfo::Success { core_count: 16, usage_percent: "103.7".to_string() })
    );
}

#[test]
fn cpu_on_mac_and_on_other_systems() {
    let command = "echo $(sysctl -n hw.ncpu); echo $(ps -A -o %cpu | awk '{s+=$1} END {print s}')";
    assert_eq!(fetch_cpu_info(&vec![ok(""), ok(" Darwin \n")]), Step::Need(run(command)));
    assert_eq!(
        fetch_cpu_info(&vec![ok(""), ok("Darwin"), ok("8\n33.0\n")]),
        Step::Done(CpuInfo::Success { core_count: 8, usage_percent: "33.0".to_string() })
    );
    assert_eq!(
        fetch_cpu_info(&vec![ok(""), ok("FreeBSD\n")]),
        Step::Done(CpuInfo::Failure("Unsupported platform: FreeBSD".to_string()))
    );
    assert_eq!(
        fetch_cpu_info(&vec![ok(""), ok("")]),
        Step::Done(CpuInfo::Failure("Unsupported platform: ".to_string()))
    );
    assert_eq!(
        fetch_cpu_info(&vec![ok(""), ok("linux")]),
        Step::Done(CpuInfo::Failure("Unsupported platform: linux".to_string()))
    );
    assert_eq!(
        fetch_cpu_info(&vec![ok(""), err("Exec error: x")]),
        Step::Done(CpuInfo::Failure("Failed to detect platform: Exec error: x".to_string()))
    );
}

#[test]
fn cpu_failures() {
    assert_eq!(
        fetch_cpu_info(&vec![err("TCP error: down")]),
        Step::Done(CpuInfo::Failure("TCP error: down".to_string()))
    );
    assert_eq!(
        fetch_cpu_info(&vec![ok(""), ok("Linux"), err("Channel error: c")]),
        Step::Done(CpuInfo::Failure("Channel error: c".to_string()))
    );
    assert_eq!(
        fetch_cpu_info(&vec![ok(""), ok("Linux"), ok("four\n1.0")]),
        Step::Done(CpuInfo::Failure(
            "Parse core count error: invalid digit found in string".to_string()
        ))
    );
    assert_eq!(
        parse_cpu_output("four\n1.0"),
        CpuInfo::Failure("Parse core count error: invalid digit found in string".to_string())
    );
    assert_eq!(
        parse_cpu_output(""),
        CpuInfo::Failure("Parse core count error: cannot parse integer from empty string".to_string())
    );
    assert_eq!(
        parse_cpu_output("\n1.0"),
        CpuInfo::Failure("Parse core count error: cannot parse integer from empty string".to_string())
    );
    assert_eq!(
        parse_cpu_output("99999999999999999999999\n1.0"),
        CpuInfo::Failure(
            "Parse core count error: number too large to fit in target type".to_string()
        )
    );
    assert_eq!(
        parse_cpu_output("4\nn/a"),
        CpuInfo::Failure("Parse usage percent error: invalid float literal".to_string())
    );
    assert_eq!(
        parse_cpu_output("4"),
        CpuInfo::Failure(
            "Parse usage percent error: cannot parse float from empty string".to_string()
        )
    );
    assert_eq!(
        parse_cpu_output("4\n \n"),
        CpuInfo::Failure(
            "Parse usage percent error: cannot parse float from empty string".to_string()
        )
    );
    assert_eq!(
        parse_cpu_output("x\ny"),
        CpuInfo::Failure("Parse core count error: invalid digit found in string".to_string())
    );
    assert_eq!(
        parse_cpu_output("4 12.5"),
        CpuInfo::Failure("Parse core count error: invalid digit found in string".to_string())
    );
    assert_eq!(CpuInfo::failure("m".to_string()), CpuInfo::Failure("m".to_string()));
    assert_eq!(
        CpuInfo::success(2, "0.5".to_string()),
        CpuInfo::Success { core_count: 2, usage_percent: "0.5".to_string() }
    );
}

#[test]
fn cpu_collector_and_cpu_task_read_alike() {
    for raw in ["4\n12.5", "", "4", "x\n1", "4\nabc", " 2 \n 1e2 \n", "4\n\n", "+3\n.5"] {
        let by_task = CpuTask.parse(raw);
        match parse_cpu_output(raw) {
            CpuInfo::Success { core_count, usage_percent } => {
                assert_eq!(by_task, Ok(CpuMetrics { core_count, usage_percent }), "{:?}", raw)
            }
            CpuInfo::Failure(_) => assert!(by_task.is_err(), "{:?}", raw),
            CpuInfo::Loading => panic!("{:?} left the state loading", raw),
        }
    }
}

#[test]
fn cpu_task_reads_cores_and_load_from_one_output() {
    let task = CpuTask;
    assert_eq!(task.name(), "cpu_metrics");
    assert_eq!(task.interval(), 30);
    assert_eq!(
        task.command(),
        "echo $(nproc); echo $(ps -A -o %cpu | awk '{s+=$1} END {print s}')"
    );
    let metrics = task.parse("4\n12.5").unwrap();
    assert_eq!(metrics, CpuMetrics { core_count: 4, usage_percent: "12.5".to_string() });
    assert_eq!(metrics.usage_percent.parse::<f32>().unwrap(), 12.5f32);
    assert_eq!(task.parse(""), Err("missing core count".to_string()));
    assert_eq!(
        task.parse("x\n1"),
        Err("parse core count: invalid digit found in string".to_string())
    );
    assert_eq!(task.parse("4"), Err("missing usage percent".to_string()));
    assert_eq!(task.parse("4\nabc"), Err("parse usage percent: invalid float literal".to_string()));
    assert_eq!(
        task.parse("4\n\n"),
        Err("parse usage percent: cannot parse float from empty string".to_string())
    );
}

#[test]
fn disk_and_mem_tasks_read_two_numbers() {
    assert_eq!(DiskTask.name(), "disk_metrics");
    assert_eq!(DiskTask.interval(), 60);
    assert_eq!(DiskTask.command(), "echo 1000000; echo 500000");
    assert_eq!(
        DiskTask.parse("1000000\n500000\n"),
        Ok(DiskMetrics { total: 1000000, used: 500000 })
    );
    assert_eq!(MemTask.name(), "mem_metrics");
    assert_eq!(MemTask.interval(), 30);
    assert_eq!(MemTask.command(), "echo 8192; echo 4096");
    assert_eq!(MemTask.parse(" 8192 \n 4096 "), Ok(MemMetrics { total: 8192, used: 4096 }));
    assert_eq!(MemTask.parse(""), Err("missing total".to_string()));
    assert_eq!(
        MemTask.parse("-1\n2"),
        Err("parse total: invalid digit found in string".to_string())
    );
    assert_eq!(DiskTask.parse("1"), Err("missing used".to_string()));
    assert_eq!(
        DiskTask.parse("1\n99999999999999999999"),
        Err("parse used: number too large to fit in target type".to_string())
    );
    assert_eq!(
        parse_two_numbers("\n2", "a", "b"),
        Err("parse a: cannot parse integer from empty string".to_string())
    );
    assert_eq!(parse_two_numbers("1\n2\n3", "a", "b"), Ok((1, 2)));
}

#[test]
fn task_is_run_in_two_requests() {
    assert_eq!(run_task(&CpuTask, &vec![]), Step::Need(Request::Connect));
    assert_eq!(run_task(&CpuTask, &vec![ok("")]), Step::Need(run(&CpuTask.command())));
    assert_eq!(
        run_task(&CpuTask, &vec![ok(""), ok("4\n12.5")]),
        Step::Done(Ok(CpuMetrics { core_count: 4, usage_percent: "12.5".to_string() }))
    );
    assert_eq!(
        run_task(&DiskTask, &vec![err("TCP error: e")]),
        Step::Done(Err("TCP error: e".to_string()))
    );
    assert_eq!(
        run_task(&MemTask, &vec![ok(""), err("Exec error: e")]),
        Step::Done(Err("Exec error: e".to_string()))
    );
    assert_eq!(
        run_task(&MemTask, &vec![ok(""), ok("x")]),
        Step::Done(Err("parse total: invalid digit found in string".to_string()))
    );
}

#[test]
fn cpu_state_from_the_outcome_of_the_task() {
    assert_eq!(
        CpuInfo::from_metrics(Ok(CpuMetrics { core_count: 4, usage_percent: "12.5".to_string() })),
        CpuInfo::Success { core_count: 4, usage_percent: "12.5".to_string() }
    );
    assert_eq!(
        CpuInfo::from_metrics(Err("missing core count".to_string())),
        CpuInfo::Failure("missing core count".to_string())
    );
}

#[test]
fn memory_on_linux() {
    assert_eq!(fetch_memory_info(&vec![]), Step::Need(Request::Connect));
    assert_eq!(fetch_memory_info(&vec![ok("")]), Step::Need(run("uname -s")));
    assert_eq!(
        fetch_memory_info(&vec![ok(""), ok("Linux\n")]),
        Step::Need(run("free -m | awk '/Mem:/ {print $2, $3}'"))
    );
    assert_eq!(
        fetch_memory_info(&vec![ok(""), ok("Linux\n"), ok("7977 3816\n")]),
        Step::Need(Request::Percent { part: 3816, whole: 7977 })
    );
    assert_eq!(
        fetch_memory_info(&vec![ok(""), ok("Linux\n"), ok("7977 3816\n"), ok("47.8")]),
        Step::Done(MemoryInfo::Success {
            total: "7977 MB".to_string(),
            used: "3816 MB".to_string(),
            usage_percent: "47.8%".to_string(),
        })
    );
}

#[test]
fn memory_of_size_zero_needs_no_percentage() {
    assert_eq!(
        fetch_memory_info(&vec![ok(""), ok("Linux"), ok("0 0")]),
        Step::Done(MemoryInfo::Success {
            total: "0 MB".to_string(),
            used: "0 MB".to_string(),
            usage_percent: "0.0%".to_string(),
        })
    );
    assert_eq!(
        fetch_memory_info(&vec![ok(""), ok("Linux"), ok("0 12")]),
        Step::Done(MemoryInfo::Success {
            total: "0 MB".to_string(),
            used: "12 MB".to_string(),
            usage_percent: "0.0%".to_string(),
        })
    );
}

#[test]
fn memory_word_that_is_no_number_is_a_failure_that_names_it() {
    assert_eq!(
        fetch_memory_info(&vec![ok(""), ok("Linux"), ok("abc def")]),
        Step::Done(MemoryInfo::Failure(
            "Parse total error: invalid digit found in string".to_string()
        ))
    );
    assert_eq!(
        fetch_memory_info(&vec![ok(""), ok("Linux"), ok("total 12")]),
        Step::Done(MemoryInfo::Failure(
            "Parse total error: invalid digit found in string".to_string()
        ))
    );
    assert_eq!(
        fetch_memory_info(&vec![ok(""), ok("Linux"), ok("12 1.5")]),
        Step::Done(MemoryInfo::Failure(
            "Parse used error: invalid digit found in string".to_string()
        ))
    );
    assert_eq!(
        parse_free_output("18446744073709551616 1"),
        Err("Parse total error: number too large to fit in target type".to_string())
    );
    assert_eq!(parse_free_output("8 4 2"), Ok((8, 4)));
    assert_eq!(parse_free_output("8"), Err("Unexpected free output: 8".to_string()));
    assert_eq!(
        fetch_memory_info(&vec![ok(""), ok("Darwin"), ok("lots\n")]),
        Step::Done(MemoryInfo::Failure(
            "Parse total error: invalid digit found in string".to_string()
        ))
    );
    assert_eq!(
        fetch_memory_info(&vec![ok(""), ok("Darwin"), ok("")]),
        Step::Done(MemoryInfo::Failure(
            "Parse total error: cannot parse integer from empty string".to_string()
        ))
    );
    assert_eq!(
        fetch_memory_info(&vec![ok(""), ok("Darwin"), ok("1048576"), ok("Pages active: many.")]),
        Step::Done(MemoryInfo::Failure(
            "Parse Pages active error: invalid digit found in string".to_string()
        ))
    );
    assert_eq!(
        fetch_memory_info(&vec![ok(""), ok("Linux"), ok("8 4"), ok("half")]),
        Step::Done(MemoryInfo::Failure(
            "Parse usage percent error: invalid float literal".to_string()
        ))
    );
    assert_eq!(
        fetch_memory_info(&vec![ok(""), ok("Linux"), ok("8 4"), ok("50.0%")]),
        Step::Done(MemoryInfo::Failure(
            "Parse usage percent error: invalid float literal".to_string()
        ))
    );
    assert_eq!(
        fetch_memory_info(&vec![ok(""), ok("Linux"), ok("8 4"), ok("")]),
        Step::Done(MemoryInfo::Failure(
            "Parse usage percent error: cannot parse float from empty string".to_string()
        ))
    );
}

#[test]
fn memory_failures() {
    assert_eq!(
        fetch_memory_info(&vec![err("TCP error: e")]),
        Step::Done(MemoryInfo::Failure("TCP error: e".to_string()))
    );
    assert_eq!(
        fetch_memory_info(&vec![ok(""), err("Exec error: e")]),
        Step::Done(MemoryInfo::Failure("Failed to detect platform: Exec error: e".to_string()))
    );
    assert_eq!(
        fetch_memory_info(&vec![ok(""), ok("FreeBSD\n")]),
        Step::Done(MemoryInfo::Failure("Unsupported platform: FreeBSD".to_string()))
    );
    assert_eq!(
        fetch_memory_info(&vec![ok(""), ok("Linux"), err("Read error: e")]),
        Step::Done(MemoryInfo::Failure("Read error: e".to_string()))
    );
    assert_eq!(
        fetch_memory_info(&vec![ok(""), ok("Linux"), ok("7977\n")]),
        Step::Done(MemoryInfo::Failure("Unexpected free output: 7977\n".to_string()))
    );
    assert_eq!(
        fetch_memory_info(&vec![ok(""), ok("Linux"), ok("8 4"), err("no floats today")]),
        Step::Done(MemoryInfo::Failure("no floats today".to_string()))
    );
    assert_eq!(
        fetch_memory_info(&vec![ok(""), ok("Darwin"), err("Exec error: a")]),
        Step::Done(MemoryInfo::Failure("Exec error: a".to_string()))
    );
    assert_eq!(
        fetch_memory_info(&vec![ok(""), ok("Darwin"), ok("1"), err("Exec error: b")]),
        Step::Done(MemoryInfo::Failure("Exec error: b".to_string()))
    );
    assert_eq!(MemoryInfo::failure("m".to_string()), MemoryInfo::Failure("m".to_string()));
    assert_eq!(
        MemoryInfo::success("1".to_string(), "2".to_string(), "3".to_string()),
        MemoryInfo::Success {
            total: "1".to_string(),
            used: "2".to_string(),
            usage_percent: "3".to_string()
        }
    );
}

#[test]
fn memory_on_mac() {
    assert_eq!(
        fetch_memory_info(&vec![ok(""), ok("Darwin\n")]),
        Step::Need(run("sysctl -n hw.memsize"))
    );
    assert_eq!(
        fetch_memory_info(&vec![ok(""), ok("Darwin\n"), ok("17179869184\n")]),
        Step::Need(run("vm_stat"))
    );
    assert_eq!(
        fetch_memory_info(&vec![ok(""), ok("Darwin\n"), ok("17179869184\n"), ok(VM_STAT)]),
        Step::Need(Request::Percent { part: 6421, whole: 16384 })
    );
    assert_eq!(
        fetch_memory_info(&vec![
            ok(""),
            ok("Darwin\n"),
            ok("17179869184\n"),
            ok(VM_STAT),
            ok("39.2")
        ]),
        Step::Done(MemoryInfo::Success {
            total: "16384 MB".to_string(),
            used: "6421 MB".to_string(),
            usage_percent: "39.2%".to_string(),
        })
    );
}

#[test]
fn vm_stat_counters() {
    let c = read_vm_stat(VM_STAT).unwrap();
    assert_eq!(
        c,
        VmCounters {
            page_size: 16384,
            active: 200000,
            speculative: 1000,
            compressed: 60000,
            wired: 100000,
            file_backed: 50000,
        }
    );
    assert_eq!(used_megabytes(&c), Some(6421));
    assert_eq!(parse_vm_output(VM_STAT), Ok(6421));
    let start = read_vm_stat("").unwrap();
    assert_eq!(
        start,
        VmCounters {
            page_size: 4096,
            active: 0,
            speculative: 0,
            compressed: 0,
            wired: 0,
            file_backed: 0
        }
    );
    assert_eq!(used_megabytes(&start), Some(0));
}

#[test]
fn vm_stat_stops_at_the_first_line_that_cannot_be_read() {
    assert_eq!(
        read_vm_stat("Pages active: 5.\nPages wired down: x.\nPages speculative: y.\n"),
        Err("Parse Pages wired down error: invalid digit found in string".to_string())
    );
    assert_eq!(
        read_vm_stat("Pages active: 5.\nPages free: x.\nPages speculative: 7.\n").map(|c| c.speculative),
        Ok(7)
    );
}

#[test]
fn vm_stat_lines_one_by_one() {
    let zero = VmCounters {
        page_size: 4096,
        active: 1,
        speculative: 2,
        compressed: 3,
        wired: 4,
        file_backed: 5,
    };
    assert_eq!(read_vm_line(zero, "nothing here"), Ok(zero));
    assert_eq!(read_vm_line(zero, "Pages free: 9."), Ok(zero));
    assert_eq!(read_vm_line(zero, "Pages free: many"), Ok(zero));
    assert_eq!(read_vm_line(zero, "  Pages active :  1.234.  "), Ok(VmCounters { active: 1234, ..zero }));
    assert_eq!(
        read_vm_line(zero, "Pages speculative: 77."),
        Ok(VmCounters { speculative: 77, ..zero })
    );
    assert_eq!(
        read_vm_line(zero, "Pages occupied by compressor: 8."),
        Ok(VmCounters { compressed: 8, ..zero })
    );
    assert_eq!(read_vm_line(zero, "Pages wired down: 9."), Ok(VmCounters { wired: 9, ..zero }));
    assert_eq!(
        read_vm_line(zero, "File-backed pages: 10."),
        Ok(VmCounters { file_backed: 10, ..zero })
    );
    assert_eq!(
        read_vm_line(zero, "(page size of 8192 bytes)"),
        Ok(VmCounters { page_size: 8192, ..zero })
    );
    assert_eq!(
        read_vm_line(zero, "Pages active: page size of 5"),
        Ok(VmCounters { page_size: 5, ..zero })
    );
    assert_eq!(
        read_vm_line(zero, "Pages active: many"),
        Err("Parse Pages active error: invalid digit found in string".to_string())
    );
    assert_eq!(
        read_vm_line(zero, "Pages wired down:"),
        Err("Parse Pages wired down error: cannot parse integer from empty string".to_string())
    );
    assert_eq!(
        read_vm_line(zero, "File-backed pages: 18446744073709551616."),
        Err("Parse File-backed pages error: number too large to fit in target type".to_string())
    );
    assert_eq!(
        read_vm_line(zero, "(page size of big bytes)"),
        Err("Parse page size error: invalid digit found in string".to_string())
    );
    assert_eq!(
        read_vm_line(zero, "page size of"),
        Err("Parse page size error: cannot parse integer from empty string".to_string())
    );
}

#[test]
fn used_memory_beyond_64_bits_is_a_failure() {
    let sum = VmCounters {
        page_size: 1,
        active: u64::MAX,
        speculative: 0,
        compressed: 0,
        wired: 1,
        file_backed: 0,
    };
    assert_eq!(used_megabytes(&sum), None);
    let product = VmCounters {
        page_size: 1 << 40,
        active: 1 << 30,
        speculative: 0,
        compressed: 0,
        wired: 0,
        file_backed: 3,
    };
    assert_eq!(used_megabytes(&product), None);
    let edge = VmCounters {
        page_size: 1,
        active: u64::MAX - 4,
        speculative: 1,
        compressed: 1,
        wired: 1,
        file_backed: 1,
    };
    assert_eq!(used_megabytes(&edge), Some(u64::MAX / 1024 / 1024));
    let large = VmCounters {
        page_size: 1 << 32,
        active: (1 << 32) - 1,
        speculative: 0,
        compressed: 0,
        wired: 0,
        file_backed: 0,
    };
    assert_eq!(used_megabytes(&large), Some((((1u64 << 32) - 1) << 32) / 1024 / 1024));
    let pages = "Pages active: 18446744073709551615.\nPages wired down: 1.\n";
    assert_eq!(
        parse_vm_output(pages),
        Err("Parse used error: number too large to fit in target type".to_string())
    );
    assert_eq!(
        fetch_memory_info(&vec![ok(""), ok("Darwin"), ok("1048576"), ok(pages)]),
        Step::Done(MemoryInfo::Failure(
            "Parse used error: number too large to fit in target type".to_string()
        ))
    );
}

#[test]
fn gpu_on_linux_with_nvidia() {
    let nvidia = "nvidia-smi --query-gpu=name,memory.total,memory.used,utilization.gpu,temperature.gpu --format=csv,noheader,nounits";
    assert_eq!(fetch_gpu_info(&vec![]), Step::Need(Request::Connect));
    assert_eq!(fetch_gpu_info(&vec![ok("")]), Step::Need(run("uname -s")));
    assert_eq!(fetch_gpu_info(&vec![ok(""), ok("Linux\n")]), Step::Need(run(nvidia)));
    assert_eq!(
        fetch_gpu_info(&vec![
            ok(""),
            ok("Linux\n"),
            ok("NVIDIA GeForce RTX 3090, 24576, 1024, 37, 61\nsecond, 1, 2, 3, 4\n")
        ]),
        Step::Done(GpuInfo::Success {
            name: "NVIDIA GeForce RTX 3090".to_string(),
            memory_total_mb: 24576,
            memory_used_mb: 1024,
            utilization_percent: 37,
            temperature_c: 61,
        })
    );
    assert_eq!(
        parse_nvidia_reply(&ok("Tesla, n/a, 1, 2, 3")),
        Some(GpuInfo::Failure(
            "Parse memory total error: invalid digit found in string".to_string()
        ))
    );
    assert_eq!(
        parse_nvidia_reply(&ok("Tesla, 1, 70000000000, 2, 3")),
        Some(GpuInfo::Failure(
            "Parse memory used error: number too large to fit in target type".to_string()
        ))
    );
    assert_eq!(
        parse_nvidia_reply(&ok("Tesla, 1, 2, 300, 3")),
        Some(GpuInfo::Failure(
            "Parse utilization error: number too large to fit in target type".to_string()
        ))
    );
    assert_eq!(
        parse_nvidia_reply(&ok("Tesla, 1, 2, 3, -4")),
        Some(GpuInfo::Failure("Parse temperature error: invalid digit found in string".to_string()))
    );
    assert_eq!(
        parse_nvidia_reply(&ok("Tesla, 1, 2, 3,")),
        Some(GpuInfo::Failure(
            "Parse temperature error: cannot parse integer from empty string".to_string()
        ))
    );
    assert_eq!(
        fetch_gpu_info(&vec![ok(""), ok("Linux"), ok("Tesla, [N/A], 1, 2, 3")]),
        Step::Done(GpuInfo::Failure(
            "Parse memory total error: invalid digit found in string".to_string()
        ))
    );
    assert_eq!(parse_nvidia_reply(&ok("a,b,c,d")), None);
    assert_eq!(parse_nvidia_reply(&ok("a,b,c,d,e,f")), None);
    assert_eq!(parse_nvidia_reply(&ok("")), None);
    assert_eq!(parse_nvidia_reply(&err("Exec error")), None);
}

#[test]
fn gpu_falls_back_to_the_name_of_the_card() {
    let lspci = "lspci | grep -i -E 'vga|3d|display'";
    assert_eq!(
        fetch_gpu_info(&vec![ok(""), ok("Linux"), ok("bash: nvidia-smi: command not found")]),
        Step::Need(run(lspci))
    );
    assert_eq!(fetch_gpu_info(&vec![ok(""), ok("Linux"), err("Exec error: x")]), Step::Need(run(lspci)));
    assert_eq!(
        fetch_gpu_info(&vec![
            ok(""),
            ok("Linux"),
            ok(""),
            ok("00:02.0 VGA compatible controller: Intel UHD Graphics 620 \nmore\n")
        ]),
        Step::Done(GpuInfo::Fallback(
            "00:02.0 VGA compatible controller: Intel UHD Graphics 620".to_string()
        ))
    );
    assert_eq!(
        fetch_gpu_info(&vec![ok(""), ok("Linux"), ok(""), ok("")]),
        Step::Done(GpuInfo::Failure("nvidia-smi not available".to_string()))
    );
    assert_eq!(
        fetch_gpu_info(&vec![ok(""), ok("Linux"), ok(""), err("Exec error: y")]),
        Step::Done(GpuInfo::Failure("nvidia-smi not available".to_string()))
    );
    assert_eq!(
        parse_lspci_reply(&ok("  \nname")),
        GpuInfo::Failure("nvidia-smi not available".to_string())
    );
}

#[test]
fn gpu_on_mac() {
    let profiler = "system_profiler SPDisplaysDataType | grep -E 'Chipset Model|VRAM'";
    assert_eq!(fetch_gpu_info(&vec![ok(""), ok("Darwin")]), Step::Need(run(profiler)));
    assert_eq!(
        fetch_gpu_info(&vec![
            ok(""),
            ok("Darwin"),
            ok("      Chipset Model: AMD Radeon Pro 5500M\n      VRAM (Total): 8 GB\n")
        ]),
        Step::Done(GpuInfo::Success {
            name: "AMD Radeon Pro 5500M".to_string(),
            memory_total_mb: 8192,
            memory_used_mb: 0,
            utilization_percent: 0,
            temperature_c: 0,
        })
    );
    assert_eq!(
        parse_profiler_output("VRAM (Dynamic, Max): 1,536 MB\n"),
        GpuInfo::Success {
            name: "Unknown".to_string(),
            memory_total_mb: 1536,
            memory_used_mb: 0,
            utilization_percent: 0,
            temperature_c: 0,
        }
    );
    assert_eq!(
        parse_profiler_output(" \n"),
        GpuInfo::Failure("No GPU info found with system_profiler".to_string())
    );
    assert_eq!(
        fetch_gpu_info(&vec![ok(""), ok("Darwin"), err("Exec error: z")]),
        Step::Done(GpuInfo::Failure("Exec error: z".to_string()))
    );
}

#[test]
fn vram_sizes() {
    assert_eq!(parse_vram("VRAM (Total): 8 GB"), Ok(8192));
    assert_eq!(parse_vram("VRAM (Total): 8 gb"), Ok(8192));
    assert_eq!(parse_vram("VRAM (Total): 512 MB"), Ok(512));
    assert_eq!(parse_vram("VRAM (Total): 512"), Ok(512));
    assert_eq!(parse_vram("VRAM (Total): 1,024 MB"), Ok(1024));
    assert_eq!(parse_vram("VRAM: 4194303 GB"), Ok(4194303 * 1024));
    assert_eq!(parse_vram("VRAM: 4294967295 MB"), Ok(u32::MAX));
    assert_eq!(
        parse_vram("VRAM (Total): lots"),
        Err("Parse VRAM error: invalid digit found in string".to_string())
    );
    assert_eq!(
        parse_vram("VRAM (Total):"),
        Err("Parse VRAM error: cannot parse integer from empty string".to_string())
    );
    assert_eq!(
        parse_vram("VRAM"),
        Err("Parse VRAM error: cannot parse integer from empty string".to_string())
    );
    let too_large = Err("Parse VRAM error: number too large to fit in target type".to_string());
    assert_eq!(parse_vram("VRAM: 4194304 GB"), too_large);
    assert_eq!(parse_vram("VRAM: 4194305 GB"), too_large);
    assert_eq!(parse_vram("VRAM: 4294967296 MB"), too_large);
    assert_eq!(
        fetch_gpu_info(&vec![
            ok(""),
            ok("Darwin\n"),
            ok("Chipset Model: X\nVRAM (Total): 4194304 GB\n")
        ]),
        Step::Done(GpuInfo::Failure(
            "Parse VRAM error: number too large to fit in target type".to_string()
        ))
    );
}

#[test]
fn profiler_lines_one_by_one() {
    let start = MacGpu { name: None, memory_total_mb: 7 };
    let named = read_profiler_line(start, "  Chipset Model:  Apple M2  ").unwrap();
    assert_eq!(named.name, Some("Apple M2".to_string()));
    assert_eq!(named.memory_total_mb, 7);
    let sized = read_profiler_line(named, " VRAM: 2 GB").unwrap();
    assert_eq!(sized.name, Some("Apple M2".to_string()));
    assert_eq!(sized.memory_total_mb, 2048);
    let same = read_profiler_line(sized, "Vendor: Apple").unwrap();
    assert_eq!(same.memory_total_mb, 2048);
    let renamed = read_profiler_line(same, "Chipset Model: VRAM").unwrap();
    assert_eq!(renamed.name, Some("VRAM".to_string()));
    match read_profiler_line(renamed, "VRAM: unknown") {
        Err(reason) => assert_eq!(reason, "Parse VRAM error: invalid digit found in string"),
        Ok(_) => panic!("an unreadable size was read"),
    }
    assert_eq!(
        parse_profiler_output("Chipset Model: A\nVRAM: x\nVRAM: 1 MB\n"),
        GpuInfo::Failure("Parse VRAM error: invalid digit found in string".to_string())
    );
}

#[test]
fn gpu_failures() {
    assert_eq!(
        fetch_gpu_info(&vec![err("TCP error: e")]),
        Step::Done(GpuInfo::Failure("TCP error: e".to_string()))
    );
    assert_eq!(
        fetch_gpu_info(&vec![ok(""), err("Exec error: e")]),
        Step::Done(GpuInfo::Failure("Failed to detect platform: Exec error: e".to_string()))
    );
    assert_eq!(
        fetch_gpu_info(&vec![ok(""), ok("SunOS")]),
        Step::Done(GpuInfo::Failure("Unsupported platform: SunOS".to_string()))
    );
    assert_eq!(GpuInfo::failure("m".to_string()), GpuInfo::Failure("m".to_string()));
    assert_eq!(
        GpuInfo::success("n".to_string(), 1, 2, 3, 4),
        GpuInfo::Success {
            name: "n".to_string(),
            memory_total_mb: 1,
            memory_used_mb: 2,
            utilization_percent: 3,
            temperature_c: 4
        }
    );
}

#[test]
fn os_on_linux() {
    let release =
        "awk -F= '/^NAME=|^VERSION_ID=/{gsub(/\"/, \"\", $2); print $2}' /etc/os-release";
    let zone = "cat /etc/timezone || timedatectl | grep 'Time zone' | awk '{print $3}'";
    assert_eq!(fetch_os_info(&vec![]), Step::Need(Request::Connect));
    assert_eq!(fetch_os_info(&vec![ok("")]), Step::Need(run("uname -s")));
    assert_eq!(fetch_os_info(&vec![ok(""), ok("Linux\n")]), Step::Need(run(release)));
    assert_eq!(
        fetch_os_info(&vec![ok(""), ok("Linux\n"), ok("Ubuntu\n22.04\n")]),
        Step::Need(run(zone))
    );
    assert_eq!(
        fetch_os_info(&vec![ok(""), ok("Linux\n"), ok("Ubuntu\n22.04\n"), ok("Europe/Berlin\n")]),
        Step::Done(OsInfo::Success {
            name: "Ubuntu".to_string(),
            version: "22.04".to_string(),
            timezone: "Europe/Berlin".to_string(),
        })
    );
    assert_eq!(
        fetch_os_info(&vec![ok(""), ok("Linux\n"), ok("Ubuntu\n22.04\n"), err("Exec error")]),
        Step::Done(OsInfo::Success {
            name: "Ubuntu".to_string(),
            version: "22.04".to_string(),
            timezone: "Unknown".to_string(),
        })
    );
    assert_eq!(read_linux_zone(&ok("")), "Unknown");
    assert_eq!(read_linux_zone(&ok("\nUTC")), "");
    assert_eq!(read_linux_zone(&ok(" UTC \nrest")), "UTC");
}

#[test]
fn os_on_mac() {
    assert_eq!(
        fetch_os_info(&vec![ok(""), ok("Darwin\n")]),
        Step::Need(run("sw_vers -productName && sw_vers -productVersion"))
    );
    assert_eq!(
        fetch_os_info(&vec![ok(""), ok("Darwin\n"), ok("macOS\n14.5\n")]),
        Step::Need(run("readlink /etc/localtime"))
    );
    assert_eq!(
        fetch_os_info(&vec![
            ok(""),
            ok("Darwin\n"),
            ok("macOS\n14.5\n"),
            ok("/var/db/timezone/zoneinfo/Asia/Tokyo\n")
        ]),
        Step::Done(OsInfo::Success {
            name: "macOS".to_string(),
            version: "14.5".to_string(),
            timezone: "Asia/Tokyo".to_string(),
        })
    );
    assert_eq!(read_mac_zone(&ok("/etc/localtime")), "Unknown");
    assert_eq!(read_mac_zone(&err("Exec error")), "Unknown");
    assert_eq!(read_mac_zone(&ok("zoneinfo/")), "");
}

#[test]
fn os_failures() {
    assert_eq!(
        fetch_os_info(&vec![err("TCP error: e")]),
        Step::Done(OsInfo::Failure("TCP error: e".to_string()))
    );
    assert_eq!(
        fetch_os_info(&vec![ok(""), err("x")]),
        Step::Done(OsInfo::Failure("Failed to detect platform: x".to_string()))
    );
    assert_eq!(
        fetch_os_info(&vec![ok(""), ok("Plan9")]),
        Step::Done(OsInfo::Failure("Unsupported platform: Plan9".to_string()))
    );
    assert_eq!(
        fetch_os_info(&vec![ok(""), ok("Linux"), err("Read error")]),
        Step::Done(OsInfo::Failure("Read error".to_string()))
    );
    assert_eq!(
        fetch_os_info(&vec![ok(""), ok("Linux"), ok("Ubuntu\n")]),
        Step::Done(OsInfo::Failure("Unexpected Linux os-release output: Ubuntu\n".to_string()))
    );
    assert_eq!(
        fetch_os_info(&vec![ok(""), ok("Darwin"), ok("\n14.5")]),
        Step::Done(OsInfo::Failure("Unexpected macOS sw_vers output: \n14.5".to_string()))
    );
    assert_eq!(OsInfo::failure("m".to_string()), OsInfo::Failure("m".to_string()));
    assert_eq!(
        OsInfo::success("n".to_string(), "v".to_string(), "z".to_string()),
        OsInfo::Success { name: "n".to_string(), version: "v".to_string(), timezone: "z".to_string() }
    );
}

#[test]
fn every_kind_is_collected_by_its_collector() {
    for kind in [
        MetricKind::Connectivity,
        MetricKind::Cpu,
        MetricKind::Disk,
        MetricKind::Memory,
        MetricKind::Os,
        MetricKind::Gpu,
    ] {
        assert_eq!(fetch(kind, &vec![]), Step::Need(Request::Connect));
        match fetch(kind, &vec![err("TCP error: down")]) {
            Step::Done(metric) => {
                assert_eq!(metric.kind(), kind);
                assert!(!metric.is_loading());
                assert_eq!(metric, Metric::failure(kind, "TCP error: down".to_string()));
            }
            other => panic!("expected the end, got {:?}", other),
        }
    }
    assert_eq!(
        fetch(MetricKind::Disk, &vec![ok(""), ok("1 2 3 4")]),
        Step::Done(Metric::Disk(DiskInfo::Success {
            total: "1".to_string(),
            used: "2".to_string(),
            avail: "3".to_string(),
            usage_percent: "4".to_string()
        }))
    );
    assert_eq!(
        fetch(MetricKind::Connectivity, &vec![ok("")]),
        Step::Done(Metric::Connectivity(SshStatus::Connected))
    );
}

#[test]
fn further_replies_change_nothing_once_a_collection_is_over() {
    let done = fetch_disk_info(&vec![ok(""), ok("1 2 3 4")]);
    assert_eq!(fetch_disk_info(&vec![ok(""), ok("1 2 3 4"), ok("x"), err("y")]), done);
    let failed = fetch_os_info(&vec![err("TCP error: e")]);
    assert_eq!(fetch_os_info(&vec![err("TCP error: e"), ok("Linux")]), failed);
}
