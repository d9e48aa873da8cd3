use warp_context::foreground_process::{
    is_uninteresting, parse_etime, parse_ps_line, path_is_within, pick_best,
    pids_from_lsof_output, processes_from_ps_output, ps_pid_arg, ForegroundProcess,
};

fn process(pid: u32, name: &str, command_line: &str, cpu: &str, elapsed: u64) -> ForegroundProcess {
    ForegroundProcess {
        pid,
        name: name.into(),
        command_line: command_line.into(),
        cpu_percent: cpu.into(),
        elapsed,
    }
}

#[test]
fn parses_etime() {
    assert_eq!(parse_etime("12"), None); // missing minutes
    assert_eq!(parse_etime("00:42").unwrap(), 42);
    assert_eq!(parse_etime("01:02:03").unwrap(), 3723);
    assert_eq!(parse_etime("2-01:02:03").unwrap(), 2 * 86_400 + 3723);
}

#[test]
fn parses_ps_line() {
    let line = " 12345  4.2  03:14 cargo build --release";
    let p = parse_ps_line(line).expect("parse");
    assert_eq!(p.pid, 12345);
    assert_eq!(p.name, "cargo");
    assert!((p.cpu_percent.parse::<f32>().unwrap() - 4.2).abs() < 0.001);
    assert_eq!(p.command_line, "cargo build --release");
    assert_eq!(p.elapsed, 194);
}

#[test]
fn path_within_strict() {
    assert!(path_is_within("/foo/bar", "/foo/bar"));
    assert!(path_is_within("/foo/bar/baz", "/foo/bar"));
    assert!(!path_is_within("/foo/barbaz", "/foo/bar"));
    assert!(!path_is_within("/other", "/foo/bar"));
}

#[test]
fn path_within_a_parent_ending_in_a_separator() {
    assert!(path_is_within("/usr/bin", "/"));
    assert!(path_is_within("/", "/"));
    assert!(path_is_within("/srv/app", "/srv/"));
    assert!(path_is_within("/srv/", "/srv/"));
    assert!(!path_is_within("/srv", "/srv/"));
    assert!(!path_is_within("/srvx", "/srv/"));
    assert!(!path_is_within("usr", ""));
}

#[test]
fn skips_shell_processes() {
    let procs = vec![
        process(1, "zsh", "-zsh", "0.0", 10),
        process(2, "cargo", "cargo build", "50.0", 20),
    ];
    let best = pick_best(procs).unwrap();
    assert_eq!(best.pid, 2);
}

#[test]
fn etime_rejects_malformed_fields() {
    assert_eq!(parse_etime(""), None);
    assert_eq!(parse_etime("1:2:3:4"), None);
    assert_eq!(parse_etime("x-01:02"), None);
    assert_eq!(parse_etime("01:xx"), None);
    assert_eq!(parse_etime("+1:+2"), Some(62));
    assert_eq!(parse_etime("10-00:00:00"), Some(864_000));
}

#[test]
fn ps_line_takes_name_from_path_of_first_word() {
    let p = parse_ps_line("42 0.0 00:05 /usr/bin/python3 script.py").unwrap();
    assert_eq!(p.pid, 42);
    assert_eq!(p.name, "python3");
    assert_eq!(p.command_line, "/usr/bin/python3 script.py");
    assert_eq!(p.cpu_percent, "0.0");
    assert_eq!(p.elapsed, 5);
}

#[test]
fn ps_line_rejects_incomplete_lines() {
    assert!(parse_ps_line("").is_none());
    assert!(parse_ps_line("  12 3.0").is_none());
    assert!(parse_ps_line("abc 3.0 00:01 ls").is_none());
    assert!(parse_ps_line("12 3.0 5 ls").is_none());
    // No command: the command line is empty and so is the name.
    let p = parse_ps_line("12 3.0 00:01").unwrap();
    assert_eq!(p.command_line, "");
    assert_eq!(p.name, "");
}

#[test]
fn ps_output_skips_unparsable_lines() {
    let out = "  7 1.0 00:03 vim notes.txt\nheader line\n  9 2.5 01:00:00 make all\n";
    let procs = processes_from_ps_output(out);
    assert_eq!(procs.len(), 2);
    assert_eq!(procs[0].pid, 7);
    assert_eq!(procs[0].name, "vim");
    assert_eq!(procs[1].pid, 9);
    assert_eq!(procs[1].elapsed, 3600);
}

#[test]
fn pid_list_is_comma_separated() {
    assert_eq!(ps_pid_arg(&[3, 17, 250]), "3,17,250");
    assert_eq!(ps_pid_arg(&[5]), "5");
    assert_eq!(ps_pid_arg(&[]), "");
}

#[test]
fn lsof_output_keeps_sorted_unique_descendants() {
    assert_eq!(pids_from_lsof_output("p3\nn/home\np4\nn/\n", "/"), vec![3, 4]);
    let out = "p30\nn/repo/sub\np10\nn/repo\np20\nn/elsewhere\np30\nn/repo/sub\np5\nn/repository\n";
    assert_eq!(pids_from_lsof_output(out, "/repo"), vec![10, 30]);
}

#[test]
fn lsof_name_without_pid_is_ignored() {
    let out = "n/repo\npbad\nn/repo\np4\nn/repo/x\n";
    assert_eq!(pids_from_lsof_output(out, "/repo"), vec![4]);
}

#[test]
fn uninteresting_names() {
    for name in ["zsh", "bash", "fish", "dash", "sh", "tmux", "screen", "ssh-agent", "warp-oss",
        "warp", "Code Helper", "login", "loginwindow", "sshd-session", "warpd"]
    {
        assert!(is_uninteresting(name), "{name}");
    }
    for name in ["cargo", "zshx", "node", "python3", ""] {
        assert!(!is_uninteresting(name), "{name}");
    }
}

#[test]
fn youngest_interesting_process_wins_and_ties_keep_order() {
    let procs = vec![
        process(1, "node", "node a", "1.0", 30),
        process(2, "cargo", "cargo b", "1.0", 20),
        process(3, "make", "make c", "1.0", 20),
        process(4, "bash", "bash", "1.0", 1),
    ];
    assert_eq!(pick_best(procs).unwrap().pid, 2);
    assert!(pick_best(vec![process(1, "zsh", "zsh", "0", 1)]).is_none());
    assert!(pick_best(Vec::new()).is_none());
}

#[test]
fn short_command_keeps_short_lines_and_cuts_long_ones() {
    let short = process(1, "a", "cargo build", "0", 0);
    assert_eq!(short.short_command(), "cargo build");
    let exact: String = "x".repeat(60);
    assert_eq!(process(1, "a", &exact, "0", 0).short_command(), exact);
    let long: String = "y".repeat(61);
    let cut = process(1, "a", &long, "0", 0).short_command();
    assert_eq!(cut, format!("{}…", "y".repeat(59)));
    // 30 two-byte characters are 60 bytes: kept whole.
    let wide: String = "é".repeat(30);
    assert_eq!(process(1, "a", &wide, "0", 0).short_command(), wide);
    let wider: String = "é".repeat(31);
    assert_eq!(process(1, "a", &wider, "0", 0).short_command(), wider + "…");
}

#[test]
fn elapsed_is_printed_in_two_units() {
    assert_eq!(process(1, "a", "a", "0", 12).elapsed_pretty(), "12s");
    assert_eq!(process(1, "a", "a", "0", 184).elapsed_pretty(), "3m4s");
    assert_eq!(process(1, "a", "a", "0", 3720).elapsed_pretty(), "1h2m");
    assert_eq!(process(1, "a", "a", "0", 0).elapsed_pretty(), "0s");
    assert_eq!(process(1, "a", "a", "0", 60).elapsed_pretty(), "1m0s");
}

#[test]
fn ps_line_requires_a_float_cpu_column() {
    for cpu in ["0", "4.2", ".5", "5.", "-1.5", "+2", "1e2", "1E+5", "2.5e-3", "inf", "-Infinity", "NaN"] {
        let line = format!("10 {cpu} 00:01 top");
        let p = parse_ps_line(&line).unwrap_or_else(|| panic!("{cpu}"));
        assert_eq!(p.cpu_percent, cpu);
        assert!(cpu.parse::<f32>().is_ok());
    }
    for cpu in ["abc", ".", "1.2.3", "e5", "1e", "1e+", "--1", "0x1", "1,5", "infin"] {
        let line = format!("10 {cpu} 00:01 top");
        assert!(parse_ps_line(&line).is_none(), "{cpu}");
        assert!(cpu.parse::<f32>().is_err());
    }
}
