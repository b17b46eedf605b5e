use manage::args::parse_arguments;
use manage::opt::{AbortControl, AbortLevel, Arch, Opt, PartitionTable, Task};

fn args(list: &[&str]) -> Vec<String> {
    list.iter().map(|s| s.to_string()).collect()
}

const GENERIC: Task = Task::Generic { abort_level: None };

#[test]
fn no_arguments_no_tasks() {
    assert_eq!(parse_arguments(&args(&[])), Ok(vec![]));
}

#[test]
fn build_letter_hands_on_previous_task() {
    assert_eq!(
        parse_arguments(&args(&["b"])),
        Ok(vec![GENERIC, Task::Build { release: false, arch: Arch::X86_64 }])
    );
}

#[test]
fn letters_in_one_argument() {
    assert_eq!(
        parse_arguments(&args(&["bir"])),
        Ok(vec![
            GENERIC,
            Task::Build { release: false, arch: Arch::X86_64 },
            Task::Image { size: 4194304, partition_table: PartitionTable::Mbr, arch: Arch::X86_64, release: false },
            Task::RunQemu { memory: 67108864, arch: Arch::X86_64 },
        ])
    );
}

#[test]
fn separate_arguments_repeat_task_at_space() {
    assert_eq!(
        parse_arguments(&args(&["b", "g"])),
        Ok(vec![
            GENERIC,
            Task::Build { release: false, arch: Arch::X86_64 },
            Task::Build { release: false, arch: Arch::X86_64 },
            GENERIC,
        ])
    );
}

#[test]
fn help_alone() {
    assert_eq!(parse_arguments(&args(&["h"])), Ok(vec![GENERIC, Task::Help]));
}

#[test]
fn help_with_other_task_is_refused() {
    assert_eq!(
        parse_arguments(&args(&["hb"])),
        Err(vec!["Help task can only be used once and alone.".to_string()])
    );
}

#[test]
fn unknown_task_letter() {
    assert_eq!(
        parse_arguments(&args(&["bx"])),
        Err(vec!["There is no such task as 'x'.".to_string()])
    );
}

#[test]
fn release_flag_applies_to_build_and_later_image() {
    assert_eq!(
        parse_arguments(&args(&["b[release]i"])),
        Ok(vec![
            GENERIC,
            Task::Build { release: true, arch: Arch::X86_64 },
            GENERIC,
            Task::Image { size: 4194304, partition_table: PartitionTable::Mbr, arch: Arch::X86_64, release: true },
        ])
    );
}

#[test]
fn arch_flag() {
    assert_eq!(
        parse_arguments(&args(&["b[arch=X86_64]"])),
        Ok(vec![GENERIC, Task::Build { release: false, arch: Arch::X86_64 }, GENERIC])
    );
    assert_eq!(
        parse_arguments(&args(&["b[architecture=arm]"])),
        Err(vec!["Build Task: \"arm\" architecture is not supported.".to_string()])
    );
    assert_eq!(
        parse_arguments(&args(&["b[arch]"])),
        Err(vec!["Build task: \"arch\" should contain a value.".to_string()])
    );
}

#[test]
fn build_flag_errors() {
    assert_eq!(
        parse_arguments(&args(&["b[release=1,x]"])),
        Err(vec![
            "Build task: release flag does not accept a value.".to_string(),
            "Build task: \"x\" is not an accepted flag.".to_string(),
        ])
    );
    assert_eq!(
        parse_arguments(&args(&["b[=v]"])),
        Err(vec![
            "Flag or value is empty.".to_string(),
            "Build task: \"\" is not an accepted flag.".to_string(),
        ])
    );
}

#[test]
fn abort_flag_on_generic_task() {
    assert_eq!(
        parse_arguments(&args(&["g[abort=task]"])),
        Ok(vec![GENERIC, Task::Generic { abort_level: Some(AbortLevel::FailTask) }, GENERIC])
    );
    assert_eq!(
        parse_arguments(&args(&["[abort=never]"])),
        Ok(vec![Task::Generic { abort_level: Some(AbortLevel::Never) }, GENERIC])
    );
    assert_eq!(
        parse_arguments(&args(&["g[abort=often]"])),
        Err(vec!["Generic task: \"often\" abort hint is invalid.".to_string()])
    );
    assert_eq!(
        parse_arguments(&args(&["g[abort]"])),
        Err(vec!["Generic task: \"abort\" flag should contain a value.".to_string()])
    );
    assert_eq!(
        parse_arguments(&args(&["g[level=1]"])),
        Err(vec!["Generic task: \"level\" is not an accepted flag.".to_string()])
    );
}

#[test]
fn flags_on_help_and_silent_tasks() {
    assert_eq!(
        parse_arguments(&args(&["h[x]"])),
        Err(vec![
            "Help task does not accept any flags.".to_string(),
            "Help task can only be used once and alone.".to_string(),
        ])
    );
    assert_eq!(
        parse_arguments(&args(&["i[size=1]"])),
        Ok(vec![
            GENERIC,
            Task::Image { size: 4194304, partition_table: PartitionTable::Mbr, arch: Arch::X86_64, release: false },
            GENERIC,
        ])
    );
}

#[test]
fn unclosed_bracket() {
    assert_eq!(
        parse_arguments(&args(&["b[release"])),
        Err(vec!["Brackets were not closed".to_string()])
    );
}

#[test]
fn opt_new_keeps_paths() {
    let opt = match Opt::new(&args(&["b"]), "/home/u".to_string(), "/bin/cargo".to_string()) {
        Ok(o) => o,
        Err(_) => panic!("valid arguments refused"),
    };
    assert_eq!(opt.abort_level, AbortLevel::FailAll);
    assert_eq!(opt.home_directory, "/home/u");
    assert_eq!(opt.cargo_bin, "/bin/cargo");
    assert_eq!(opt.tasks.len(), 2);
    match Opt::new(&args(&["q"]), String::new(), String::new()) {
        Ok(_) => panic!("invalid arguments accepted"),
        Err(e) => assert_eq!(e, vec!["There is no such task as 'q'.".to_string()]),
    }
}

#[test]
fn generic_task_sets_abort_level() {
    let mut opt = Opt::new(&args(&[]), String::new(), String::new()).ok().unwrap();
    opt.apply_generic(None);
    assert_eq!(opt.abort_level, AbortLevel::FailAll);
    opt.apply_generic(Some(AbortLevel::FinishTask));
    assert_eq!(opt.abort_level, AbortLevel::FinishTask);
}

#[test]
fn arch_names() {
    assert_eq!(Arch::current(), Arch::X86_64);
    assert_eq!(Arch::from_str("X86_64"), Some(Arch::X86_64));
    assert_eq!(Arch::from_str("x86_64"), None);
    assert_eq!(Arch::from_str(Arch::X86_64.as_str()), Some(Arch::X86_64));
    assert_eq!(Arch::X86_64.rust_target(), "x86_64-unknown-none");
    assert_eq!(Arch::X86_64.core_utils_target(), "x86_64-linux-gnu");
    assert_eq!(Arch::X86_64.qemu_command(), "qemu-system-x86_64");
    assert_eq!(Arch::X86_64.core_target(true), "target/x86_64-unknown-none/core-release/");
    assert_eq!(Arch::X86_64.core_target(false), "target/x86_64-unknown-none/core-dev/");
}

#[test]
fn abort_level_flag_values() {
    assert_eq!(AbortLevel::from_flag_value("all"), Some(AbortLevel::FailAll));
    assert_eq!(AbortLevel::from_flag_value("task"), Some(AbortLevel::FailTask));
    assert_eq!(AbortLevel::from_flag_value("rest"), Some(AbortLevel::FinishTask));
    assert_eq!(AbortLevel::from_flag_value("never"), Some(AbortLevel::Never));
    assert_eq!(AbortLevel::from_flag_value("All"), None);
}

#[test]
fn abort_control_per_level() {
    let cases = [
        (AbortLevel::Never, AbortControl::Continue, true),
        (AbortLevel::FinishTask, AbortControl::Continue, false),
        (AbortLevel::FailTask, AbortControl::Abort, true),
        (AbortLevel::FailAll, AbortControl::Abort, false),
    ];
    for (level, control, cont_after) in cases {
        let mut cont = true;
        assert_eq!(level.abort_control(&mut cont), control);
        assert_eq!(cont, cont_after);
        let mut cont = false;
        level.abort_control(&mut cont);
        assert!(!cont);
    }
    assert!(AbortControl::Abort.branch());
    assert!(!AbortControl::Continue.branch());
}
