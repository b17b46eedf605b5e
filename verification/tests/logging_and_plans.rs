use manage::logger::{Logger, MessageType};
use manage::opt::Arch;
use manage::plan::{
    bootsector_path, build_steps, decimal, disk_image_path, profile_name, qemu_arguments,
    qemu_program, sodalite_path,
};

#[test]
fn new_logger_lines() {
    let logger = Logger::new();
    assert_eq!(logger.info("hi"), "\x1b[0;1;34minfo\x1b[0m: hi\n");
    assert_eq!(logger.warn("w"), "\x1b[0;1;32mwarning\x1b[0m: w\n");
    assert_eq!(logger.err("e"), "\x1b[0;1;31merror\x1b[0m: e\n");
}

#[test]
fn indentation_follows_tabs() {
    let mut logger = Logger::new();
    logger.tab_up();
    logger.tab_up();
    assert_eq!(logger.current_tab, 2);
    assert_eq!(logger.info("x"), format!("{}\x1b[0;1;34minfo\x1b[0m: x\n", " ".repeat(8)));
    logger.tab_down();
    assert_eq!(logger.current_tab, 1);
    assert_eq!(logger.info("x"), format!("    \x1b[0;1;34minfo\x1b[0m: x\n"));
}

#[test]
fn plain_labels_and_user_input() {
    let logger = Logger { color: false, tab_size: 2, current_tab: 1 };
    assert_eq!(logger.write_message(MessageType::UserInput, "name?"), "  user input: name?");
    assert_eq!(logger.write_message(MessageType::Error, "bad"), "  err: bad\n");
    assert_eq!(MessageType::Warn.as_str(false), "warn");
    assert_eq!(MessageType::Info.as_str(false), "info");
    assert_eq!(MessageType::UserInput.as_str(true), "\x1b[0;1;33muser input\x1b[0m");
}

#[test]
fn build_commands() {
    let steps = build_steps(Arch::X86_64, false, "/bin/cargo");
    assert_eq!(steps.len(), 5);
    assert_eq!(steps[0].program, "/bin/cargo");
    assert_eq!(
        steps[0].args,
        vec!["build", "--target", "x86_64-unknown-none", "--profile", "core-dev", "--package", "sodalite"]
    );
    assert!(!steps[0].stops_task);
    assert_eq!(steps[1].program, "nasm");
    assert_eq!(
        steps[1].args,
        vec!["-f", "bin", "-o", "target/x86_64-unknown-none/core-dev/bootsector.bin", "Sodalite/X86_64/bootsector.asm"]
    );
    assert_eq!(steps[2].failed_status_error, "Entrypoint compilation failed,");
    assert_eq!(steps[3].program, "x86_64-linux-gnu-ld");
    assert_eq!(steps[3].not_exists_error, "x86_64-linux-gnu core-utils toolchain is not installed.");
    assert_eq!(steps[3].args[7], "target/x86_64-unknown-none/core-dev/libsodalite.a");
    assert_eq!(steps[4].program, "x86_64-linux-gnu-objcopy");
    assert_eq!(
        steps[4].args,
        vec![
            "-O",
            "binary",
            "target/x86_64-unknown-none/core-dev/sodalite.elf",
            "target/x86_64-unknown-none/core-dev/sodalite.bin"
        ]
    );
    assert!(steps[1..].iter().all(|s| s.stops_task));
    let release = build_steps(Arch::X86_64, true, "cargo");
    assert_eq!(release[0].args[4], "core-release");
}

#[test]
fn image_and_qemu_files() {
    assert_eq!(profile_name(true), "core-release");
    assert_eq!(bootsector_path(Arch::X86_64, true), "target/x86_64-unknown-none/core-release/bootsector.bin");
    assert_eq!(sodalite_path(Arch::X86_64, false), "target/x86_64-unknown-none/core-dev/sodalite.bin");
    assert_eq!(disk_image_path(), "target/disk.img");
    assert_eq!(qemu_program(Arch::X86_64), "qemu-system-x86_64");
    assert_eq!(
        qemu_arguments(67108864),
        vec!["-m", "67108864B", "-drive", "format=raw,file=target/disk.img", "-display", "gtk"]
    );
}

#[test]
fn decimal_numbers() {
    assert_eq!(decimal(0), "0");
    assert_eq!(decimal(7), "7");
    assert_eq!(decimal(10), "10");
    assert_eq!(decimal(1234567890), "1234567890");
}
