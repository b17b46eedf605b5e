//! The external commands and files that the tasks use: what to run to
//! build Sodalite, which build outputs make up the disk image, and how
//! QEMU is started.

use vstd::prelude::*;
use crate::text::{joined, push_char};
use crate::opt::{Arch, arch_core_utils_target, arch_qemu_command, arch_rust_target};

verus! {

/// One external command of a task, with the messages for its failures.
pub struct CommandStep {
    pub program: String,
    pub args: Vec<String>,
    /// Shown when the program cannot be started.
    pub not_exists_error: String,
    /// Shown, followed by the exit status, when the program fails.
    pub failed_status_error: String,
    /// Whether an `Abort` decided after a failure of this step ends the
    /// task. (The abort level is consulted in every case.)
    pub stops_task: bool,
}

/// A command step over mathematical values.
pub struct StepModel {
    pub program: Seq<char>,
    pub args: Seq<Seq<char>>,
    pub not_exists_error: Seq<char>,
    pub failed_status_error: Seq<char>,
    pub stops_task: bool,
}

pub open spec fn step_model(step: CommandStep) -> StepModel {
    StepModel {
        program: step.program@,
        args: step.args@.map_values(|a: String| a@),
        not_exists_error: step.not_exists_error@,
        failed_status_error: step.failed_status_error@,
        stops_task: step.stops_task,
    }
}

/// The build output directory of `arch.core_target(release)`.
pub open spec fn core_target_text(arch: Arch, release: bool) -> Seq<char> {
    "target/"@ + arch_rust_target(arch) + if release {
        "/core-release/"@
    } else {
        "/core-dev/"@
    }
}

/// The cargo profile of a build.
pub open spec fn core_profile(release: bool) -> Seq<char> {
    if release {
        "core-release"@
    } else {
        "core-dev"@
    }
}

/// The commands of a build task, in order: cargo builds Sodalite (a
/// failure there does not end the task), nasm assembles the boot sector
/// and the entry point, the linker links Sodalite and objcopy makes a flat
/// binary of it.
pub open spec fn build_step_models(arch: Arch, release: bool, cargo_bin: Seq<char>) -> Seq<
    StepModel,
> {
    let dir = core_target_text(arch, release);
    let utils = arch_core_utils_target(arch);
    seq![
        StepModel {
            program: cargo_bin,
            args: seq![
                "build"@,
                "--target"@,
                arch_rust_target(arch),
                "--profile"@,
                core_profile(release),
                "--package"@,
                "sodalite"@,
            ],
            not_exists_error: "Rust is not installed."@,
            failed_status_error: "Main part compilation failed,"@,
            stops_task: false,
        },
        StepModel {
            program: "nasm"@,
            args: seq![
                "-f"@,
                "bin"@,
                "-o"@,
                dir + "bootsector.bin"@,
                "Sodalite/X86_64/bootsector.asm"@,
            ],
            not_exists_error: "Nasm is not installed."@,
            failed_status_error: "Bootsector compilation failed,"@,
            stops_task: true,
        },
        StepModel {
            program: "nasm"@,
            args: seq![
                "-f"@,
                "elf64"@,
                "-o"@,
                dir + "sodalite entry.o"@,
                "Sodalite/X86_64/rust-entry.asm"@,
            ],
            not_exists_error: "Nasm is not installed."@,
            failed_status_error: "Entrypoint compilation failed,"@,
            stops_task: true,
        },
        StepModel {
            program: utils + "-ld"@,
            args: seq![
                "--gc-sections"@,
                "-Ttext=0x7e00"@,
                "-o"@,
                dir + "sodalite.elf"@,
                "-T"@,
                "Sodalite/X86_64/link.ld"@,
                dir + "sodalite entry.o"@,
                dir + "libsodalite.a"@,
            ],
            not_exists_error: utils + " core-utils toolchain is not installed."@,
            failed_status_error: "Failed to link Sodalite,"@,
            stops_task: true,
        },
        StepModel {
            program: utils + "-objcopy"@,
            args: seq!["-O"@, "binary"@, dir + "sodalite.elf"@, dir + "sodalite.bin"@],
            not_exists_error: utils + " core-utils toolchain is not installed."@,
            failed_status_error: "Failed to create flat binary of Sodalite,"@,
            stops_task: true,
        },
    ]
}

/// A list of strings built one by one.
struct ArgList {
    items: Vec<String>,
}

impl ArgList {
    spec fn texts(&self) -> Seq<Seq<char>> {
        self.items@.map_values(|a: String| a@)
    }

    fn new() -> (l: Self)
        ensures
            l.texts() == Seq::<Seq<char>>::empty(),
    {
        let l = ArgList { items: Vec::new() };
        assert(l.texts() =~= Seq::<Seq<char>>::empty());
        l
    }

    fn add(&mut self, s: String)
        ensures
            final(self).texts() == old(self).texts().push(s@),
    {
        self.items.push(s);
        assert(self.texts() =~= old(self).texts().push(s@));
    }

    fn add_str(&mut self, s: &str)
        ensures
            final(self).texts() == old(self).texts().push(s@),
    {
        self.add(s.to_owned());
    }
}

fn step(
    program: String,
    args: ArgList,
    not_exists_error: String,
    failed_status_error: &str,
    stops_task: bool,
) -> (s: CommandStep)
    ensures
        step_model(s) == (StepModel {
            program: program@,
            args: args.texts(),
            not_exists_error: not_exists_error@,
            failed_status_error: failed_status_error@,
            stops_task,
        }),
{
    CommandStep {
        program,
        args: args.items,
        not_exists_error,
        failed_status_error: failed_status_error.to_owned(),
        stops_task,
    }
}

/// The commands that a build task runs, as `build_step_models` lists them.
pub fn build_steps(arch: Arch, release: bool, cargo_bin: &str) -> (steps: Vec<CommandStep>)
    ensures
        steps@.map_values(|s: CommandStep| step_model(s)) == build_step_models(
            arch,
            release,
            cargo_bin@,
        ),
{
    let dir = arch.core_target(release);
    let utils = arch.core_utils_target();
    let profile = if release {
        "core-release"
    } else {
        "core-dev"
    };
    let mut steps: Vec<CommandStep> = Vec::new();
    let ghost expected = build_step_models(arch, release, cargo_bin@);

    let mut a = ArgList::new();
    a.add_str("build");
    a.add_str("--target");
    a.add_str(arch.rust_target());
    a.add_str("--profile");
    a.add_str(profile);
    a.add_str("--package");
    a.add_str("sodalite");
    assert(a.texts() =~= expected[0].args);
    steps.push(
        step(
            cargo_bin.to_owned(),
            a,
            "Rust is not installed.".to_owned(),
            "Main part compilation failed,",
            false,
        ),
    );
    assert(step_model(steps@[0]) == expected[0]);

    let mut a = ArgList::new();
    a.add_str("-f");
    a.add_str("bin");
    a.add_str("-o");
    a.add(joined(dir.as_str(), "bootsector.bin"));
    a.add_str("Sodalite/X86_64/bootsector.asm");
    assert(a.texts() =~= expected[1].args);
    steps.push(
        step(
            "nasm".to_owned(),
            a,
            "Nasm is not installed.".to_owned(),
            "Bootsector compilation failed,",
            true,
        ),
    );
    assert(step_model(steps@[1]) == expected[1]);

    let mut a = ArgList::new();
    a.add_str("-f");
    a.add_str("elf64");
    a.add_str("-o");
    a.add(joined(dir.as_str(), "sodalite entry.o"));
    a.add_str("Sodalite/X86_64/rust-entry.asm");
    assert(a.texts() =~= expected[2].args);
    steps.push(
        step(
            "nasm".to_owned(),
            a,
            "Nasm is not installed.".to_owned(),
            "Entrypoint compilation failed,",
            true,
        ),
    );
    assert(step_model(steps@[2]) == expected[2]);

    let mut a = ArgList::new();
    a.add_str("--gc-sections");
    a.add_str("-Ttext=0x7e00");
    a.add_str("-o");
    a.add(joined(dir.as_str(), "sodalite.elf"));
    a.add_str("-T");
    a.add_str("Sodalite/X86_64/link.ld");
    a.add(joined(dir.as_str(), "sodalite entry.o"));
    a.add(joined(dir.as_str(), "libsodalite.a"));
    assert(a.texts() =~= expected[3].args);
    steps.push(
        step(
            joined(utils, "-ld"),
            a,
            joined(utils, " core-utils toolchain is not installed."),
            "Failed to link Sodalite,",
            true,
        ),
    );
    assert(step_model(steps@[3]) == expected[3]);

    let mut a = ArgList::new();
    a.add_str("-O");
    a.add_str("binary");
    a.add(joined(dir.as_str(), "sodalite.elf"));
    a.add(joined(dir.as_str(), "sodalite.bin"));
    assert(a.texts() =~= expected[4].args);
    steps.push(
        step(
            joined(utils, "-objcopy"),
            a,
            joined(utils, " core-utils toolchain is not installed."),
            "Failed to create flat binary of Sodalite,",
            true,
        ),
    );
    assert(step_model(steps@[4]) == expected[4]);

    assert(steps@.map_values(|s: CommandStep| step_model(s)) =~= expected);
    steps
}

/// The cargo profile of a build, as a string.
pub fn profile_name(release: bool) -> (name: &'static str)
    ensures
        name@ == core_profile(release),
{
    if release {
        "core-release"
    } else {
        "core-dev"
    }
}

/// The boot sector that an image task reads.
pub fn bootsector_path(arch: Arch, release: bool) -> (path: String)
    ensures
        path@ == core_target_text(arch, release) + "bootsector.bin"@,
{
    let dir = arch.core_target(release);
    joined(dir.as_str(), "bootsector.bin")
}

/// The flat Sodalite binary that an image task reads.
pub fn sodalite_path(arch: Arch, release: bool) -> (path: String)
    ensures
        path@ == core_target_text(arch, release) + "sodalite.bin"@,
{
    let dir = arch.core_target(release);
    joined(dir.as_str(), "sodalite.bin")
}

/// The disk image that image tasks create and run tasks boot.
pub fn disk_image_path() -> (path: &'static str)
    ensures
        path@ == "target/disk.img"@,
{
    "target/disk.img"
}

/// The decimal digit character of `d`.
pub open spec fn digit_char(d: nat) -> char {
    (d + 48) as char
}

/// The decimal notation of `n`, without leading zeros.
pub open spec fn decimal_text(n: nat) -> Seq<char>
    decreases n,
{
    if n < 10 {
        seq![digit_char(n)]
    } else {
        decimal_text(n / 10).push(digit_char(n % 10))
    }
}

fn digit(d: usize) -> (c: char)
    requires
        d < 10,
    ensures
        c == digit_char(d as nat),
{
    if d == 0 { '0' }
    else if d == 1 { '1' }
    else if d == 2 { '2' }
    else if d == 3 { '3' }
    else if d == 4 { '4' }
    else if d == 5 { '5' }
    else if d == 6 { '6' }
    else if d == 7 { '7' }
    else if d == 8 { '8' }
    else { '9' }
}

/// Writes `n` in decimal.
pub fn decimal(n: usize) -> (s: String)
    ensures
        s@ == decimal_text(n as nat),
    decreases n,
{
    if n < 10 {
        let mut s = String::new();
        push_char(&mut s, digit(n));
        assert(s@ =~= seq![digit_char(n as nat)]);
        s
    } else {
        let mut s = decimal(n / 10);
        push_char(&mut s, digit(n % 10));
        s
    }
}

/// The arguments QEMU is started with: `memory` bytes of RAM, the disk
/// image as a raw drive, a GTK window.
pub fn qemu_arguments(memory: usize) -> (args: Vec<String>)
    ensures
        args@.map_values(|a: String| a@) == seq![
            "-m"@,
            decimal_text(memory as nat) + "B"@,
            "-drive"@,
            "format=raw,file=target/disk.img"@,
            "-display"@,
            "gtk"@,
        ],
{
    let mut a = ArgList::new();
    a.add_str("-m");
    let mut m = decimal(memory);
    m.append("B");
    a.add(m);
    a.add_str("-drive");
    a.add_str("format=raw,file=target/disk.img");
    a.add_str("-display");
    a.add_str("gtk");
    assert(a.texts() =~= seq![
        "-m"@,
        decimal_text(memory as nat) + "B"@,
        "-drive"@,
        "format=raw,file=target/disk.img"@,
        "-display"@,
        "gtk"@,
    ]);
    a.items
}

/// The QEMU program for `arch`.
pub fn qemu_program(arch: Arch) -> (program: &'static str)
    ensures
        program@ == arch_qemu_command(arch),
{
    arch.qemu_command()
}


/// The lowercase hexadecimal digit of `d`.
pub open spec fn hex_digit(d: nat) -> char {
    if d < 10 {
        (d + 48) as char
    } else {
        (d - 10 + 97) as char
    }
}

/// The lowercase hexadecimal notation of `n`, without leading zeros.
pub open spec fn hex_text(n: nat) -> Seq<char>
    decreases n,
{
    if n < 16 {
        seq![hex_digit(n)]
    } else {
        hex_text(n / 16).push(hex_digit(n % 16))
    }
}

/// Address at which the BIOS loads the boot sector.
pub open spec fn boot_sector_address() -> nat {
    0x7c00
}

/// The link step places Sodalite's code at the boot sector's load address
/// plus 512: the address at which the boot sector loads the code that the
/// image holds from byte 512 (sector 1) on. Whatever the architecture,
/// profile or cargo path, the fourth command is the linker and its second
/// argument is `-Ttext=0x` and that address.
pub proof fn lemma_link_address(arch: Arch, release: bool, cargo_bin: Seq<char>)
    ensures
        build_step_models(arch, release, cargo_bin).len() == 5,
        build_step_models(arch, release, cargo_bin)[3].program == arch_core_utils_target(arch)
            + "-ld"@,
        build_step_models(arch, release, cargo_bin)[3].args[1] == "-Ttext=0x"@ + hex_text(
            boot_sector_address() + 512,
        ),
{
    reveal_strlit("-Ttext=0x7e00");
    reveal_strlit("-Ttext=0x");
    reveal_with_fuel(hex_text, 5);
    assert(hex_text(32256) =~= seq!['7', 'e', '0', '0']);
    assert("-Ttext=0x7e00"@ =~= "-Ttext=0x"@ + hex_text(boot_sector_address() + 512));
}

} // verus!
