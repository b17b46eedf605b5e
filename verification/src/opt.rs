//! Command line options: tasks, target architectures, abort levels and
//! the parser that reads them from the arguments.

use vstd::prelude::*;
use crate::text::same_text;
use crate::args::{parse_arguments, parse_result, texts};

verus! {

/// What to do after an error.
#[derive(PartialEq, Eq, Structural, Clone, Copy, Debug)]
pub enum AbortControl {
    Continue,
    Abort,
}

impl AbortControl {
    /// Whether the caller stops here: `true` for `Abort`.
    pub fn branch(self) -> (stop: bool)
        ensures
            stop == (self == AbortControl::Abort),
    {
        match self {
            AbortControl::Continue => false,
            AbortControl::Abort => true,
        }
    }
}

/// A target architecture.
#[derive(PartialEq, Eq, Structural, Clone, Copy, Debug)]
pub enum Arch {
    X86_64,
}

/// The name of an architecture as written in flags.
pub open spec fn arch_name(arch: Arch) -> Seq<char> {
    match arch {
        Arch::X86_64 => "X86_64"@,
    }
}

/// The architecture that a flag value names, if any.
pub open spec fn arch_from_name(name: Seq<char>) -> Option<Arch> {
    if name == "X86_64"@ {
        Some(Arch::X86_64)
    } else {
        None
    }
}

/// The Rust target triple of an architecture.
pub open spec fn arch_rust_target(arch: Arch) -> Seq<char> {
    match arch {
        Arch::X86_64 => "x86_64-unknown-none"@,
    }
}

/// The binutils prefix of an architecture.
pub open spec fn arch_core_utils_target(arch: Arch) -> Seq<char> {
    match arch {
        Arch::X86_64 => "x86_64-linux-gnu"@,
    }
}

/// The QEMU program of an architecture.
pub open spec fn arch_qemu_command(arch: Arch) -> Seq<char> {
    match arch {
        Arch::X86_64 => "qemu-system-x86_64"@,
    }
}

impl Arch {
    /// The architecture this tool runs on (the only one supported).
    pub fn current() -> (arch: Self)
        ensures
            arch == Arch::X86_64,
    {
        Arch::X86_64
    }

    pub fn from_str(name: &str) -> (arch: Option<Self>)
        ensures
            arch == arch_from_name(name@),
    {
        if same_text(name, "X86_64") {
            Some(Arch::X86_64)
        } else {
            None
        }
    }

    pub fn as_str(self) -> (name: &'static str)
        ensures
            name@ == arch_name(self),
    {
        match self {
            Arch::X86_64 => "X86_64",
        }
    }

    /// The Rust target triple that Sodalite is built for.
    pub fn rust_target(self) -> (target: &'static str)
        ensures
            target@ == arch_rust_target(self),
    {
        match self {
            Arch::X86_64 => "x86_64-unknown-none",
        }
    }

    /// The prefix of the binutils (linker, objcopy) for this architecture.
    pub fn core_utils_target(self) -> (target: &'static str)
        ensures
            target@ == arch_core_utils_target(self),
    {
        match self {
            Arch::X86_64 => "x86_64-linux-gnu",
        }
    }

    /// The QEMU program that emulates this architecture.
    pub fn qemu_command(self) -> (command: &'static str)
        ensures
            command@ == arch_qemu_command(self),
    {
        match self {
            Arch::X86_64 => "qemu-system-x86_64",
        }
    }

    /// The directory that holds the build outputs:
    /// `target/<rust target>/core-release/` or `.../core-dev/`.
    pub fn core_target(self, release: bool) -> (dir: String)
        ensures
            dir@ == "target/"@ + arch_rust_target(self) + (if release {
                "/core-release/"@
            } else {
                "/core-dev/"@
            }),
    {
        let mut dir = "target/".to_owned();
        dir.append(self.rust_target());
        if release {
            dir.append("/core-release/");
        } else {
            dir.append("/core-dev/");
        }
        dir
    }
}

/// How far an error reaches.
#[derive(PartialEq, Eq, Structural, Clone, Copy, Debug)]
pub enum AbortLevel {
    /// Error aborts everything.
    FailAll,
    /// Error aborts current task, continuing others.
    FailTask,
    /// Finishes off the task after an error, aborting afterwards.
    FinishTask,
    /// Does never abort.
    Never,
}

/// The abort level that a flag value names, if any.
pub open spec fn abort_level_from_flag(value: Seq<char>) -> Option<AbortLevel> {
    if value == "all"@ {
        Some(AbortLevel::FailAll)
    } else if value == "task"@ {
        Some(AbortLevel::FailTask)
    } else if value == "rest"@ {
        Some(AbortLevel::FinishTask)
    } else if value == "never"@ {
        Some(AbortLevel::Never)
    } else {
        None
    }
}

impl AbortLevel {
    pub fn from_flag_value(value: &str) -> (level: Option<Self>)
        ensures
            level == abort_level_from_flag(value@),
    {
        if same_text(value, "all") {
            Some(Self::FailAll)
        } else if same_text(value, "task") {
            Some(Self::FailTask)
        } else if same_text(value, "rest") {
            Some(Self::FinishTask)
        } else if same_text(value, "never") {
            Some(Self::Never)
        } else {
            None
        }
    }

    /// Decides what an error does: the current task stops (`Abort`) under
    /// `FailTask` and `FailAll`; no task runs afterwards
    /// (`continue_afterwards` cleared) under `FinishTask` and `FailAll`.
    pub fn abort_control(&self, continue_afterwards: &mut bool) -> (control: AbortControl)
        ensures
            control == (if *self == AbortLevel::FailTask || *self == AbortLevel::FailAll {
                AbortControl::Abort
            } else {
                AbortControl::Continue
            }),
            *final(continue_afterwards) == (if *self == AbortLevel::FinishTask || *self
                == AbortLevel::FailAll {
                false
            } else {
                *old(continue_afterwards)
            }),
    {
        match self {
            AbortLevel::Never => AbortControl::Continue,
            AbortLevel::FinishTask => {
                *continue_afterwards = false;
                AbortControl::Continue
            },
            AbortLevel::FailTask => AbortControl::Abort,
            AbortLevel::FailAll => {
                *continue_afterwards = false;
                AbortControl::Abort
            },
        }
    }
}

/// The partition table that an image task asks for.
#[derive(PartialEq, Eq, Structural, Clone, Copy, Debug)]
pub enum PartitionTable {
    Mbr,
}

/// One unit of work asked for on the command line.
#[derive(PartialEq, Eq, Structural, Clone, Copy, Debug)]
pub enum Task {
    /// Makes parsing of arguments easier.
    Generic { abort_level: Option<AbortLevel> },
    Help,
    Build { release: bool, arch: Arch },
    Image { size: u64, partition_table: PartitionTable, arch: Arch, release: bool },
    RunQemu { memory: usize, arch: Arch },
}

/// Size of the disk image that an image task creates: 4 MiB.
pub const DEFAULT_IMAGE_SIZE: u64 = 4194304;

/// Memory given to QEMU by a run task: 64 MiB.
pub const DEFAULT_QEMU_MEMORY: usize = 67108864;


/// The options of a run: the abort level in force, where the user's home
/// and cargo are, and the tasks to do in order.
pub struct Opt {
    pub abort_level: AbortLevel,
    pub home_directory: String,
    pub cargo_bin: String,
    pub tasks: Vec<Task>,
}

impl Opt {
    /// Reads the options from the arguments (without the program name).
    /// The abort level starts at `FailAll`; on any syntax error every
    /// error message is returned instead.
    pub fn new(args: &Vec<String>, home_directory: String, cargo_bin: String) -> (r: Result<
        Self,
        Vec<String>,
    >)
        ensures
            match parse_result(texts(args@)) {
                Ok(tasks) => r matches Ok(opt) && opt.tasks@ == tasks && opt.abort_level
                    == AbortLevel::FailAll && opt.home_directory@ == home_directory@
                    && opt.cargo_bin@ == cargo_bin@,
                Err(errors) => r matches Err(e) && texts(e@) == errors,
            },
    {
        match parse_arguments(args) {
            Ok(tasks) => Ok(Self { abort_level: AbortLevel::FailAll, home_directory, cargo_bin, tasks }),
            Err(errors) => Err(errors),
        }
    }

    /// Runs a generic task: its abort level, when it names one, is in
    /// force from now on.
    pub fn apply_generic(&mut self, abort_level: Option<AbortLevel>)
        ensures
            final(self).abort_level == (match abort_level {
                Some(level) => level,
                None => old(self).abort_level,
            }),
            final(self).tasks@ == old(self).tasks@,
            final(self).home_directory@ == old(self).home_directory@,
            final(self).cargo_bin@ == old(self).cargo_bin@,
    {
        if let Some(level) = abort_level {
            self.abort_level = level;
        }
    }
}

/// Reading a flag value back from an architecture's name gives that
/// architecture.
pub proof fn lemma_arch_name_round_trip(arch: Arch)
    ensures
        arch_from_name(arch_name(arch)) == Some(arch),
{
}

} // verus!
