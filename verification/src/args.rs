//! The command line parser.
//!
//! Every argument, followed by a space, is read character by character.
//! Outside brackets a letter picks a task (`h`elp, `b`uild, `i`mage,
//! `r`un in QEMU, `g`eneric); each letter, and each space, first hands the
//! task picked before it to the task list. `[` opens a list of flags
//! `name=value` or `name` separated by `,` and closed by `]`, which apply
//! to the task picked last and hand it to the list.

use vstd::prelude::*;
use crate::text::push_char;
use crate::opt::{
    AbortLevel,
    Arch,
    PartitionTable,
    Task,
    arch_from_name,
    abort_level_from_flag,
    DEFAULT_IMAGE_SIZE,
    DEFAULT_QEMU_MEMORY,
};

verus! {

/// Whether the parser reads task letters or a flag list.
#[derive(PartialEq, Eq, Structural, Clone, Copy, Debug)]
pub enum ArgState {
    Task,
    /// `flag_part` is false while reading a flag's name, true after `=`.
    Config { flag_part: bool },
}

/// The parser's state, over mathematical values.
pub struct ParseModel {
    pub state: ArgState,
    pub tasks: Seq<Task>,
    pub current_task: Task,
    pub flag_name: Seq<char>,
    pub flag_value: Seq<char>,
    pub errors: Seq<Seq<char>>,
    pub help_was_used: bool,
    pub arch: Arch,
    pub release: bool,
}

/// The task that the parser starts from and returns to after `]`.
pub open spec fn empty_generic() -> Task {
    Task::Generic { abort_level: None }
}

pub open spec fn initial_model() -> ParseModel {
    ParseModel {
        state: ArgState::Task,
        tasks: Seq::empty(),
        current_task: empty_generic(),
        flag_name: Seq::empty(),
        flag_value: Seq::empty(),
        errors: Seq::empty(),
        help_was_used: false,
        arch: Arch::X86_64,
        release: false,
    }
}

pub open spec fn no_such_task_message(c: char) -> Seq<char> {
    "There is no such task as '"@ + seq![c] + "'."@
}

pub open spec fn unsupported_arch_message(value: Seq<char>) -> Seq<char> {
    "Build Task: \""@ + value + "\" architecture is not supported."@
}

pub open spec fn arch_needs_value_message(name: Seq<char>) -> Seq<char> {
    "Build task: \""@ + name + "\" should contain a value."@
}

pub open spec fn build_flag_message(name: Seq<char>) -> Seq<char> {
    "Build task: \""@ + name + "\" is not an accepted flag."@
}

pub open spec fn abort_hint_message(value: Seq<char>) -> Seq<char> {
    "Generic task: \""@ + value + "\" abort hint is invalid."@
}

pub open spec fn generic_flag_message(name: Seq<char>) -> Seq<char> {
    "Generic task: \""@ + name + "\" is not an accepted flag."@
}

/// A character read outside brackets.
pub open spec fn task_char_step(m: ParseModel, c: char) -> ParseModel {
    let before = m.current_task;
    let next = if c == 'h' {
        ParseModel { current_task: Task::Help, help_was_used: true, ..m }
    } else if c == 'b' {
        ParseModel { current_task: Task::Build { release: false, arch: m.arch }, release: false, ..m }
    } else if c == 'i' {
        ParseModel {
            current_task: Task::Image {
                size: DEFAULT_IMAGE_SIZE,
                partition_table: PartitionTable::Mbr,
                arch: m.arch,
                release: m.release,
            },
            ..m
        }
    } else if c == 'r' {
        ParseModel { current_task: Task::RunQemu { memory: DEFAULT_QEMU_MEMORY, arch: m.arch }, ..m }
    } else if c == 'g' {
        ParseModel { current_task: empty_generic(), ..m }
    } else if c == '[' {
        ParseModel { state: ArgState::Config { flag_part: false }, ..m }
    } else if c == ' ' {
        m
    } else {
        ParseModel { errors: m.errors.push(no_such_task_message(c)), ..m }
    };
    if next.errors.len() == m.errors.len() && next.state == ArgState::Task {
        ParseModel { tasks: next.tasks.push(before), ..next }
    } else {
        next
    }
}

/// The flags of a build task: `release` (no value), `arch` or
/// `architecture` (with a value).
pub open spec fn build_flag(m: ParseModel, flag_part: bool, release: bool, arch: Arch) -> ParseModel {
    if m.flag_name == "release"@ {
        if flag_part {
            ParseModel {
                errors: m.errors.push("Build task: release flag does not accept a value."@),
                ..m
            }
        } else {
            ParseModel { current_task: Task::Build { release: true, arch }, release: true, ..m }
        }
    } else if m.flag_name == "arch"@ || m.flag_name == "architecture"@ {
        if flag_part {
            match arch_from_name(m.flag_value) {
                Some(v) => ParseModel { current_task: Task::Build { release, arch: v }, arch: v, ..m },
                None => ParseModel {
                    errors: m.errors.push(unsupported_arch_message(m.flag_value)),
                    ..m
                },
            }
        } else {
            ParseModel { errors: m.errors.push(arch_needs_value_message(m.flag_name)), ..m }
        }
    } else {
        ParseModel { errors: m.errors.push(build_flag_message(m.flag_name)), ..m }
    }
}

/// The flag of a generic task: `abort` with a value.
pub open spec fn generic_flag(m: ParseModel, flag_part: bool) -> ParseModel {
    if m.flag_name == "abort"@ {
        if flag_part {
            match abort_level_from_flag(m.flag_value) {
                Some(v) => ParseModel { current_task: Task::Generic { abort_level: Some(v) }, ..m },
                None => ParseModel {
                    errors: m.errors.push(abort_hint_message(m.flag_value)),
                    ..m
                },
            }
        } else {
            ParseModel {
                errors: m.errors.push("Generic task: \"abort\" flag should contain a value."@),
                ..m
            }
        }
    } else {
        ParseModel { errors: m.errors.push(generic_flag_message(m.flag_name)), ..m }
    }
}

/// Applies the flag read so far (at `,` or `]`) to the current task.
pub open spec fn apply_flag(m: ParseModel, flag_part: bool) -> ParseModel {
    let m1 = if m.flag_name.len() == 0 {
        ParseModel { errors: m.errors.push("Flag or value is empty."@), ..m }
    } else {
        m
    };
    match m1.current_task {
        Task::Help => ParseModel {
            errors: m1.errors.push("Help task does not accept any flags."@),
            ..m1
        },
        Task::Build { release, arch } => build_flag(m1, flag_part, release, arch),
        Task::Image { .. } => m1,
        Task::RunQemu { .. } => m1,
        Task::Generic { .. } => generic_flag(m1, flag_part),
    }
}

/// A character read inside brackets.
pub open spec fn config_char_step(m: ParseModel, flag_part: bool, c: char) -> ParseModel {
    if c == '=' {
        ParseModel { state: ArgState::Config { flag_part: true }, ..m }
    } else if c == ',' || c == ']' {
        let m1 = if !(m.flag_name.len() == 0 && m.flag_value.len() == 0) {
            apply_flag(m, flag_part)
        } else {
            m
        };
        let m2 = ParseModel {
            state: ArgState::Config { flag_part: false },
            flag_name: Seq::empty(),
            flag_value: Seq::empty(),
            ..m1
        };
        if c == ']' {
            ParseModel {
                state: ArgState::Task,
                tasks: m2.tasks.push(m2.current_task),
                current_task: empty_generic(),
                ..m2
            }
        } else {
            m2
        }
    } else if flag_part {
        ParseModel { flag_value: m.flag_value.push(c), ..m }
    } else {
        ParseModel { flag_name: m.flag_name.push(c), ..m }
    }
}

pub open spec fn parse_step(m: ParseModel, c: char) -> ParseModel {
    match m.state {
        ArgState::Task => task_char_step(m, c),
        ArgState::Config { flag_part } => config_char_step(m, flag_part, c),
    }
}

/// The state after reading `chars` from `m`.
pub open spec fn parse_chars(m: ParseModel, chars: Seq<char>) -> ParseModel
    decreases chars.len(),
{
    if chars.len() == 0 {
        m
    } else {
        parse_step(parse_chars(m, chars.drop_last()), chars.last())
    }
}

/// The characters the parser reads: each argument followed by a space.
pub open spec fn argument_chars(args: Seq<Seq<char>>) -> Seq<char>
    decreases args.len(),
{
    if args.len() == 0 {
        Seq::empty()
    } else {
        argument_chars(args.drop_last()) + args.last().push(' ')
    }
}

/// The checks made after the last character.
pub open spec fn finish(m: ParseModel) -> ParseModel {
    let m1 = if m.help_was_used && m.tasks.len() != 2 {
        ParseModel {
            errors: m.errors.push("Help task can only be used once and alone."@),
            ..m
        }
    } else {
        m
    };
    match m1.state {
        ArgState::Config { .. } => ParseModel {
            errors: m1.errors.push("Brackets were not closed"@),
            ..m1
        },
        ArgState::Task => m1,
    }
}

/// The outcome of parsing `args`: the tasks, or every error message.
pub open spec fn parse_result(args: Seq<Seq<char>>) -> Result<Seq<Task>, Seq<Seq<char>>> {
    let m = finish(parse_chars(initial_model(), argument_chars(args)));
    if m.errors.len() != 0 {
        Err(m.errors)
    } else {
        Ok(m.tasks)
    }
}

/// The texts of a list of strings.
pub open spec fn texts(v: Seq<String>) -> Seq<Seq<char>> {
    v.map_values(|s: String| s@)
}

/// `prefix`, then `middle`, then `suffix`.
fn message(prefix: &str, middle: &str, suffix: &str) -> (m: String)
    ensures
        m@ == prefix@ + middle@ + suffix@,
{
    let mut m = prefix.to_owned();
    m.append(middle);
    m.append(suffix);
    m
}

struct Parser {
    state: ArgState,
    tasks: Vec<Task>,
    current_task: Task,
    flag_name: String,
    flag_value: String,
    errors: Vec<String>,
    help_was_used: bool,
    arch: Arch,
    release: bool,
}

impl Parser {
    spec fn model(&self) -> ParseModel {
        ParseModel {
            state: self.state,
            tasks: self.tasks@,
            current_task: self.current_task,
            flag_name: self.flag_name@,
            flag_value: self.flag_value@,
            errors: texts(self.errors@),
            help_was_used: self.help_was_used,
            arch: self.arch,
            release: self.release,
        }
    }

    fn new() -> (p: Self)
        ensures
            p.model() == initial_model(),
    {
        let p = Parser {
            state: ArgState::Task,
            tasks: Vec::new(),
            current_task: Task::Generic { abort_level: None },
            flag_name: String::new(),
            flag_value: String::new(),
            errors: Vec::new(),
            help_was_used: false,
            arch: Arch::current(),
            release: false,
        };
        assert(p.model().errors =~= Seq::<Seq<char>>::empty());
        p
    }

    fn error(&mut self, m: String)
        ensures
            final(self).model() == (ParseModel {
                errors: old(self).model().errors.push(m@),
                ..old(self).model()
            }),
    {
        self.errors.push(m);
        assert(texts(self.errors@) =~= texts(old(self).errors@).push(m@));
    }

    fn task_char(&mut self, c: char)
        requires
            old(self).state == ArgState::Task,
        ensures
            final(self).model() == task_char_step(old(self).model(), c),
    {
        let error_count_before = self.errors.len();
        let current_task_before = self.current_task;
        if c == 'h' {
            self.current_task = Task::Help;
            self.help_was_used = true;
        } else if c == 'b' {
            self.current_task = Task::Build { release: false, arch: self.arch };
            self.release = false;
        } else if c == 'i' {
            self.current_task = Task::Image {
                size: DEFAULT_IMAGE_SIZE,
                partition_table: PartitionTable::Mbr,
                arch: self.arch,
                release: self.release,
            };
        } else if c == 'r' {
            self.current_task = Task::RunQemu { memory: DEFAULT_QEMU_MEMORY, arch: self.arch };
        } else if c == 'g' {
            self.current_task = Task::Generic { abort_level: None };
        } else if c == '[' {
            self.state = ArgState::Config { flag_part: false };
        } else if c == ' ' {
        } else {
            let mut m = "There is no such task as '".to_owned();
            push_char(&mut m, c);
            m.append("'.");
            assert(m@ == no_such_task_message(c));
            self.error(m);
        }
        let in_task_state = match self.state {
            ArgState::Task => true,
            ArgState::Config { .. } => false,
        };
        if error_count_before == self.errors.len() && in_task_state {
            self.tasks.push(current_task_before);
        }
    }

    fn build_flag(&mut self, flag_part: bool, release: bool, arch: Arch)
        ensures
            final(self).model() == build_flag(old(self).model(), flag_part, release, arch),
    {
        if self.flag_name == "release".to_owned() {
            if flag_part {
                self.error("Build task: release flag does not accept a value.".to_owned());
            } else {
                self.current_task = Task::Build { release: true, arch };
                self.release = true;
            }
        } else if self.flag_name == "arch".to_owned() || self.flag_name == "architecture".to_owned() {
            if flag_part {
                match Arch::from_str(self.flag_value.as_str()) {
                    Some(v) => {
                        self.current_task = Task::Build { release, arch: v };
                        self.arch = v;
                    },
                    None => {
                        let m = message(
                            "Build Task: \"",
                            self.flag_value.as_str(),
                            "\" architecture is not supported.",
                        );
                        self.error(m);
                    },
                }
            } else {
                let m = message("Build task: \"", self.flag_name.as_str(), "\" should contain a value.");
                self.error(m);
            }
        } else {
            let m = message("Build task: \"", self.flag_name.as_str(), "\" is not an accepted flag.");
            self.error(m);
        }
    }

    fn generic_flag(&mut self, flag_part: bool)
        ensures
            final(self).model() == generic_flag(old(self).model(), flag_part),
    {
        if self.flag_name == "abort".to_owned() {
            if flag_part {
                match AbortLevel::from_flag_value(self.flag_value.as_str()) {
                    Some(v) => {
                        self.current_task = Task::Generic { abort_level: Some(v) };
                    },
                    None => {
                        let m = message(
                            "Generic task: \"",
                            self.flag_value.as_str(),
                            "\" abort hint is invalid.",
                        );
                        self.error(m);
                    },
                }
            } else {
                self.error("Generic task: \"abort\" flag should contain a value.".to_owned());
            }
        } else {
            let m = message("Generic task: \"", self.flag_name.as_str(), "\" is not an accepted flag.");
            self.error(m);
        }
    }

    fn apply_flag(&mut self, flag_part: bool)
        ensures
            final(self).model() == apply_flag(old(self).model(), flag_part),
    {
        if self.flag_name.as_str().is_empty() {
            self.error("Flag or value is empty.".to_owned());
        }
        match self.current_task {
            Task::Help => self.error("Help task does not accept any flags.".to_owned()),
            Task::Build { release, arch } => self.build_flag(flag_part, release, arch),
            Task::Image { .. } => {},
            Task::RunQemu { .. } => {},
            Task::Generic { .. } => self.generic_flag(flag_part),
        }
    }

    fn config_char(&mut self, flag_part: bool, c: char)
        requires
            old(self).state == (ArgState::Config { flag_part }),
        ensures
            final(self).model() == config_char_step(old(self).model(), flag_part, c),
    {
        if c == '=' {
            self.state = ArgState::Config { flag_part: true };
        } else if c == ',' || c == ']' {
            if !(self.flag_name.as_str().is_empty() && self.flag_value.as_str().is_empty()) {
                self.apply_flag(flag_part);
            }
            self.state = ArgState::Config { flag_part: false };
            self.flag_name = String::new();
            self.flag_value = String::new();
            if c == ']' {
                self.state = ArgState::Task;
                self.tasks.push(self.current_task);
                self.current_task = Task::Generic { abort_level: None };
            }
        } else if flag_part {
            push_char(&mut self.flag_value, c);
        } else {
            push_char(&mut self.flag_name, c);
        }
    }

    fn step(&mut self, c: char)
        ensures
            final(self).model() == parse_step(old(self).model(), c),
    {
        match self.state {
            ArgState::Task => self.task_char(c),
            ArgState::Config { flag_part } => self.config_char(flag_part, c),
        }
    }

    fn finish(&mut self)
        ensures
            final(self).model() == finish(old(self).model()),
    {
        if self.help_was_used && self.tasks.len() != 2 {
            self.error("Help task can only be used once and alone.".to_owned());
        }
        match self.state {
            ArgState::Config { .. } => self.error("Brackets were not closed".to_owned()),
            ArgState::Task => {},
        }
    }
}

proof fn lemma_argument_chars_push(args: Seq<Seq<char>>, i: int)
    requires
        0 <= i < args.len(),
    ensures
        argument_chars(args.take(i + 1)) == argument_chars(args.take(i)) + args[i].push(' '),
{
    assert(args.take(i + 1).drop_last() =~= args.take(i));
}

proof fn lemma_parse_chars_push(m: ParseModel, chars: Seq<char>, c: char)
    ensures
        parse_chars(m, chars.push(c)) == parse_step(parse_chars(m, chars), c),
{
    assert(chars.push(c).drop_last() =~= chars);
}

/// Parses the arguments (without the program name), as `parse_result`
/// states it: the tasks, or the error messages in the order found.
pub fn parse_arguments(args: &Vec<String>) -> (r: Result<Vec<Task>, Vec<String>>)
    ensures
        match parse_result(texts(args@)) {
            Ok(tasks) => r matches Ok(t) && t@ == tasks,
            Err(errors) => r matches Err(e) && texts(e@) == errors,
        },
{
    let ghost all = texts(args@);
    let mut parser = Parser::new();
    let mut i: usize = 0;
    while i < args.len()
        invariant
            0 <= i <= args@.len(),
            all == texts(args@),
            parser.model() == parse_chars(initial_model(), argument_chars(all.take(i as int))),
        decreases args@.len() - i,
    {
        let arg: &str = args[i].as_str();
        let ghost before = argument_chars(all.take(i as int));
        let n = arg.unicode_len();
        let mut j: usize = 0;
        while j < n
            invariant
                0 <= j <= n,
                n == arg@.len(),
                parser.model() == parse_chars(initial_model(), before + arg@.take(j as int)),
            decreases n - j,
        {
            let c = arg.get_char(j);
            proof {
                lemma_parse_chars_push(initial_model(), before + arg@.take(j as int), c);
                assert((before + arg@.take(j as int)).push(c) =~= before + arg@.take(j + 1));
            }
            parser.step(c);
            j = j + 1;
        }
        proof {
            lemma_parse_chars_push(initial_model(), before + arg@.take(j as int), ' ');
            lemma_argument_chars_push(all, i as int);
            assert(arg@.take(j as int) =~= arg@);
            assert(all[i as int] == arg@);
            assert((before + arg@).push(' ') =~= before + arg@.push(' '));
        }
        parser.step(' ');
        i = i + 1;
    }
    assert(all.take(i as int) =~= all);
    parser.finish();
    if parser.errors.len() != 0 {
        Err(parser.errors)
    } else {
        Ok(parser.tasks)
    }
}


/// Once a help task is picked, the parser remembers it.
pub open spec fn help_tracked(m: ParseModel) -> bool {
    (m.tasks.contains(Task::Help) || m.current_task == Task::Help) ==> m.help_was_used
}

/// Image and run tasks carry the fixed image size, partition table and
/// QEMU memory.
pub open spec fn task_has_defaults(t: Task) -> bool {
    match t {
        Task::Image { size, partition_table, .. } => size == DEFAULT_IMAGE_SIZE
            && partition_table == PartitionTable::Mbr,
        Task::RunQemu { memory, .. } => memory == DEFAULT_QEMU_MEMORY,
        _ => true,
    }
}

pub open spec fn defaults_kept(m: ParseModel) -> bool {
    &&& task_has_defaults(m.current_task)
    &&& forall|i: int| 0 <= i < m.tasks.len() ==> task_has_defaults(#[trigger] m.tasks[i])
}

proof fn lemma_push_contains(s: Seq<Task>, x: Task)
    ensures
        s.push(x).contains(Task::Help) ==> s.contains(Task::Help) || x == Task::Help,
{
    if s.push(x).contains(Task::Help) {
        let k = choose|k: int| 0 <= k < s.push(x).len() && s.push(x)[k] == Task::Help;
        if k < s.len() {
            assert(s[k] == Task::Help);
        }
    }
}

proof fn lemma_step_invariants(m: ParseModel, c: char)
    requires
        help_tracked(m),
        defaults_kept(m),
    ensures
        help_tracked(parse_step(m, c)),
        defaults_kept(parse_step(m, c)),
        m.help_was_used ==> parse_step(m, c).help_was_used,
{
    lemma_push_contains(m.tasks, m.current_task);
    let n = parse_step(m, c);
    match m.state {
        ArgState::Task => {
        },
        ArgState::Config { flag_part } => {
            if c == ',' || c == ']' {
                let m1 = if !(m.flag_name.len() == 0 && m.flag_value.len() == 0) {
                    apply_flag(m, flag_part)
                } else {
                    m
                };
                assert(m1.tasks == m.tasks);
                assert(m1.current_task != Task::Help || m.current_task == Task::Help);
                lemma_push_contains(m1.tasks, m1.current_task);
            }
        },
    }
}

proof fn lemma_chars_invariants(m: ParseModel, chars: Seq<char>)
    requires
        help_tracked(m),
        defaults_kept(m),
    ensures
        help_tracked(parse_chars(m, chars)),
        defaults_kept(parse_chars(m, chars)),
    decreases chars.len(),
{
    if chars.len() > 0 {
        lemma_chars_invariants(m, chars.drop_last());
        lemma_step_invariants(parse_chars(m, chars.drop_last()), chars.last());
    }
}

/// "Help task can only be used once and alone": a successful parse that
/// holds a help task holds exactly two tasks (the empty generic task that
/// the help letter hands on, and the help task).
pub proof fn lemma_help_alone(args: Seq<Seq<char>>)
    ensures
        parse_result(args) matches Ok(tasks) ==> (tasks.contains(Task::Help) ==> tasks.len() == 2),
{
    lemma_chars_invariants(initial_model(), argument_chars(args));
}

/// Every image task that a successful parse returns has the 4 MiB size and
/// an MBR, and every run task 64 MiB of memory.
pub proof fn lemma_task_defaults(args: Seq<Seq<char>>)
    ensures
        parse_result(args) matches Ok(tasks) ==> forall|i: int|
            0 <= i < tasks.len() ==> task_has_defaults(#[trigger] tasks[i]),
{
    lemma_chars_invariants(initial_model(), argument_chars(args));
}


/// Flags in one list accumulate on a build task: at the `,` or `]` that
/// ends an `arch=X86_64` (or `architecture=X86_64`) flag, only the build
/// task's architecture changes and its `release` stays as it was; the
/// `]` hands that task to the list.
pub proof fn lemma_arch_flag_keeps_release(m: ParseModel, c: char, release: bool, arch: Arch)
    requires
        m.state == (ArgState::Config { flag_part: true }),
        m.current_task == (Task::Build { release, arch }),
        m.flag_name == "arch"@ || m.flag_name == "architecture"@,
        m.flag_value == "X86_64"@,
        c == ',' || c == ']',
    ensures
        parse_step(m, c).errors == m.errors,
        c == ',' ==> parse_step(m, c).current_task == (Task::Build {
            release,
            arch: Arch::X86_64,
        }),
        c == ']' ==> parse_step(m, c).tasks == m.tasks.push(
            Task::Build { release, arch: Arch::X86_64 },
        ),
{
    reveal_strlit("arch");
    reveal_strlit("architecture");
    reveal_strlit("release");
    assert(m.flag_name.len() != 0);
    assert(m.flag_name != "release"@);
}

/// At the `,` or `]` that ends a `release` flag, the build task becomes a
/// release build and keeps its architecture; the `]` hands it to the list.
pub proof fn lemma_release_flag_keeps_arch(m: ParseModel, c: char, release: bool, arch: Arch)
    requires
        m.state == (ArgState::Config { flag_part: false }),
        m.current_task == (Task::Build { release, arch }),
        m.flag_name == "release"@,
        m.flag_value.len() == 0,
        c == ',' || c == ']',
    ensures
        parse_step(m, c).errors == m.errors,
        parse_step(m, c).release,
        c == ',' ==> parse_step(m, c).current_task == (Task::Build { release: true, arch }),
        c == ']' ==> parse_step(m, c).tasks == m.tasks.push(Task::Build { release: true, arch }),
{
    reveal_strlit("release");
    assert(m.flag_name.len() != 0);
}

/// Reading a flag's characters only grows its name or value: the task,
/// the task list and the errors stay as they were.
pub proof fn lemma_flag_chars_leave_task(m: ParseModel, flag_part: bool, c: char)
    requires
        m.state == (ArgState::Config { flag_part }),
        c != '=' && c != ',' && c != ']',
    ensures
        parse_step(m, c).current_task == m.current_task,
        parse_step(m, c).tasks == m.tasks,
        parse_step(m, c).errors == m.errors,
        flag_part ==> parse_step(m, c).flag_value == m.flag_value.push(c),
        !flag_part ==> parse_step(m, c).flag_name == m.flag_name.push(c),
{
}

} // verus!
