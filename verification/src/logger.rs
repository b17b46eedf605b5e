//! Indented, optionally coloured log lines.

use vstd::prelude::*;

verus! {

/// The kind of a log line.
#[derive(PartialEq, Eq, Structural, Clone, Copy, Debug)]
pub enum MessageType {
    Info,
    Warn,
    Error,
    UserInput,
}

/// The label of a message type: with ANSI colour codes when `color`.
pub open spec fn message_type_text(message_type: MessageType, color: bool) -> Seq<char> {
    if color {
        match message_type {
            MessageType::Info => "\x1b[0;1;34minfo\x1b[0m"@,
            MessageType::Warn => "\x1b[0;1;32mwarning\x1b[0m"@,
            MessageType::Error => "\x1b[0;1;31merror\x1b[0m"@,
            MessageType::UserInput => "\x1b[0;1;33muser input\x1b[0m"@,
        }
    } else {
        match message_type {
            MessageType::Info => "info"@,
            MessageType::Warn => "warn"@,
            MessageType::Error => "err"@,
            MessageType::UserInput => "user input"@,
        }
    }
}

impl MessageType {
    pub fn as_str(&self, color: bool) -> (text: &'static str)
        ensures
            text@ == message_type_text(*self, color),
    {
        if color {
            match self {
                MessageType::Info => "\x1b[0;1;34minfo\x1b[0m",
                MessageType::Warn => "\x1b[0;1;32mwarning\x1b[0m",
                MessageType::Error => "\x1b[0;1;31merror\x1b[0m",
                MessageType::UserInput => "\x1b[0;1;33muser input\x1b[0m",
            }
        } else {
            match self {
                MessageType::Info => "info",
                MessageType::Warn => "warn",
                MessageType::Error => "err",
                MessageType::UserInput => "user input",
            }
        }
    }
}

/// `n` spaces.
pub open spec fn spaces(n: nat) -> Seq<char> {
    Seq::new(n, |i: int| ' ')
}

/// Writes log lines indented by `current_tab` steps of `tab_size` spaces.
pub struct Logger {
    pub color: bool,
    pub tab_size: u8,
    pub current_tab: u8,
}

impl Logger {
    /// The text of a log line: the indentation, the label, `": "`, the
    /// message and, except for user input, a line break.
    pub open spec fn line(self, message_type: MessageType, message: Seq<char>) -> Seq<char> {
        spaces((self.current_tab * self.tab_size) as nat) + message_type_text(
            message_type,
            self.color,
        ) + ": "@ + message + if message_type == MessageType::UserInput {
            Seq::empty()
        } else {
            "\n"@
        }
    }

    /// The logger one indentation step deeper.
    pub open spec fn spec_tab_up(self) -> Logger {
        Logger { current_tab: (self.current_tab + 1) as u8, ..self }
    }

    /// The logger one indentation step shallower.
    pub open spec fn spec_tab_down(self) -> Logger {
        Logger { current_tab: (self.current_tab - 1) as u8, ..self }
    }

    /// Coloured output, 4 spaces per step, no indentation.
    pub fn new() -> (logger: Self)
        ensures
            logger.color,
            logger.tab_size == 4,
            logger.current_tab == 0,
    {
        Self { color: true, tab_size: 4, current_tab: 0 }
    }

    pub fn tab_up(&mut self)
        requires
            old(self).current_tab < 255,
        ensures
            *final(self) == old(self).spec_tab_up(),
    {
        self.current_tab = self.current_tab + 1;
    }

    pub fn tab_down(&mut self)
        requires
            old(self).current_tab > 0,
        ensures
            *final(self) == old(self).spec_tab_down(),
    {
        self.current_tab = self.current_tab - 1;
    }

    /// The line that an information message prints as.
    pub fn info(&self, message: &str) -> (text: String)
        ensures
            text@ == self.line(MessageType::Info, message@),
    {
        self.write_message(MessageType::Info, message)
    }

    /// The line that a warning prints as.
    pub fn warn(&self, message: &str) -> (text: String)
        ensures
            text@ == self.line(MessageType::Warn, message@),
    {
        self.write_message(MessageType::Warn, message)
    }

    /// The line that an error prints as.
    pub fn err(&self, message: &str) -> (text: String)
        ensures
            text@ == self.line(MessageType::Error, message@),
    {
        self.write_message(MessageType::Error, message)
    }

    /// The text that a message of `message_type` prints as.
    pub fn write_message(&self, message_type: MessageType, message: &str) -> (text: String)
        ensures
            text@ == self.line(message_type, message@),
    {
        let tab: usize = self.current_tab as usize;
        let size: usize = self.tab_size as usize;
        assert(tab * size <= 255 * 255) by (nonlinear_arith)
            requires
                tab <= 255,
                size <= 255,
        ;
        let count: usize = tab * size;
        let mut text = String::new();
        let mut i: usize = 0;
        while i < count
            invariant
                0 <= i <= count,
                text@ == spaces(i as nat),
            decreases count - i,
        {
            text.append(" ");
            proof {
                reveal_strlit(" ");
            }
            assert(text@ =~= spaces((i + 1) as nat));
            i = i + 1;
        }
        text.append(message_type.as_str(self.color));
        text.append(": ");
        text.append(message);
        if message_type != MessageType::UserInput {
            text.append("\n");
        }
        assert(text@ =~= self.line(message_type, message@));
        text
    }
}

/// Indenting and then unindenting gives back the logger as it was.
pub proof fn lemma_tab_up_down(logger: Logger)
    requires
        logger.current_tab < 255,
    ensures
        logger.spec_tab_up().spec_tab_down() == logger,
{
}

/// One step deeper, a line starts with `tab_size` more spaces and is
/// otherwise the same.
pub proof fn lemma_tab_up_indents(logger: Logger, message_type: MessageType, message: Seq<char>)
    requires
        logger.current_tab < 255,
    ensures
        logger.spec_tab_up().line(message_type, message) == spaces(logger.tab_size as nat)
            + logger.line(message_type, message),
{
    let t = logger.current_tab as int;
    let s = logger.tab_size as int;
    assert((t + 1) * s == s + t * s) by (nonlinear_arith);
    assert(0 <= t * s) by (nonlinear_arith)
        requires
            0 <= t,
            0 <= s,
    ;
    assert(spaces(((t + 1) * s) as nat) =~= spaces(s as nat) + spaces((t * s) as nat));
    assert(logger.spec_tab_up().line(message_type, message) =~= spaces(logger.tab_size as nat)
        + logger.line(message_type, message));
}

} // verus!
