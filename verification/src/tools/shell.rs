//! The controller of one shell session. It accepts one command at a time,
//! says what to write to the session, and turns what the session answers
//! into a bounded text with the command's exit status.

use crate::tools::render_terminal::{normalized, render_terminal_output};
use crate::tools::text::{
    decimal, has_line_feed, lemma_leading_whitespace_is_prefix,
    lemma_trailing_whitespace_is_suffix, parse_i32, parsed_i32, push_decimal, trim, trimmed,
    trimmed_start,
};
use crate::tools::tokenizer::Tokenizer;
use rexpect::errors::Error as RexpectError;
use vstd::prelude::*;

verus! {

/// What went wrong in a pseudo-terminal session of `rexpect`.
#[verifier::external_type_specification]
#[verifier::external_body]
pub struct ExRexpectError(RexpectError);

/// The text that refuses a command while another one is still running.
pub const WAITING_FOR_INPUT_ERROR: &'static str =
    "A command is already running that hasn't exited. NOTE: You can't run multiple shell sessions, likely a previous program is in infinite loop.\nKill the previous program by sending ctrl+c first using `send_ascii`";

/// The text that refuses a command of more than one line.
pub const NEWLINE_ERROR: &'static str =
    "Command should not contain newline character in middle. Run only one command at a time.";

/// The text that refuses a request without content.
pub const NOTHING_TO_SEND_ERROR: &'static str = "No command or ascii to send.";

/// The text that reports output which the tokenizer could not bound.
pub const TOKENIZER_ERROR: &'static str = "The output could not be bounded to the token budget.";

/// The command that makes the shell print the exit status of the command
/// before it.
pub const EXIT_CODE_COMMAND: &'static str = "echo $?";

/// Whether the session is free for a new command.
#[derive(Clone, Copy, Debug, PartialEq, Eq, Structural)]
pub enum BashState {
    /// A command ran into the timeout and is presumed to be running still.
    WaitingForInput,
    /// No command is outstanding.
    Idle,
}

/// Receives one line for each command that is submitted.
pub trait Logger {
    fn log(&self, message: &str);
}

/// The settings of a session.
pub struct Config {
    /// How long to wait for the prompt, in milliseconds.
    pub timeout: u64,
}

impl Default for Config {
    fn default() -> (config: Config)
        ensures
            config.timeout == 5000,
    {
        Config { timeout: 5000 }
    }
}

/// Why a call on the controller failed.
#[derive(Debug)]
pub enum ShellError {
    /// The session failed: the channel to the shell or the shell itself.
    RexpectError(RexpectError),
    /// The caller misused the controller. The session is as it was.
    ShellWorkflowError(String),
    /// The tokenizer could not encode the output, or decode what was kept.
    TokenizerError(String),
}

impl From<String> for ShellError {
    /// A text alone reports a misuse.
    fn from(error: String) -> (converted: ShellError) {
        ShellError::ShellWorkflowError(error)
    }
}

impl vstd::std_specs::convert::FromSpecImpl<String> for ShellError {
    open spec fn obeys_from_spec() -> bool {
        true
    }

    open spec fn from_spec(error: String) -> ShellError {
        ShellError::ShellWorkflowError(error)
    }
}

impl From<RexpectError> for ShellError {
    /// A failure of the session is carried as it is.
    fn from(error: RexpectError) -> (converted: ShellError) {
        ShellError::RexpectError(error)
    }
}

impl vstd::std_specs::convert::FromSpecImpl<RexpectError> for ShellError {
    open spec fn obeys_from_spec() -> bool {
        true
    }

    open spec fn from_spec(error: RexpectError) -> ShellError {
        ShellError::RexpectError(error)
    }
}

/// A key with a fixed byte sequence.
#[derive(Clone, Copy, Debug, PartialEq, Eq, Structural)]
pub enum Specials {
    KeyUp,
    KeyDown,
    KeyLeft,
    KeyRight,
    Enter,
    CtrlC,
}

impl Specials {
    /// The bytes that a terminal sends for the key.
    pub open spec fn key_bytes(self) -> Seq<u8> {
        match self {
            Specials::KeyUp => seq![0x1Bu8, 0x5Bu8, 0x41u8],
            Specials::KeyDown => seq![0x1Bu8, 0x5Bu8, 0x42u8],
            Specials::KeyLeft => seq![0x1Bu8, 0x5Bu8, 0x44u8],
            Specials::KeyRight => seq![0x1Bu8, 0x5Bu8, 0x43u8],
            Specials::Enter => seq![0x0Au8],
            Specials::CtrlC => seq![0x03u8],
        }
    }

    /// The name of the key.
    pub open spec fn name(self) -> Seq<char> {
        match self {
            Specials::KeyUp => "KeyUp"@,
            Specials::KeyDown => "KeyDown"@,
            Specials::KeyLeft => "KeyLeft"@,
            Specials::KeyRight => "KeyRight"@,
            Specials::Enter => "Enter"@,
            Specials::CtrlC => "CtrlC"@,
        }
    }

    /// The bytes to write to the session for the key.
    pub fn bytes(&self) -> (bytes: Vec<u8>)
        ensures
            bytes@ == self.key_bytes(),
    {
        let mut bytes: Vec<u8> = Vec::new();
        match self {
            Specials::KeyUp => {
                bytes.push(0x1B);
                bytes.push(0x5B);
                bytes.push(0x41);
            },
            Specials::KeyDown => {
                bytes.push(0x1B);
                bytes.push(0x5B);
                bytes.push(0x42);
            },
            Specials::KeyLeft => {
                bytes.push(0x1B);
                bytes.push(0x5B);
                bytes.push(0x44);
            },
            Specials::KeyRight => {
                bytes.push(0x1B);
                bytes.push(0x5B);
                bytes.push(0x43);
            },
            Specials::Enter => {
                bytes.push(0x0A);
            },
            Specials::CtrlC => {
                bytes.push(0x03);
            },
        }
        bytes
    }

    /// The name of the key as text.
    pub fn to_string(&self) -> (name: String)
        ensures
            name@ == self.name(),
    {
        let name: &str = match self {
            Specials::KeyUp => "KeyUp",
            Specials::KeyDown => "KeyDown",
            Specials::KeyLeft => "KeyLeft",
            Specials::KeyRight => "KeyRight",
            Specials::Enter => "Enter",
            Specials::CtrlC => "CtrlC",
        };
        name.to_owned()
    }
}

/// Input that is no command: literal bytes, or a key.
pub enum AsciiOrSpecial {
    Ascii(Vec<u8>),
    Special(Specials),
}

/// What the caller is to write to the session.
#[derive(Debug)]
pub enum SessionInput {
    /// A line: the text, then a line terminator.
    Line(String),
    /// Bytes as they are, then a flush.
    Raw(Vec<u8>),
}

/// How waiting for the prompt marker ended.
#[derive(Debug)]
pub enum PromptWait {
    /// The prompt came. Holds the output before it.
    Prompt(String),
    /// The timeout passed without the prompt. Holds the output so far.
    TimedOut(String),
    /// The session failed.
    Failed(RexpectError),
}

/// How far a command has come once the wait for its prompt is over.
#[derive(Debug)]
pub enum Progress {
    /// The command ended. Holds its output; the exit code is still to be
    /// asked for, and the two together make the result.
    Ended(String),
    /// The command is still running. Holds the result of the call.
    Pending(String),
}

/// The answer of the controller to a request, as plain values.
pub enum Answer {
    /// Write this line.
    Line(Seq<char>),
    /// Write these bytes.
    Raw(Seq<u8>),
    /// The request is refused with this text.
    Refused(Seq<char>),
}

/// The answer to a request in a given state. A command wins over other
/// input. It is refused while another command is running, and where it has
/// a line feed between its first and last visible character; else its line
/// is the command without the whitespace around it. Without a command,
/// literal bytes and keys are written in either state.
pub open spec fn answer(
    state: BashState,
    command: Option<Seq<char>>,
    send_ascii: Option<AsciiOrSpecial>,
) -> Answer {
    match command {
        Some(text) => if state == BashState::WaitingForInput {
            Answer::Refused(WAITING_FOR_INPUT_ERROR@)
        } else if trimmed(text).contains('\n') {
            Answer::Refused(NEWLINE_ERROR@)
        } else {
            Answer::Line(trimmed(text))
        },
        None => match send_ascii {
            Some(AsciiOrSpecial::Ascii(bytes)) => Answer::Raw(bytes@),
            Some(AsciiOrSpecial::Special(key)) => Answer::Raw(key.key_bytes()),
            None => Answer::Refused(NOTHING_TO_SEND_ERROR@),
        },
    }
}

/// The text of a command, where there is one.
pub open spec fn command_text(command: Option<&str>) -> Option<Seq<char>> {
    match command {
        Some(text) => Some(text@),
        None => None,
    }
}

/// Whether `result` carries `answer`.
pub open spec fn carries(result: Result<SessionInput, ShellError>, answer: Answer) -> bool {
    match answer {
        Answer::Line(text) => result matches Ok(SessionInput::Line(line)) && line@ == text,
        Answer::Raw(bytes) => result matches Ok(SessionInput::Raw(raw)) && raw@ == bytes,
        Answer::Refused(text) => result matches Err(ShellError::ShellWorkflowError(message))
            && message@ == text,
    }
}

/// The state after a request: a refused request leaves the state as it
/// was, an accepted one makes the session idle until its wait is over.
pub open spec fn state_after_request(state: BashState, answer: Answer) -> BashState {
    match answer {
        Answer::Refused(_) => state,
        _ => BashState::Idle,
    }
}

/// The state after the wait for the prompt: idle once the prompt came,
/// waiting once the timeout passed, unchanged where the session failed.
pub open spec fn state_after_wait(state: BashState, waited: PromptWait) -> BashState {
    match waited {
        PromptWait::Prompt(_) => BashState::Idle,
        PromptWait::TimedOut(_) => BashState::WaitingForInput,
        PromptWait::Failed(_) => state,
    }
}

/// The line that is logged for a command.
pub open spec fn log_line(command: Seq<char>) -> Seq<char> {
    "$ "@ + command
}

/// The result for a command that is still running.
pub open spec fn pending_report(output: Seq<char>) -> Seq<char> {
    output + "\n(pending)"@
}

/// The result for a command that ended with `code`.
pub open spec fn exit_report(output: Seq<char>, code: int) -> Seq<char> {
    output + "\n(exit "@ + decimal(code) + ")"@
}

/// The exit code that the shell printed, where `output` is a number once
/// it is normalised and trimmed.
pub open spec fn exit_code_in(output: Seq<char>) -> Option<i32> {
    parsed_i32(trimmed(normalized(output)))
}

/// The line that tells the log of a command.
pub fn command_log_line(command: &str) -> (line: String)
    ensures
        line@ == log_line(command@),
{
    let mut line = String::new();
    line.append("$ ");
    line.append(command);
    line
}

/// What a controller is: its state and its settings.
pub struct ShellView {
    pub state: BashState,
    pub timeout: u64,
    pub tokenizer: Tokenizer,
}

/// The controller of one shell session.
pub struct Shell {
    state: BashState,
    timeout: u64,
    logger: Box<dyn Logger>,
    tokenizer: Tokenizer,
}

impl View for Shell {
    type V = ShellView;

    closed spec fn view(&self) -> ShellView {
        ShellView { state: self.state, timeout: self.timeout, tokenizer: self.tokenizer }
    }
}

impl Shell {
    /// The controller of a session that was just started: it is idle.
    pub fn start_shell(
        config: Config,
        logger: Box<dyn Logger>,
        tokenizer: Tokenizer,
    ) -> (shell: Shell)
        ensures
            shell@.state == BashState::Idle,
            shell@.timeout == config.timeout,
            shell@.tokenizer == tokenizer,
    {
        Shell { state: BashState::Idle, timeout: config.timeout, logger, tokenizer }
    }

    /// Whether the session is free for a new command.
    pub fn state(&self) -> (state: BashState)
        ensures
            state == self@.state,
    {
        self.state
    }

    /// How long to wait for the prompt, in milliseconds.
    pub fn timeout(&self) -> (timeout: u64)
        ensures
            timeout == self@.timeout,
    {
        self.timeout
    }

    /// Takes a request and says what to write to the session for it. A
    /// command is logged before it is handed out.
    pub fn execute_command(
        &mut self,
        command: Option<&str>,
        send_ascii: Option<AsciiOrSpecial>,
    ) -> (result: Result<SessionInput, ShellError>)
        ensures
            carries(result, answer(old(self)@.state, command_text(command), send_ascii)),
            final(self)@.state == state_after_request(
                old(self)@.state,
                answer(old(self)@.state, command_text(command), send_ascii),
            ),
            old(self)@.state == BashState::WaitingForInput && command is Some ==> (
            result matches Err(ShellError::ShellWorkflowError(_)) && final(self)@.state
                == BashState::WaitingForInput),
            final(self)@.timeout == old(self)@.timeout,
            final(self)@.tokenizer == old(self)@.tokenizer,
    {
        let input = match command {
            Some(text) => {
                match self.state {
                    BashState::WaitingForInput => {
                        return Err(
                            ShellError::ShellWorkflowError(WAITING_FOR_INPUT_ERROR.to_owned()),
                        );
                    },
                    BashState::Idle => {},
                }
                let line: &str = trim(text);
                if has_line_feed(line) {
                    return Err(ShellError::ShellWorkflowError(NEWLINE_ERROR.to_owned()));
                }
                self.logger.log(command_log_line(line).as_str());
                SessionInput::Line(line.to_owned())
            },
            None => match send_ascii {
                Some(AsciiOrSpecial::Ascii(bytes)) => SessionInput::Raw(bytes),
                Some(AsciiOrSpecial::Special(key)) => SessionInput::Raw(key.bytes()),
                None => {
                    return Err(ShellError::ShellWorkflowError(NOTHING_TO_SEND_ERROR.to_owned()));
                },
            },
        };
        self.state = BashState::Idle;
        Ok(input)
    }

    /// Bounds `output` to the token budget.
    pub fn truncate_output(&self, output: String) -> (result: Result<String, ShellError>)
        ensures
            match self@.tokenizer.truncated(output@) {
                Some(text) => result matches Ok(bounded) && bounded@ == text,
                None => result matches Err(ShellError::TokenizerError(message)) && message@
                    == TOKENIZER_ERROR@,
            },
    {
        match self.tokenizer.truncate(output) {
            Some(bounded) => Ok(bounded),
            None => Err(ShellError::TokenizerError(TOKENIZER_ERROR.to_owned())),
        }
    }

    /// Takes the end of the wait for the prompt. The output is normalised
    /// and bounded. Where the prompt came, the command has ended and the
    /// session is idle; where the timeout passed, the command is pending
    /// and the session waits; a failed session is reported as it is.
    pub fn wait_for_output(&mut self, waited: PromptWait) -> (result: Result<Progress, ShellError>)
        ensures
            final(self)@.state == state_after_wait(old(self)@.state, waited),
            final(self)@.timeout == old(self)@.timeout,
            final(self)@.tokenizer == old(self)@.tokenizer,
            match waited {
                PromptWait::Prompt(output) => match old(self)@.tokenizer.truncated(
                    normalized(output@),
                ) {
                    Some(text) => result matches Ok(Progress::Ended(bounded)) && bounded@ == text,
                    None => result matches Err(ShellError::TokenizerError(message)) && message@
                        == TOKENIZER_ERROR@,
                },
                PromptWait::TimedOut(output) => match old(self)@.tokenizer.truncated(
                    normalized(output@),
                ) {
                    Some(text) => result matches Ok(Progress::Pending(report)) && report@
                        == pending_report(text),
                    None => result matches Err(ShellError::TokenizerError(message)) && message@
                        == TOKENIZER_ERROR@,
                },
                PromptWait::Failed(error) => result matches Err(ShellError::RexpectError(cause))
                    && cause == error,
            },
    {
        match waited {
            PromptWait::Prompt(output) => {
                self.state = BashState::Idle;
                let bounded = self.truncate_output(render_terminal_output(output))?;
                Ok(Progress::Ended(bounded))
            },
            PromptWait::TimedOut(output) => {
                self.state = BashState::WaitingForInput;
                let mut report = self.truncate_output(render_terminal_output(output))?;
                report.append("\n(pending)");
                Ok(Progress::Pending(report))
            },
            PromptWait::Failed(error) => Err(ShellError::RexpectError(error)),
        }
    }

    /// What to write to the session to learn the exit code of the command
    /// that has just ended.
    pub fn exit_code_request() -> (input: SessionInput)
        ensures
            input matches SessionInput::Line(line) && line@ == EXIT_CODE_COMMAND@,
    {
        SessionInput::Line(EXIT_CODE_COMMAND.to_owned())
    }

    /// Reads the exit code from what the shell printed before a prompt.
    /// Output that is no number, such as an echo of the request, gives
    /// none: it is to be dropped, and the next prompt waited for.
    pub fn get_exit_code(output: String) -> (code: Option<i32>)
        ensures
            code == exit_code_in(output@),
    {
        let text = render_terminal_output(output);
        parse_i32(trim(text.as_str()))
    }

    /// The result for a command that ended: its output, then its exit code.
    pub fn report_exit(output: String, code: i32) -> (report: String)
        ensures
            report@ == exit_report(output@, code as int),
    {
        let mut report = output;
        report.append("\n(exit ");
        push_decimal(&mut report, code);
        report.append(")");
        report
    }
}

/// Trimming adds nothing: a text without a line feed has none after it is
/// trimmed.
proof fn lemma_trimmed_has_no_new_line_feed(text: Seq<char>)
    requires
        !text.contains('\n'),
    ensures
        !trimmed(text).contains('\n'),
{
    let front = trimmed_start(text);
    lemma_leading_whitespace_is_prefix(text);
    lemma_trailing_whitespace_is_suffix(front);
    assert forall|i: int| 0 <= i < trimmed(text).len() implies trimmed(text)[i] != '\n' by {
        assert(trimmed(text)[i] == text[i + (text.len() - front.len())]);
    }
}

/// A command of one line, submitted to an idle session, is accepted and
/// written as its trimmed text. When the wait for its prompt is over the
/// session is in exactly one of its two states: it waits if the timeout
/// passed, and is idle otherwise.
pub proof fn lemma_command_cycle_ends_idle_or_waiting(
    command: Seq<char>,
    send_ascii: Option<AsciiOrSpecial>,
    waited: PromptWait,
)
    requires
        !command.contains('\n'),
    ensures
        answer(BashState::Idle, Some(command), send_ascii) == Answer::Line(trimmed(command)),
        ({
            let accepted = answer(BashState::Idle, Some(command), send_ascii);
            let submitted = state_after_request(BashState::Idle, accepted);
            let ended = state_after_wait(submitted, waited);
            &&& ended == BashState::WaitingForInput <==> waited is TimedOut
            &&& ended == BashState::Idle <==> !(waited is TimedOut)
        }),
{
    lemma_trimmed_has_no_new_line_feed(command);
}

/// While a command is running, every request that carries a command is
/// refused as a misuse, whatever the command and whatever comes with it,
/// and the session goes on waiting.
pub proof fn lemma_waiting_session_refuses_commands(
    command: Seq<char>,
    send_ascii: Option<AsciiOrSpecial>,
)
    ensures
        answer(BashState::WaitingForInput, Some(command), send_ascii) == Answer::Refused(
            WAITING_FOR_INPUT_ERROR@,
        ),
        state_after_request(
            BashState::WaitingForInput,
            answer(BashState::WaitingForInput, Some(command), send_ascii),
        ) == BashState::WaitingForInput,
{
}

/// A waiting session comes back to idle only through a wait that sees the
/// prompt: no request changes a waiting session to anything but idle for
/// the time of its wait, and a wait without the prompt leaves or makes it
/// waiting.
pub proof fn lemma_waiting_ends_only_with_the_prompt(
    command: Option<Seq<char>>,
    send_ascii: Option<AsciiOrSpecial>,
    waited: PromptWait,
)
    requires
        !(answer(BashState::WaitingForInput, command, send_ascii) is Refused),
    ensures
        command is None,
        state_after_wait(
            state_after_request(
                BashState::WaitingForInput,
                answer(BashState::WaitingForInput, command, send_ascii),
            ),
            waited,
        ) == BashState::WaitingForInput <==> waited is TimedOut,
{
}

/// Every result of a call ends with the exit code in brackets or with the
/// word that says the command is pending.
pub proof fn lemma_reports_end_with_status(output: Seq<char>, code: int)
    ensures
        pending_report(output) == (output + seq!['\n']) + "(pending)"@,
        exit_report(output, code) == (output + seq!['\n']) + ("(exit "@ + decimal(code) + ")"@),
{
    reveal_strlit("\n(pending)");
    reveal_strlit("(pending)");
    reveal_strlit("\n(exit ");
    reveal_strlit("(exit ");
}

} // verus!
