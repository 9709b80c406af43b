//! The built-in terminal's command handling.

use vstd::prelude::*;
use crate::text::{chars_are, chars_from, starts_with_lit, string_of, trim_chars, trim_str, trimmed};

verus! {

/// What reading a terminal line gave.
pub enum ShellEvent {
    Line(String),
    /// Esc or Ctrl-C.
    Interrupted,
    /// Reading failed otherwise.
    ReadFailed,
}

/// What the terminal does with it.
pub enum ShellCommand {
    /// Leave the program with a goodbye.
    Quit,
    /// Show the help screen.
    Help,
    /// Change the working folder.
    ChangeDir(String),
    /// Run the line in the system shell.
    Run(String),
    /// Nothing to do (a blank line).
    Nothing,
    /// Return to the wizard.
    Leave,
    /// Leave the program silently.
    Fail,
}

/// A command, and the line added to the history when there is one.
pub struct ShellStep {
    pub command: ShellCommand,
    pub history: Option<String>,
}

pub enum ShellCommandView {
    Quit,
    Help,
    ChangeDir(Seq<char>),
    Run(Seq<char>),
    Nothing,
    Leave,
    Fail,
}

pub struct ShellStepView {
    pub command: ShellCommandView,
    pub history: Option<Seq<char>>,
}

impl View for ShellStep {
    type V = ShellStepView;

    open spec fn view(&self) -> ShellStepView {
        ShellStepView {
            command: match self.command {
                ShellCommand::Quit => ShellCommandView::Quit,
                ShellCommand::Help => ShellCommandView::Help,
                ShellCommand::ChangeDir(d) => ShellCommandView::ChangeDir(d@),
                ShellCommand::Run(l) => ShellCommandView::Run(l@),
                ShellCommand::Nothing => ShellCommandView::Nothing,
                ShellCommand::Leave => ShellCommandView::Leave,
                ShellCommand::Fail => ShellCommandView::Fail,
            },
            history: match self.history {
                Some(h) => Some(h@),
                None => None,
            },
        }
    }
}

/// Lines are taken trimmed: `/exit` quits, `/help` shows help, `cd ` and a
/// folder changes folder, anything else non-blank runs in the system shell;
/// every line but `/exit` and `/help` joins the history.
pub open spec fn shell_next(line: Option<Seq<char>>, interrupted: bool) -> ShellStepView {
    match line {
        Some(l) => {
            let t = trimmed(l);
            if t == "/exit"@ {
                ShellStepView { command: ShellCommandView::Quit, history: None }
            } else if t == "/help"@ {
                ShellStepView { command: ShellCommandView::Help, history: None }
            } else if 3 <= t.len() && t.take(3) == "cd "@ {
                ShellStepView { command: ShellCommandView::ChangeDir(trimmed(t.skip(3))), history: Some(t) }
            } else if t.len() > 0 {
                ShellStepView { command: ShellCommandView::Run(t), history: Some(t) }
            } else {
                ShellStepView { command: ShellCommandView::Nothing, history: Some(t) }
            }
        },
        None => if interrupted {
            ShellStepView { command: ShellCommandView::Leave, history: None }
        } else {
            ShellStepView { command: ShellCommandView::Fail, history: None }
        },
    }
}

/// Decides what the terminal does with what was read (see `shell_next`).
pub fn shell_step(event: &ShellEvent) -> (r: ShellStep)
    ensures
        r@ == match event {
            ShellEvent::Line(l) => shell_next(Some(l@), false),
            ShellEvent::Interrupted => shell_next(None, true),
            ShellEvent::ReadFailed => shell_next(None, false),
        },
{
    match event {
        ShellEvent::Line(l) => {
            let t = trim_str(l.as_str());
            proof {
                reveal_strlit("cd ");
            }
            if chars_are(&t, "/exit") {
                ShellStep { command: ShellCommand::Quit, history: None }
            } else if chars_are(&t, "/help") {
                ShellStep { command: ShellCommand::Help, history: None }
            } else if starts_with_lit(&t, "cd ") {
                let rest = chars_from(&t, 3);
                assert(rest@ =~= t@.skip(3));
                let dir = trim_chars(&rest);
                ShellStep { command: ShellCommand::ChangeDir(string_of(&dir)), history: Some(string_of(&t)) }
            } else if t.len() > 0 {
                ShellStep { command: ShellCommand::Run(string_of(&t)), history: Some(string_of(&t)) }
            } else {
                ShellStep { command: ShellCommand::Nothing, history: Some(string_of(&t)) }
            }
        },
        ShellEvent::Interrupted => ShellStep { command: ShellCommand::Leave, history: None },
        ShellEvent::ReadFailed => ShellStep { command: ShellCommand::Fail, history: None },
    }
}

} // verus!
