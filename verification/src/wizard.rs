//! The interactive wizard, as a state machine: given its state and what the
//! user did, it decides the next state and what to show or do. The caller
//! reads lines, shows menus, looks up files and runs conversions, and hands
//! back what happened.

use vstd::prelude::*;
use crate::settings::{opt_text, Config, ConfigView};
use crate::text::{chars_are, chars_of, float_text, is_float_text, parse_u32, string_of, trim_str, trimmed, u32_value};

verus! {

/// The four wizard operations of the main menu.
#[derive(Clone, Copy, Debug, PartialEq, Eq, Structural)]
pub enum Operation {
    /// 1: convert with the project defaults.
    Standard,
    /// 2: lossless conversion at a chosen width, to PNG or WebP.
    Lossless,
    /// 3: hit a file size.
    SizeTarget,
    /// 4: convert to any supported format.
    AnyFormat,
}

/// What the wizard asks for next.
#[derive(Clone, Copy, Debug, PartialEq, Eq, Structural)]
pub enum Prompt {
    /// The main menu, then a line choosing the operation.
    Operation,
    /// A line with the input file or pattern.
    Input,
    /// A line with the target folder (blank: in place).
    Output,
    /// A line with the output width (blank: the default).
    Width,
    /// A line with the size number.
    SizeNumber,
    /// A choice among bytes, KB, MB and GB (KB first selected).
    Unit,
    /// A choice among the formats of `any_format_name` (PNG first selected).
    AnyFormat,
    /// A choice between PNG and WebP.
    LosslessFormat { default_webp: bool },
    /// A yes/no on deep PNG compression.
    Optimize { default_on: bool },
}

/// A message shown before the next prompt or step.
pub enum Notice {
    Nothing,
    /// The help screen.
    Help,
    /// The built-in terminal, until the user leaves it.
    Shell,
    InvalidOperation,
    InvalidWidth,
    InvalidNumber,
    Cancelled,
    NoFiles,
    /// How many files were found.
    Found(usize),
    /// Output goes next to each input.
    InPlace,
    /// Output goes to this folder.
    TargetDirectory(String),
}

/// The size a size-targeted conversion aims at: the number as typed and the
/// unit's index (0 bytes, 1 KB, 2 MB, 3 GB).
pub struct SizeRequest {
    pub number: String,
    pub unit: usize,
}

/// A conversion the wizard asks to run over the files it found.
pub struct ConversionRequest {
    pub output: Option<String>,
    pub width: Option<u32>,
    pub height: Option<u32>,
    pub format: String,
    pub optimize: bool,
    pub size: Option<SizeRequest>,
}

/// The step after the notice.
pub enum Next {
    Ask(Prompt),
    /// Look up the files matching the pattern; answer `FilesFound`.
    Search(String),
    /// Make the folder absolute; answer `Resolved`.
    Resolve(String),
    /// Run the conversion; answer `Finished`.
    Convert(ConversionRequest),
    /// Leave the program, saying goodbye or not.
    Quit { goodbye: bool },
}

pub struct WizardAction {
    pub notice: Notice,
    pub next: Next,
}

/// What the user did, or what the caller's work gave.
pub enum WizardEvent {
    /// A line was read.
    Line(String),
    /// End of input: the terminal key.
    EndOfInput,
    /// Ctrl-C.
    Interrupted,
    /// Reading failed otherwise.
    ReadFailed,
    /// A choice was made, or dismissed (`None`).
    Chosen(Option<usize>),
    /// A yes/no was answered, or dismissed (`None`).
    Confirmed(Option<bool>),
    FilesFound(usize),
    Resolved(String),
    Finished,
}

/// Where the wizard stands.
pub enum WizardState {
    Menu,
    AwaitInput(Operation),
    AwaitFiles(Operation),
    AwaitOutput(Operation),
    AwaitResolve(Operation),
    AwaitWidth(Option<String>),
    AwaitSize(Option<String>),
    AwaitUnit(Option<String>, String),
    AwaitAnyFormat(Option<String>),
    AwaitLosslessFormat(Option<String>, Option<u32>),
    AwaitOptimize(Option<String>, Option<u32>, String),
    Converting,
}

// ----- values -----

pub enum NoticeView {
    Nothing,
    Help,
    Shell,
    InvalidOperation,
    InvalidWidth,
    InvalidNumber,
    Cancelled,
    NoFiles,
    Found(usize),
    InPlace,
    TargetDirectory(Seq<char>),
}

pub struct SizeRequestView {
    pub number: Seq<char>,
    pub unit: usize,
}

pub struct RequestView {
    pub output: Option<Seq<char>>,
    pub width: Option<u32>,
    pub height: Option<u32>,
    pub format: Seq<char>,
    pub optimize: bool,
    pub size: Option<SizeRequestView>,
}

pub enum NextView {
    Ask(Prompt),
    Search(Seq<char>),
    Resolve(Seq<char>),
    Convert(RequestView),
    Quit { goodbye: bool },
}

pub struct ActionView {
    pub notice: NoticeView,
    pub next: NextView,
}

pub enum EventView {
    Line(Seq<char>),
    EndOfInput,
    Interrupted,
    ReadFailed,
    Chosen(Option<usize>),
    Confirmed(Option<bool>),
    FilesFound(usize),
    Resolved(Seq<char>),
    Finished,
}

pub enum StateView {
    Menu,
    AwaitInput(Operation),
    AwaitFiles(Operation),
    AwaitOutput(Operation),
    AwaitResolve(Operation),
    AwaitWidth(Option<Seq<char>>),
    AwaitSize(Option<Seq<char>>),
    AwaitUnit(Option<Seq<char>>, Seq<char>),
    AwaitAnyFormat(Option<Seq<char>>),
    AwaitLosslessFormat(Option<Seq<char>>, Option<u32>),
    AwaitOptimize(Option<Seq<char>>, Option<u32>, Seq<char>),
    Converting,
}

impl View for Notice {
    type V = NoticeView;

    open spec fn view(&self) -> NoticeView {
        match self {
            Notice::Nothing => NoticeView::Nothing,
            Notice::Help => NoticeView::Help,
            Notice::Shell => NoticeView::Shell,
            Notice::InvalidOperation => NoticeView::InvalidOperation,
            Notice::InvalidWidth => NoticeView::InvalidWidth,
            Notice::InvalidNumber => NoticeView::InvalidNumber,
            Notice::Cancelled => NoticeView::Cancelled,
            Notice::NoFiles => NoticeView::NoFiles,
            Notice::Found(n) => NoticeView::Found(*n),
            Notice::InPlace => NoticeView::InPlace,
            Notice::TargetDirectory(d) => NoticeView::TargetDirectory(d@),
        }
    }
}

impl View for ConversionRequest {
    type V = RequestView;

    open spec fn view(&self) -> RequestView {
        RequestView {
            output: opt_text(self.output),
            width: self.width,
            height: self.height,
            format: self.format@,
            optimize: self.optimize,
            size: match self.size {
                Some(s) => Some(SizeRequestView { number: s.number@, unit: s.unit }),
                None => None,
            },
        }
    }
}

impl View for Next {
    type V = NextView;

    open spec fn view(&self) -> NextView {
        match self {
            Next::Ask(p) => NextView::Ask(*p),
            Next::Search(t) => NextView::Search(t@),
            Next::Resolve(t) => NextView::Resolve(t@),
            Next::Convert(r) => NextView::Convert(r@),
            Next::Quit { goodbye } => NextView::Quit { goodbye: *goodbye },
        }
    }
}

impl View for WizardAction {
    type V = ActionView;

    open spec fn view(&self) -> ActionView {
        ActionView { notice: self.notice@, next: self.next@ }
    }
}

impl View for WizardEvent {
    type V = EventView;

    open spec fn view(&self) -> EventView {
        match self {
            WizardEvent::Line(l) => EventView::Line(l@),
            WizardEvent::EndOfInput => EventView::EndOfInput,
            WizardEvent::Interrupted => EventView::Interrupted,
            WizardEvent::ReadFailed => EventView::ReadFailed,
            WizardEvent::Chosen(c) => EventView::Chosen(*c),
            WizardEvent::Confirmed(c) => EventView::Confirmed(*c),
            WizardEvent::FilesFound(n) => EventView::FilesFound(*n),
            WizardEvent::Resolved(d) => EventView::Resolved(d@),
            WizardEvent::Finished => EventView::Finished,
        }
    }
}

impl View for WizardState {
    type V = StateView;

    open spec fn view(&self) -> StateView {
        match self {
            WizardState::Menu => StateView::Menu,
            WizardState::AwaitInput(op) => StateView::AwaitInput(*op),
            WizardState::AwaitFiles(op) => StateView::AwaitFiles(*op),
            WizardState::AwaitOutput(op) => StateView::AwaitOutput(*op),
            WizardState::AwaitResolve(op) => StateView::AwaitResolve(*op),
            WizardState::AwaitWidth(o) => StateView::AwaitWidth(opt_text(*o)),
            WizardState::AwaitSize(o) => StateView::AwaitSize(opt_text(*o)),
            WizardState::AwaitUnit(o, t) => StateView::AwaitUnit(opt_text(*o), t@),
            WizardState::AwaitAnyFormat(o) => StateView::AwaitAnyFormat(opt_text(*o)),
            WizardState::AwaitLosslessFormat(o, w) => StateView::AwaitLosslessFormat(opt_text(*o), *w),
            WizardState::AwaitOptimize(o, w, f) => StateView::AwaitOptimize(opt_text(*o), *w, f@),
            WizardState::Converting => StateView::Converting,
        }
    }
}

// ----- the decision table -----

pub open spec fn ask(n: NoticeView, p: Prompt) -> ActionView {
    ActionView { notice: n, next: NextView::Ask(p) }
}

pub open spec fn quit(goodbye: bool) -> ActionView {
    ActionView { notice: NoticeView::Nothing, next: NextView::Quit { goodbye } }
}

/// Back to the main menu, showing `n` first.
pub open spec fn to_menu(n: NoticeView) -> (StateView, ActionView) {
    (StateView::Menu, ask(n, Prompt::Operation))
}

/// The project's format, or `auto`.
pub open spec fn default_format(c: ConfigView) -> Seq<char> {
    match c.format {
        Some(f) => f,
        None => "auto"@,
    }
}

pub open spec fn default_optimize(c: ConfigView) -> bool {
    c.optimize == Some(true)
}

/// The formats offered by the universal converter, in menu order.
pub open spec fn any_format_name(i: int) -> Seq<char> {
    if i == 0 {
        "png"@
    } else if i == 1 {
        "jpg"@
    } else if i == 2 {
        "webp"@
    } else if i == 3 {
        "bmp"@
    } else if i == 4 {
        "ico"@
    } else if i == 5 {
        "tiff"@
    } else {
        "gif"@
    }
}

pub open spec fn convert(n: NoticeView, r: RequestView) -> (StateView, ActionView) {
    (StateView::Converting, ActionView { notice: n, next: NextView::Convert(r) })
}

/// Once the output is settled: the operation's own questions, or the
/// conversion itself for the standard operation.
pub open spec fn after_output(
    c: ConfigView,
    op: Operation,
    output: Option<Seq<char>>,
    n: NoticeView,
) -> (StateView, ActionView) {
    match op {
        Operation::Lossless => (StateView::AwaitWidth(output), ask(n, Prompt::Width)),
        Operation::SizeTarget => (StateView::AwaitSize(output), ask(n, Prompt::SizeNumber)),
        Operation::AnyFormat => (StateView::AwaitAnyFormat(output), ask(n, Prompt::AnyFormat)),
        Operation::Standard => convert(
            n,
            RequestView {
                output,
                width: c.width,
                height: c.height,
                format: default_format(c),
                optimize: default_optimize(c),
                size: None,
            },
        ),
    }
}

/// The operation a menu line chooses.
pub open spec fn operation_named(t: Seq<char>) -> Option<Operation> {
    if t == "1"@ {
        Some(Operation::Standard)
    } else if t == "2"@ {
        Some(Operation::Lossless)
    } else if t == "3"@ {
        Some(Operation::SizeTarget)
    } else if t == "4"@ {
        Some(Operation::AnyFormat)
    } else {
        None
    }
}

/// The wizard's step. Lines are taken trimmed. An event that the state does
/// not await returns to the menu.
pub open spec fn wizard_next(c: ConfigView, s: StateView, e: EventView) -> (StateView, ActionView) {
    match s {
        StateView::Menu => match e {
            EventView::Line(l) => {
                let t = trimmed(l);
                if t == "/exit"@ {
                    (s, quit(true))
                } else if t == "/help"@ {
                    to_menu(NoticeView::Help)
                } else if operation_named(t) is Some {
                    (StateView::AwaitInput(operation_named(t)->0), ask(NoticeView::Nothing, Prompt::Input))
                } else if t.len() > 0 {
                    to_menu(NoticeView::InvalidOperation)
                } else {
                    to_menu(NoticeView::Nothing)
                }
            },
            EventView::EndOfInput => to_menu(NoticeView::Shell),
            EventView::Interrupted => (s, quit(true)),
            EventView::ReadFailed => (s, quit(false)),
            _ => to_menu(NoticeView::Nothing),
        },
        StateView::AwaitInput(op) => match e {
            EventView::Line(l) => {
                let t = trimmed(l);
                if t == "/exit"@ {
                    (s, quit(true))
                } else if t == "/help"@ {
                    to_menu(NoticeView::Help)
                } else if t.len() == 0 {
                    to_menu(NoticeView::Nothing)
                } else {
                    (StateView::AwaitFiles(op), ActionView { notice: NoticeView::Nothing, next: NextView::Search(t) })
                }
            },
            EventView::EndOfInput => to_menu(NoticeView::Shell),
            EventView::Interrupted => to_menu(NoticeView::Cancelled),
            EventView::ReadFailed => (s, quit(false)),
            _ => to_menu(NoticeView::Nothing),
        },
        StateView::AwaitFiles(op) => match e {
            EventView::FilesFound(n) => if n == 0 {
                to_menu(NoticeView::NoFiles)
            } else {
                (StateView::AwaitOutput(op), ask(NoticeView::Found(n), Prompt::Output))
            },
            _ => to_menu(NoticeView::Nothing),
        },
        StateView::AwaitOutput(op) => match e {
            EventView::Line(l) => {
                let t = trimmed(l);
                if t == "/exit"@ {
                    (s, quit(true))
                } else if t == "/help"@ {
                    (s, ask(NoticeView::Help, Prompt::Output))
                } else if t.len() > 0 {
                    (StateView::AwaitResolve(op), ActionView { notice: NoticeView::Nothing, next: NextView::Resolve(t) })
                } else {
                    after_output(c, op, None, NoticeView::InPlace)
                }
            },
            EventView::EndOfInput => (s, ask(NoticeView::Shell, Prompt::Output)),
            EventView::Interrupted => to_menu(NoticeView::Cancelled),
            EventView::ReadFailed => (s, quit(false)),
            _ => to_menu(NoticeView::Nothing),
        },
        StateView::AwaitResolve(op) => match e {
            EventView::Resolved(d) => after_output(c, op, Some(d), NoticeView::TargetDirectory(d)),
            _ => to_menu(NoticeView::Nothing),
        },
        StateView::AwaitWidth(output) => match e {
            EventView::Line(l) => {
                let t = trimmed(l);
                let next = ask(NoticeView::Nothing, Prompt::LosslessFormat { default_webp: c.format == Some("webp"@) });
                if t.len() == 0 {
                    (StateView::AwaitLosslessFormat(output, c.width), next)
                } else if u32_value(t) is Some {
                    (StateView::AwaitLosslessFormat(output, u32_value(t)), next)
                } else {
                    (s, ask(NoticeView::InvalidWidth, Prompt::Width))
                }
            },
            EventView::Interrupted => to_menu(NoticeView::Nothing),
            EventView::EndOfInput => (s, ask(NoticeView::Shell, Prompt::Width)),
            EventView::ReadFailed => (s, quit(false)),
            _ => to_menu(NoticeView::Nothing),
        },
        StateView::AwaitSize(output) => match e {
            EventView::Line(l) => {
                let t = trimmed(l);
                if float_text(t) {
                    (StateView::AwaitUnit(output, t), ask(NoticeView::Nothing, Prompt::Unit))
                } else {
                    (s, ask(NoticeView::InvalidNumber, Prompt::SizeNumber))
                }
            },
            EventView::Interrupted => to_menu(NoticeView::Nothing),
            EventView::EndOfInput => (s, ask(NoticeView::Shell, Prompt::SizeNumber)),
            EventView::ReadFailed => (s, quit(false)),
            _ => to_menu(NoticeView::Nothing),
        },
        StateView::AwaitUnit(output, number) => match e {
            EventView::Chosen(Some(i)) => convert(
                NoticeView::Nothing,
                RequestView {
                    output,
                    width: c.width,
                    height: c.height,
                    format: default_format(c),
                    optimize: default_optimize(c),
                    size: Some(SizeRequestView { number, unit: i }),
                },
            ),
            EventView::Chosen(None) => to_menu(NoticeView::Cancelled),
            _ => to_menu(NoticeView::Nothing),
        },
        StateView::AwaitAnyFormat(output) => match e {
            EventView::Chosen(Some(i)) => if i < 7 {
                convert(
                    NoticeView::Nothing,
                    RequestView {
                        output,
                        width: c.width,
                        height: c.height,
                        format: any_format_name(i as int),
                        optimize: false,
                        size: None,
                    },
                )
            } else {
                to_menu(NoticeView::Cancelled)
            },
            EventView::Chosen(None) => to_menu(NoticeView::Cancelled),
            _ => to_menu(NoticeView::Nothing),
        },
        StateView::AwaitLosslessFormat(output, width) => match e {
            EventView::Chosen(Some(i)) => (
                StateView::AwaitOptimize(output, width, if i == 0 { "png"@ } else { "webp"@ }),
                ask(NoticeView::Nothing, Prompt::Optimize { default_on: default_optimize(c) }),
            ),
            EventView::Chosen(None) => to_menu(NoticeView::Cancelled),
            _ => to_menu(NoticeView::Nothing),
        },
        StateView::AwaitOptimize(output, width, format) => match e {
            EventView::Confirmed(Some(b)) => convert(
                NoticeView::Nothing,
                RequestView { output, width, height: c.height, format, optimize: b, size: None },
            ),
            EventView::Confirmed(None) => to_menu(NoticeView::Cancelled),
            _ => to_menu(NoticeView::Nothing),
        },
        StateView::Converting => to_menu(NoticeView::Nothing),
    }
}


// ----- the step -----

fn copy_text(o: &Option<String>) -> (r: Option<String>)
    ensures
        opt_text(r) == opt_text(*o),
{
    match o {
        Some(s) => Some(s.clone()),
        None => None,
    }
}

fn ask_with(n: Notice, p: Prompt) -> (r: WizardAction)
    ensures
        r@ == ask(n@, p),
{
    WizardAction { notice: n, next: Next::Ask(p) }
}

fn quitting(goodbye: bool) -> (r: WizardAction)
    ensures
        r@ == quit(goodbye),
{
    WizardAction { notice: Notice::Nothing, next: Next::Quit { goodbye } }
}

fn menu_with(n: Notice) -> (r: (WizardState, WizardAction))
    ensures
        (r.0@, r.1@) == to_menu(n@),
{
    (WizardState::Menu, ask_with(n, Prompt::Operation))
}

fn same_state(s: &WizardState) -> (r: WizardState)
    ensures
        r@ == s@,
{
    match s {
        WizardState::Menu => WizardState::Menu,
        WizardState::AwaitInput(op) => WizardState::AwaitInput(*op),
        WizardState::AwaitFiles(op) => WizardState::AwaitFiles(*op),
        WizardState::AwaitOutput(op) => WizardState::AwaitOutput(*op),
        WizardState::AwaitResolve(op) => WizardState::AwaitResolve(*op),
        WizardState::AwaitWidth(o) => WizardState::AwaitWidth(copy_text(o)),
        WizardState::AwaitSize(o) => WizardState::AwaitSize(copy_text(o)),
        WizardState::AwaitUnit(o, t) => WizardState::AwaitUnit(copy_text(o), t.clone()),
        WizardState::AwaitAnyFormat(o) => WizardState::AwaitAnyFormat(copy_text(o)),
        WizardState::AwaitLosslessFormat(o, w) => WizardState::AwaitLosslessFormat(copy_text(o), *w),
        WizardState::AwaitOptimize(o, w, f) => WizardState::AwaitOptimize(copy_text(o), *w, f.clone()),
        WizardState::Converting => WizardState::Converting,
    }
}

fn config_format(c: &Config) -> (r: String)
    ensures
        r@ == default_format(c@),
{
    match &c.format {
        Some(f) => f.clone(),
        None => string_of(&chars_of("auto")),
    }
}

fn config_optimize(c: &Config) -> (r: bool)
    ensures
        r == default_optimize(c@),
{
    match c.optimize {
        Some(b) => b,
        None => false,
    }
}

fn converting(n: Notice, r: ConversionRequest) -> (x: (WizardState, WizardAction))
    ensures
        (x.0@, x.1@) == convert(n@, r@),
{
    (WizardState::Converting, WizardAction { notice: n, next: Next::Convert(r) })
}

fn after_output_step(c: &Config, op: Operation, output: Option<String>, n: Notice) -> (r: (
    WizardState,
    WizardAction,
))
    ensures
        (r.0@, r.1@) == after_output(c@, op, opt_text(output), n@),
{
    match op {
        Operation::Lossless => (WizardState::AwaitWidth(output), ask_with(n, Prompt::Width)),
        Operation::SizeTarget => (WizardState::AwaitSize(output), ask_with(n, Prompt::SizeNumber)),
        Operation::AnyFormat => (WizardState::AwaitAnyFormat(output), ask_with(n, Prompt::AnyFormat)),
        Operation::Standard => converting(
            n,
            ConversionRequest {
                output,
                width: c.width,
                height: c.height,
                format: config_format(c),
                optimize: config_optimize(c),
                size: None,
            },
        ),
    }
}

fn operation_of(t: &Vec<char>) -> (r: Option<Operation>)
    ensures
        r == operation_named(t@),
{
    if chars_are(t, "1") {
        Some(Operation::Standard)
    } else if chars_are(t, "2") {
        Some(Operation::Lossless)
    } else if chars_are(t, "3") {
        Some(Operation::SizeTarget)
    } else if chars_are(t, "4") {
        Some(Operation::AnyFormat)
    } else {
        None
    }
}

fn any_format(i: usize) -> (r: String)
    ensures
        r@ == any_format_name(i as int),
{
    let v = if i == 0 {
        chars_of("png")
    } else if i == 1 {
        chars_of("jpg")
    } else if i == 2 {
        chars_of("webp")
    } else if i == 3 {
        chars_of("bmp")
    } else if i == 4 {
        chars_of("ico")
    } else if i == 5 {
        chars_of("tiff")
    } else {
        chars_of("gif")
    };
    string_of(&v)
}

fn webp_is_default(c: &Config) -> (r: bool)
    ensures
        r == (c@.format == Some("webp"@)),
{
    match &c.format {
        Some(f) => {
            let v = chars_of(f.as_str());
            chars_are(&v, "webp")
        },
        None => false,
    }
}

/// One step of the wizard (see `wizard_next`).
pub fn wizard_step(config: &Config, state: &WizardState, event: &WizardEvent) -> (r: (
    WizardState,
    WizardAction,
))
    ensures
        (r.0@, r.1@) == wizard_next(config@, state@, event@),
{
    match state {
        WizardState::Menu => match event {
            WizardEvent::Line(l) => {
                let t = trim_str(l.as_str());
                if chars_are(&t, "/exit") {
                    (same_state(state), quitting(true))
                } else if chars_are(&t, "/help") {
                    menu_with(Notice::Help)
                } else {
                    match operation_of(&t) {
                        Some(op) => (WizardState::AwaitInput(op), ask_with(Notice::Nothing, Prompt::Input)),
                        None => if t.len() > 0 {
                            menu_with(Notice::InvalidOperation)
                        } else {
                            menu_with(Notice::Nothing)
                        },
                    }
                }
            },
            WizardEvent::EndOfInput => menu_with(Notice::Shell),
            WizardEvent::Interrupted => (same_state(state), quitting(true)),
            WizardEvent::ReadFailed => (same_state(state), quitting(false)),
            _ => menu_with(Notice::Nothing),
        },
        WizardState::AwaitInput(op) => match event {
            WizardEvent::Line(l) => {
                let t = trim_str(l.as_str());
                if chars_are(&t, "/exit") {
                    (same_state(state), quitting(true))
                } else if chars_are(&t, "/help") {
                    menu_with(Notice::Help)
                } else if t.len() == 0 {
                    menu_with(Notice::Nothing)
                } else {
                    (
                        WizardState::AwaitFiles(*op),
                        WizardAction { notice: Notice::Nothing, next: Next::Search(string_of(&t)) },
                    )
                }
            },
            WizardEvent::EndOfInput => menu_with(Notice::Shell),
            WizardEvent::Interrupted => menu_with(Notice::Cancelled),
            WizardEvent::ReadFailed => (same_state(state), quitting(false)),
            _ => menu_with(Notice::Nothing),
        },
        WizardState::AwaitFiles(op) => match event {
            WizardEvent::FilesFound(n) => if *n == 0 {
                menu_with(Notice::NoFiles)
            } else {
                (WizardState::AwaitOutput(*op), ask_with(Notice::Found(*n), Prompt::Output))
            },
            _ => menu_with(Notice::Nothing),
        },
        WizardState::AwaitOutput(op) => match event {
            WizardEvent::Line(l) => {
                let t = trim_str(l.as_str());
                if chars_are(&t, "/exit") {
                    (same_state(state), quitting(true))
                } else if chars_are(&t, "/help") {
                    (same_state(state), ask_with(Notice::Help, Prompt::Output))
                } else if t.len() > 0 {
                    (
                        WizardState::AwaitResolve(*op),
                        WizardAction { notice: Notice::Nothing, next: Next::Resolve(string_of(&t)) },
                    )
                } else {
                    after_output_step(config, *op, None, Notice::InPlace)
                }
            },
            WizardEvent::EndOfInput => (same_state(state), ask_with(Notice::Shell, Prompt::Output)),
            WizardEvent::Interrupted => menu_with(Notice::Cancelled),
            WizardEvent::ReadFailed => (same_state(state), quitting(false)),
            _ => menu_with(Notice::Nothing),
        },
        WizardState::AwaitResolve(op) => match event {
            WizardEvent::Resolved(d) => after_output_step(
                config,
                *op,
                Some(d.clone()),
                Notice::TargetDirectory(d.clone()),
            ),
            _ => menu_with(Notice::Nothing),
        },
        WizardState::AwaitWidth(output) => match event {
            WizardEvent::Line(l) => {
                let t = trim_str(l.as_str());
                let next = ask_with(
                    Notice::Nothing,
                    Prompt::LosslessFormat { default_webp: webp_is_default(config) },
                );
                if t.len() == 0 {
                    (WizardState::AwaitLosslessFormat(copy_text(output), config.width), next)
                } else {
                    match parse_u32(&t) {
                        Some(w) => (WizardState::AwaitLosslessFormat(copy_text(output), Some(w)), next),
                        None => (same_state(state), ask_with(Notice::InvalidWidth, Prompt::Width)),
                    }
                }
            },
            WizardEvent::Interrupted => menu_with(Notice::Nothing),
            WizardEvent::EndOfInput => (same_state(state), ask_with(Notice::Shell, Prompt::Width)),
            WizardEvent::ReadFailed => (same_state(state), quitting(false)),
            _ => menu_with(Notice::Nothing),
        },
        WizardState::AwaitSize(output) => match event {
            WizardEvent::Line(l) => {
                let t = trim_str(l.as_str());
                if is_float_text(&t) {
                    (WizardState::AwaitUnit(copy_text(output), string_of(&t)), ask_with(Notice::Nothing, Prompt::Unit))
                } else {
                    (same_state(state), ask_with(Notice::InvalidNumber, Prompt::SizeNumber))
                }
            },
            WizardEvent::Interrupted => menu_with(Notice::Nothing),
            WizardEvent::EndOfInput => (same_state(state), ask_with(Notice::Shell, Prompt::SizeNumber)),
            WizardEvent::ReadFailed => (same_state(state), quitting(false)),
            _ => menu_with(Notice::Nothing),
        },
        WizardState::AwaitUnit(output, number) => match event {
            WizardEvent::Chosen(Some(i)) => converting(
                Notice::Nothing,
                ConversionRequest {
                    output: copy_text(output),
                    width: config.width,
                    height: config.height,
                    format: config_format(config),
                    optimize: config_optimize(config),
                    size: Some(SizeRequest { number: number.clone(), unit: *i }),
                },
            ),
            WizardEvent::Chosen(None) => menu_with(Notice::Cancelled),
            _ => menu_with(Notice::Nothing),
        },
        WizardState::AwaitAnyFormat(output) => match event {
            WizardEvent::Chosen(Some(i)) => if *i < 7 {
                converting(
                    Notice::Nothing,
                    ConversionRequest {
                        output: copy_text(output),
                        width: config.width,
                        height: config.height,
                        format: any_format(*i),
                        optimize: false,
                        size: None,
                    },
                )
            } else {
                menu_with(Notice::Cancelled)
            },
            WizardEvent::Chosen(None) => menu_with(Notice::Cancelled),
            _ => menu_with(Notice::Nothing),
        },
        WizardState::AwaitLosslessFormat(output, width) => match event {
            WizardEvent::Chosen(Some(i)) => {
                let format = if *i == 0 {
                    string_of(&chars_of("png"))
                } else {
                    string_of(&chars_of("webp"))
                };
                (
                    WizardState::AwaitOptimize(copy_text(output), *width, format),
                    ask_with(Notice::Nothing, Prompt::Optimize { default_on: config_optimize(config) }),
                )
            },
            WizardEvent::Chosen(None) => menu_with(Notice::Cancelled),
            _ => menu_with(Notice::Nothing),
        },
        WizardState::AwaitOptimize(output, width, format) => match event {
            WizardEvent::Confirmed(Some(b)) => converting(
                Notice::Nothing,
                ConversionRequest {
                    output: copy_text(output),
                    width: *width,
                    height: config.height,
                    format: format.clone(),
                    optimize: *b,
                    size: None,
                },
            ),
            WizardEvent::Confirmed(None) => menu_with(Notice::Cancelled),
            _ => menu_with(Notice::Nothing),
        },
        WizardState::Converting => menu_with(Notice::Nothing),
    }
}


// ----- laws -----

/// Typing `/exit` at any typed prompt of the menu, the input or the output
/// folder leaves the program with a goodbye.
pub proof fn law_exit_word_quits(c: ConfigView, s: StateView, line: Seq<char>)
    requires
        s is Menu || s is AwaitInput || s is AwaitOutput,
        trimmed(line) == "/exit"@,
    ensures
        wizard_next(c, s, EventView::Line(line)).1 == quit(true),
{
}

/// The terminal key (end of input) opens the built-in terminal at every typed
/// prompt. Afterwards the menu comes back from the menu and the input prompt;
/// the output folder, width and size prompts are asked again in the same
/// state, so the session goes on where it was.
pub proof fn law_terminal_key_opens_shell(c: ConfigView, s: StateView)
    requires
        s is Menu || s is AwaitInput || s is AwaitOutput || s is AwaitWidth || s is AwaitSize,
    ensures
        wizard_next(c, s, EventView::EndOfInput).1.notice == NoticeView::Shell,
        s is Menu || s is AwaitInput ==> wizard_next(c, s, EventView::EndOfInput) == to_menu(NoticeView::Shell),
        s is AwaitOutput ==> wizard_next(c, s, EventView::EndOfInput) == (s, ask(NoticeView::Shell, Prompt::Output)),
        s is AwaitWidth ==> wizard_next(c, s, EventView::EndOfInput) == (s, ask(NoticeView::Shell, Prompt::Width)),
        s is AwaitSize ==> wizard_next(c, s, EventView::EndOfInput) == (s, ask(NoticeView::Shell, Prompt::SizeNumber)),
{
}

/// The session ends only in three ways: `/exit` typed at the menu, input or
/// output prompt, or Ctrl-C at the menu (both with a goodbye), or a failed
/// read (without one). Every other step asks, searches, resolves or converts,
/// and after a conversion the main menu comes back.
pub proof fn law_session_ends_only_on_request(c: ConfigView, s: StateView, e: EventView)
    ensures
        wizard_next(c, s, e).1.next is Quit ==> {
            ||| (s is Menu || s is AwaitInput || s is AwaitOutput) && (e matches EventView::Line(l)
                && trimmed(l) == "/exit"@) && wizard_next(c, s, e).1 == quit(true)
            ||| s is Menu && e is Interrupted && wizard_next(c, s, e).1 == quit(true)
            ||| e is ReadFailed && wizard_next(c, s, e).1 == quit(false)
        },
        s is Converting ==> wizard_next(c, s, e) == to_menu(NoticeView::Nothing),
{
}

/// Ctrl-C quits at the main menu; while a conversion is being set up it
/// abandons the setup and returns to the main menu (saying so after the
/// input and output prompts).
pub proof fn law_interrupt_abandons_setup(c: ConfigView, s: StateView)
    ensures
        s is Menu ==> wizard_next(c, s, EventView::Interrupted).1 == quit(true),
        s is AwaitInput || s is AwaitOutput ==> wizard_next(c, s, EventView::Interrupted) == to_menu(
            NoticeView::Cancelled,
        ),
        s is AwaitWidth || s is AwaitSize ==> wizard_next(c, s, EventView::Interrupted) == to_menu(
            NoticeView::Nothing,
        ),
{
}

/// Dismissing any choice (unit, format, optimization) cancels back to the
/// main menu.
pub proof fn law_dismissed_choice_cancels(c: ConfigView, s: StateView)
    ensures
        s is AwaitUnit || s is AwaitAnyFormat || s is AwaitLosslessFormat ==> wizard_next(
            c,
            s,
            EventView::Chosen(None),
        ) == to_menu(NoticeView::Cancelled),
        s is AwaitOptimize ==> wizard_next(c, s, EventView::Confirmed(None)) == to_menu(
            NoticeView::Cancelled,
        ),
{
}

/// Every conversion the wizard asks for uses the project's height, and the
/// project's width unless the lossless operation asked for one.
pub proof fn law_requests_keep_project_size(c: ConfigView, s: StateView, e: EventView)
    ensures
        wizard_next(c, s, e).1.next matches NextView::Convert(r) ==> r.height == c.height && (
        !(s is AwaitOptimize) ==> r.width == c.width),
{
}

/// Only the lossless operation's choice reaches the optimization question,
/// so the format held there, and converted to, is PNG or WebP.
pub proof fn law_lossless_formats_only(c: ConfigView, s: StateView, e: EventView)
    requires
        s matches StateView::AwaitOptimize(_, _, f) ==> f == "png"@ || f == "webp"@,
    ensures
        wizard_next(c, s, e).0 matches StateView::AwaitOptimize(_, _, f) ==> f == "png"@ || f == "webp"@,
        s is AwaitOptimize ==> (wizard_next(c, s, e).1.next matches NextView::Convert(r) ==> r.format
            == "png"@ || r.format == "webp"@),
{
}

/// The states that come after a search found files.
pub open spec fn after_search(s: StateView) -> bool {
    !(s is Menu || s is AwaitInput || s is AwaitFiles)
}

/// A conversion runs only once files were found: conversions are asked for
/// only from states after a search, and the only way into those states is a
/// search that found at least one file.
pub proof fn law_convert_needs_found_files(c: ConfigView, s: StateView, e: EventView)
    ensures
        wizard_next(c, s, e).1.next is Convert ==> after_search(s),
        !after_search(s) && after_search(wizard_next(c, s, e).0) ==> s is AwaitFiles && (e matches EventView::FilesFound(n) && n > 0),
{
}

/// The whole lossless flow: choosing operation 2, giving a pattern that
/// finds files, keeping output in place, typing a width, picking a format and
/// answering the optimization question asks for exactly that conversion.
pub proof fn law_lossless_flow(
    c: ConfigView,
    op_line: Seq<char>,
    pattern: Seq<char>,
    found: usize,
    out_line: Seq<char>,
    width_line: Seq<char>,
    pick: usize,
    optimize: bool,
)
    requires
        operation_named(trimmed(op_line)) == Some(Operation::Lossless),
        trimmed(pattern).len() > 0,
        trimmed(pattern) != "/exit"@,
        trimmed(pattern) != "/help"@,
        found > 0,
        trimmed(out_line).len() == 0,
        u32_value(trimmed(width_line)) is Some,
    ensures
        ({
            let (s1, a1) = wizard_next(c, StateView::Menu, EventView::Line(op_line));
            let (s2, a2) = wizard_next(c, s1, EventView::Line(pattern));
            let (s3, a3) = wizard_next(c, s2, EventView::FilesFound(found));
            let (s4, a4) = wizard_next(c, s3, EventView::Line(out_line));
            let (s5, a5) = wizard_next(c, s4, EventView::Line(width_line));
            let (s6, a6) = wizard_next(c, s5, EventView::Chosen(Some(pick)));
            let (s7, a7) = wizard_next(c, s6, EventView::Confirmed(Some(optimize)));
            &&& a2.next == NextView::Search(trimmed(pattern))
            &&& a4.notice == NoticeView::InPlace
            &&& a7.next == NextView::Convert(
                RequestView {
                    output: None,
                    width: u32_value(trimmed(width_line)),
                    height: c.height,
                    format: if pick == 0 { "png"@ } else { "webp"@ },
                    optimize,
                    size: None,
                },
            )
        }),
{
    reveal_strlit("/exit");
    reveal_strlit("/help");
    reveal_strlit("1");
    reveal_strlit("2");
    let t = trimmed(op_line);
    assert(t == "2"@) by {
        if t == "1"@ {
        }
    }
    assert(t != "/exit"@);
    assert(t != "/help"@);
    assert(trimmed(width_line).len() > 0);
}

/// The output a state carries toward its conversion, when it carries one.
pub open spec fn carried_output(s: StateView) -> Option<Option<Seq<char>>> {
    match s {
        StateView::AwaitWidth(o) => Some(o),
        StateView::AwaitSize(o) => Some(o),
        StateView::AwaitUnit(o, _) => Some(o),
        StateView::AwaitAnyFormat(o) => Some(o),
        StateView::AwaitLosslessFormat(o, _) => Some(o),
        StateView::AwaitOptimize(o, _, _) => Some(o),
        _ => None,
    }
}

/// The folder resolved at the output prompt reaches the conversion. Right
/// after it is resolved, and shown, every operation either converts into it
/// or moves to a question that carries it; every later step keeps carrying
/// the same output, converts into exactly that output, or leaves the setup.
pub proof fn law_resolved_folder_reaches_conversion(
    c: ConfigView,
    op: Operation,
    d: Seq<char>,
    s: StateView,
    e: EventView,
)
    ensures
        wizard_next(c, StateView::AwaitResolve(op), EventView::Resolved(d)).1.notice == NoticeView::TargetDirectory(d),
        op is Standard ==> (wizard_next(c, StateView::AwaitResolve(op), EventView::Resolved(d)).1.next matches NextView::Convert(q)
            && q.output == Some(d)),
        !(op is Standard) ==> carried_output(
            wizard_next(c, StateView::AwaitResolve(op), EventView::Resolved(d)).0,
        ) == Some(Some(d)),
        carried_output(s) is Some ==> {
            ||| carried_output(wizard_next(c, s, e).0) == carried_output(s)
            ||| (wizard_next(c, s, e).1.next matches NextView::Convert(q) && Some(q.output) == carried_output(s))
            ||| wizard_next(c, s, e).0 is Menu
            ||| wizard_next(c, s, e).1.next is Quit
        },
{
}

/// Item `i` of the universal converter's format menu requests exactly the
/// `i`-th label of png, jpg, webp, bmp, ico, tiff, gif, into the carried
/// output.
pub proof fn law_format_menu_labels(c: ConfigView, o: Option<Seq<char>>, i: usize)
    requires
        i < 7,
    ensures
        wizard_next(c, StateView::AwaitAnyFormat(o), EventView::Chosen(Some(i))).1.next matches NextView::Convert(q)
            && q.format == seq!["png"@, "jpg"@, "webp"@, "bmp"@, "ico"@, "tiff"@, "gif"@][i as int] && q.output == o,
{
}

} // verus!
