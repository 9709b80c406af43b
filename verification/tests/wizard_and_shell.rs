use vexell::batch::{batch_start, on_interrupt, plan_batch_item, BatchStart, InterruptAction, OutputTarget};
use vexell::paths::PathModel;
use vexell::settings::{input_is_literal, resolve, CliArgs, Config};
use vexell::shell::{shell_step, ShellCommand, ShellEvent};
use vexell::wizard::{
    wizard_step, Next, Notice, Operation, Prompt, WizardEvent, WizardState,
};

fn path(anchor: &[&str], names: &[&str]) -> PathModel {
    PathModel {
        anchor: anchor.iter().map(|s| s.to_string()).collect(),
        names: names.iter().map(|s| s.to_string()).collect(),
    }
}

fn no_config() -> Config {
    Config { width: None, height: None, format: None, optimize: None, output_dir: None }
}

fn line(s: &str) -> WizardEvent {
    WizardEvent::Line(s.to_string())
}

#[test]
fn cli_arguments_win_over_project() {
    let args = CliArgs {
        input: Some("a.svg".into()),
        output: None,
        width: Some(100),
        height: None,
        format: None,
        optimize: false,
        target_size: Some(5),
    };
    let config = Config {
        width: Some(1),
        height: Some(2),
        format: Some("webp".into()),
        optimize: Some(true),
        output_dir: Some("dist".into()),
    };
    let s = resolve(&args, &config);
    assert_eq!(s.width, Some(100));
    assert_eq!(s.height, Some(2));
    assert_eq!(s.format, "webp");
    assert!(s.optimize);
    assert_eq!(s.output, Some("dist".to_string()));
    assert_eq!(s.target_size, Some(5));
    let s2 = resolve(&args, &no_config());
    assert_eq!(s2.format, "png");
    assert!(!s2.optimize);
    assert_eq!(s2.output, None);
}

#[test]
fn literal_input_or_glob() {
    assert!(input_is_literal(true, "icon.svg"));
    assert!(!input_is_literal(true, "src/*.svg"));
    assert!(!input_is_literal(false, "icon.svg"));
}

#[test]
fn batch_item_plans_format_and_path() {
    let base = path(&["/"], &["p"]);
    let file = path(&["/"], &["p", "sub", "x.SVG"]);
    let target = OutputTarget { text: "out".into(), path: path(&[], &["out"]), is_dir: false };
    let item = plan_batch_item("auto", &file, Some(&target), &base);
    assert_eq!(item.format, "png");
    let out = item.exact_output.unwrap();
    assert_eq!(out.names, vec!["out".to_string(), "sub".to_string(), "x.png".to_string()]);
    let item2 = plan_batch_item("gif", &file, None, &base);
    assert_eq!(item2.format, "gif");
    assert!(item2.exact_output.is_none());
}

#[test]
fn menu_lines() {
    let c = no_config();
    let (s, a) = wizard_step(&c, &WizardState::Menu, &line("  /exit "));
    assert!(matches!(s, WizardState::Menu));
    assert!(matches!(a.next, Next::Quit { goodbye: true }));
    let (_, a) = wizard_step(&c, &WizardState::Menu, &line("/help"));
    assert!(matches!(a.notice, Notice::Help));
    assert!(matches!(a.next, Next::Ask(Prompt::Operation)));
    let (_, a) = wizard_step(&c, &WizardState::Menu, &line("9"));
    assert!(matches!(a.notice, Notice::InvalidOperation));
    let (_, a) = wizard_step(&c, &WizardState::Menu, &line(""));
    assert!(matches!(a.notice, Notice::Nothing));
    let (s, a) = wizard_step(&c, &WizardState::Menu, &line("3\n"));
    assert!(matches!(s, WizardState::AwaitInput(Operation::SizeTarget)));
    assert!(matches!(a.next, Next::Ask(Prompt::Input)));
    let (_, a) = wizard_step(&c, &WizardState::Menu, &WizardEvent::EndOfInput);
    assert!(matches!(a.notice, Notice::Shell));
    let (_, a) = wizard_step(&c, &WizardState::Menu, &WizardEvent::Interrupted);
    assert!(matches!(a.next, Next::Quit { goodbye: true }));
    let (_, a) = wizard_step(&c, &WizardState::Menu, &WizardEvent::ReadFailed);
    assert!(matches!(a.next, Next::Quit { goodbye: false }));
}

#[test]
fn input_and_output_prompts() {
    let c = no_config();
    let st = WizardState::AwaitInput(Operation::Standard);
    let (s, a) = wizard_step(&c, &st, &line("  icons/*.svg "));
    assert!(matches!(s, WizardState::AwaitFiles(Operation::Standard)));
    match a.next {
        Next::Search(p) => assert_eq!(p, "icons/*.svg"),
        _ => panic!("expected a search"),
    }
    let (s, a) = wizard_step(&c, &st, &WizardEvent::Interrupted);
    assert!(matches!(s, WizardState::Menu));
    assert!(matches!(a.notice, Notice::Cancelled));
    let (s, a) = wizard_step(&c, &WizardState::AwaitFiles(Operation::Standard), &WizardEvent::FilesFound(0));
    assert!(matches!(s, WizardState::Menu));
    assert!(matches!(a.notice, Notice::NoFiles));
    let (s, a) = wizard_step(&c, &WizardState::AwaitFiles(Operation::Standard), &WizardEvent::FilesFound(3));
    assert!(matches!(s, WizardState::AwaitOutput(Operation::Standard)));
    assert!(matches!(a.notice, Notice::Found(3)));
    let out = WizardState::AwaitOutput(Operation::Standard);
    let (s, a) = wizard_step(&c, &out, &line("/help"));
    assert!(matches!(s, WizardState::AwaitOutput(Operation::Standard)));
    assert!(matches!(a.notice, Notice::Help));
    let (s, a) = wizard_step(&c, &out, &WizardEvent::EndOfInput);
    assert!(matches!(s, WizardState::AwaitOutput(_)));
    assert!(matches!(a.notice, Notice::Shell));
    let (s, a) = wizard_step(&c, &out, &line(" dist "));
    assert!(matches!(s, WizardState::AwaitResolve(Operation::Standard)));
    match a.next {
        Next::Resolve(t) => assert_eq!(t, "dist"),
        _ => panic!("expected a resolve"),
    }
}

#[test]
fn standard_operation_uses_project_defaults() {
    let c = Config { width: Some(64), height: None, format: None, optimize: Some(true), output_dir: None };
    let (s, a) = wizard_step(&c, &WizardState::AwaitResolve(Operation::Standard), &WizardEvent::Resolved("/abs/dist".into()));
    assert!(matches!(s, WizardState::Converting));
    match a.notice {
        Notice::TargetDirectory(d) => assert_eq!(d, "/abs/dist"),
        _ => panic!("expected the target folder"),
    }
    match a.next {
        Next::Convert(r) => {
            assert_eq!(r.output, Some("/abs/dist".to_string()));
            assert_eq!(r.width, Some(64));
            assert_eq!(r.format, "auto");
            assert!(r.optimize);
            assert!(r.size.is_none());
        },
        _ => panic!("expected a conversion"),
    }
    let (s, _) = wizard_step(&c, &WizardState::Converting, &WizardEvent::Finished);
    assert!(matches!(s, WizardState::Menu));
}

#[test]
fn lossless_flow() {
    let c = Config { width: None, height: Some(10), format: Some("webp".into()), optimize: None, output_dir: None };
    let mut s = WizardState::Menu;
    let events = vec![line("2"), line("a.svg"), WizardEvent::FilesFound(1), line("")];
    for e in &events {
        s = wizard_step(&c, &s, e).0;
    }
    assert!(matches!(s, WizardState::AwaitWidth(None)));
    let (s2, a) = wizard_step(&c, &s, &line("abc"));
    assert!(matches!(a.notice, Notice::InvalidWidth));
    let (s3, a) = wizard_step(&c, &s2, &line("4000"));
    assert!(matches!(a.next, Next::Ask(Prompt::LosslessFormat { default_webp: true })));
    let (s4, a) = wizard_step(&c, &s3, &WizardEvent::Chosen(Some(1)));
    assert!(matches!(a.next, Next::Ask(Prompt::Optimize { default_on: false })));
    let (_, a) = wizard_step(&c, &s4, &WizardEvent::Confirmed(Some(true)));
    match a.next {
        Next::Convert(r) => {
            assert_eq!(r.width, Some(4000));
            assert_eq!(r.height, Some(10));
            assert_eq!(r.format, "webp");
            assert!(r.optimize);
            assert_eq!(r.output, None);
        },
        _ => panic!("expected a conversion"),
    }
    let (s5, a) = wizard_step(&c, &s2, &WizardEvent::EndOfInput);
    assert!(matches!(a.notice, Notice::Shell));
    assert!(matches!(a.next, Next::Ask(Prompt::Width)));
    assert!(matches!(s5, WizardState::AwaitWidth(_)));
}

#[test]
fn size_and_format_flows() {
    let c = no_config();
    let st = WizardState::AwaitSize(None);
    let (_, a) = wizard_step(&c, &st, &line("lots"));
    assert!(matches!(a.notice, Notice::InvalidNumber));
    let (again, a) = wizard_step(&c, &st, &WizardEvent::EndOfInput);
    assert!(matches!(a.notice, Notice::Shell));
    assert!(matches!(a.next, Next::Ask(Prompt::SizeNumber)));
    assert!(matches!(again, WizardState::AwaitSize(None)));
    let (s, a) = wizard_step(&c, &st, &line(" 1.5 "));
    assert!(matches!(a.next, Next::Ask(Prompt::Unit)));
    let (_, a) = wizard_step(&c, &s, &WizardEvent::Chosen(Some(2)));
    match a.next {
        Next::Convert(r) => {
            let size = r.size.unwrap();
            assert_eq!(size.number, "1.5");
            assert_eq!(size.unit, 2);
            assert_eq!(r.format, "auto");
        },
        _ => panic!("expected a conversion"),
    }
    let (s, a) = wizard_step(&c, &s, &WizardEvent::Chosen(None));
    assert!(matches!(s, WizardState::Menu));
    assert!(matches!(a.notice, Notice::Cancelled));
    let any = WizardState::AwaitAnyFormat(Some("/o".into()));
    let (_, a) = wizard_step(&c, &any, &WizardEvent::Chosen(Some(5)));
    match a.next {
        Next::Convert(r) => {
            assert_eq!(r.format, "tiff");
            assert!(!r.optimize);
            assert_eq!(r.output, Some("/o".to_string()));
        },
        _ => panic!("expected a conversion"),
    }
}

#[test]
fn terminal_commands() {
    let step = shell_step(&ShellEvent::Line("  cd   ../docs  ".into()));
    match step.command {
        ShellCommand::ChangeDir(d) => assert_eq!(d, "../docs"),
        _ => panic!("expected cd"),
    }
    assert_eq!(step.history, Some("cd   ../docs".to_string()));
    let step = shell_step(&ShellEvent::Line("ls -la".into()));
    assert!(matches!(step.command, ShellCommand::Run(ref l) if l == "ls -la"));
    let step = shell_step(&ShellEvent::Line("cd".into()));
    assert!(matches!(step.command, ShellCommand::Run(ref l) if l == "cd"));
    let step = shell_step(&ShellEvent::Line("/exit".into()));
    assert!(matches!(step.command, ShellCommand::Quit));
    assert!(step.history.is_none());
    let step = shell_step(&ShellEvent::Line("/help".into()));
    assert!(matches!(step.command, ShellCommand::Help));
    let step = shell_step(&ShellEvent::Line("   ".into()));
    assert!(matches!(step.command, ShellCommand::Nothing));
    assert_eq!(step.history, Some(String::new()));
    assert!(matches!(shell_step(&ShellEvent::Interrupted).command, ShellCommand::Leave));
    assert!(matches!(shell_step(&ShellEvent::ReadFailed).command, ShellCommand::Fail));
}

#[test]
fn batch_opening_decisions() {
    assert!(matches!(batch_start(0, None), BatchStart::NoFiles));
    assert!(matches!(batch_start(0, Some(500)), BatchStart::NoFiles));
    assert!(matches!(batch_start(3, Some(500)), BatchStart::Targeting(500)));
    assert!(matches!(batch_start(3, None), BatchStart::Lossless(3)));
}

#[test]
fn second_interrupt_force_quits() {
    let (flag, first) = on_interrupt(false);
    assert!(flag);
    assert!(matches!(first, InterruptAction::CancelGracefully));
    let (flag, second) = on_interrupt(flag);
    assert!(flag);
    assert!(matches!(second, InterruptAction::ForceQuit));
}

#[test]
fn session_ends_only_on_request() {
    let c = Config { width: None, height: None, format: None, optimize: None, output_dir: None };
    let states = vec![
        WizardState::Menu,
        WizardState::AwaitWidth(None),
        WizardState::AwaitSize(None),
        WizardState::Converting,
    ];
    for st in &states {
        for e in [
            WizardEvent::Line("1".to_string()),
            WizardEvent::Line("".to_string()),
            WizardEvent::EndOfInput,
            WizardEvent::Chosen(None),
            WizardEvent::Finished,
        ] {
            let (_, a) = wizard_step(&c, st, &e);
            assert!(!matches!(a.next, Next::Quit { .. }));
        }
    }
    let (_, a) = wizard_step(&c, &WizardState::Converting, &WizardEvent::Interrupted);
    assert!(matches!(a.next, Next::Ask(Prompt::Operation)));
    let (_, a) = wizard_step(&c, &WizardState::AwaitWidth(None), &WizardEvent::ReadFailed);
    assert!(matches!(a.next, Next::Quit { goodbye: false }));
    let (_, a) = wizard_step(&c, &WizardState::Menu, &WizardEvent::Interrupted);
    assert!(matches!(a.next, Next::Quit { goodbye: true }));
}
