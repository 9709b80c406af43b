use vexell::paths::PathModel;
use vexell::targeting::QualitySearch;
use vexell::settings::Config;
use vexell::wizard::{wizard_step, Next, Notice, WizardEvent, WizardState};

fn chars(s: &str) -> Vec<char> {
    s.chars().collect()
}

#[test]
fn new_extension_reads_back() {
    let mut p = PathModel { anchor: vec!["/".into()], names: vec!["d".into(), "pic.old.svg".into()] };
    p.set_extension(&chars("webp"));
    assert_eq!(p.extension(), Some(chars("webp")));
    assert_eq!(p.names[0], "d");
    assert_eq!(p.names[1], "pic.old.webp");
}

#[test]
fn search_keeps_last_fitting_encoding() {
    let sizes = [900usize, 400, 700, 2000, 1500, 1200, 1100, 1001, 1300, 1050, 1002, 1010];
    let mut s = QualitySearch::new(1000);
    let mut kept = None;
    for (i, size) in sizes.iter().enumerate() {
        let (next, keep) = s.record(*size);
        if keep {
            kept = Some(i);
        }
        s = next;
    }
    assert!(s.is_finished());
    assert_eq!(kept, Some(2));
    assert_eq!(s.kept, Some(2));
    assert_eq!(s.kept_len, 700);
}

#[test]
fn search_keeps_first_when_nothing_fits() {
    let mut s = QualitySearch::new(10);
    while !s.is_finished() {
        s = s.record(500).0;
    }
    assert_eq!(s.kept, Some(0));
    assert_eq!(s.kept_len, 500);
    assert_eq!(s.high - s.low, 99);
}

#[test]
fn interrupt_and_dismiss_go_back_to_menu() {
    let c = Config { width: None, height: None, format: None, optimize: None, output_dir: None };
    let (s, a) = wizard_step(&c, &WizardState::AwaitWidth(None), &WizardEvent::Interrupted);
    assert!(matches!(s, WizardState::Menu));
    assert!(matches!(a.notice, Notice::Nothing));
    let st = WizardState::AwaitOptimize(None, Some(5), "png".into());
    let (s, a) = wizard_step(&c, &st, &WizardEvent::Confirmed(None));
    assert!(matches!(s, WizardState::Menu));
    assert!(matches!(a.notice, Notice::Cancelled));
    let (s, a) = wizard_step(&c, &WizardState::AwaitAnyFormat(None), &WizardEvent::Chosen(None));
    assert!(matches!(s, WizardState::Menu));
    assert!(matches!(a.notice, Notice::Cancelled));
    let (_, a) = wizard_step(&c, &WizardState::AwaitLosslessFormat(None, None), &WizardEvent::Chosen(None));
    assert!(matches!(a.notice, Notice::Cancelled));
    let (_, a) = wizard_step(&c, &WizardState::AwaitOutput(vexell::wizard::Operation::Lossless), &WizardEvent::Line("/exit".into()));
    assert!(matches!(a.next, Next::Quit { goodbye: true }));
}

#[test]
fn search_lands_within_a_step_of_best_quality() {
    // sizes rise with quality; the best fitting quality is 60.5 (247808/4096)
    let size = |q: u32| q as usize;
    let target = 247_808usize;
    let mut s = QualitySearch::new(target);
    let mut kept_q = 0u32;
    while !s.is_finished() {
        let q = s.probe_quality();
        let (next, keep) = s.record(size(q));
        if keep {
            kept_q = q;
        }
        s = next;
    }
    assert!(size(kept_q) <= target);
    assert!(kept_q <= 247_808 && kept_q + 99 >= 247_808);
    assert_eq!(kept_q, s.low);
}
