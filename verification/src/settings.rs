//! Command-line arguments, the project file's defaults, and how they combine.

use vstd::prelude::*;
use crate::text::chars_of;

verus! {

/// Defaults read from the project file (`vexell.toml`); a missing or
/// unreadable file gives no defaults.
pub struct Config {
    pub width: Option<u32>,
    pub height: Option<u32>,
    pub format: Option<String>,
    pub optimize: Option<bool>,
    pub output_dir: Option<String>,
}

/// The command-line arguments.
pub struct CliArgs {
    /// Input file or glob pattern; without it the interactive wizard runs.
    pub input: Option<String>,
    /// Output file or folder.
    pub output: Option<String>,
    pub width: Option<u32>,
    pub height: Option<u32>,
    pub format: Option<String>,
    pub optimize: bool,
    /// Target file size in bytes.
    pub target_size: Option<usize>,
}

/// What a command-line conversion runs with.
pub struct Settings {
    pub width: Option<u32>,
    pub height: Option<u32>,
    pub format: String,
    pub optimize: bool,
    pub output: Option<String>,
    pub target_size: Option<usize>,
}

pub open spec fn opt_text(o: Option<String>) -> Option<Seq<char>> {
    match o {
        Some(s) => Some(s@),
        None => None,
    }
}

pub open spec fn either<T>(first: Option<T>, second: Option<T>) -> Option<T> {
    match first {
        Some(v) => Some(v),
        None => second,
    }
}

pub struct ConfigView {
    pub width: Option<u32>,
    pub height: Option<u32>,
    pub format: Option<Seq<char>>,
    pub optimize: Option<bool>,
    pub output_dir: Option<Seq<char>>,
}

impl View for Config {
    type V = ConfigView;

    open spec fn view(&self) -> ConfigView {
        ConfigView {
            width: self.width,
            height: self.height,
            format: opt_text(self.format),
            optimize: self.optimize,
            output_dir: opt_text(self.output_dir),
        }
    }
}

pub struct SettingsView {
    pub width: Option<u32>,
    pub height: Option<u32>,
    pub format: Seq<char>,
    pub optimize: bool,
    pub output: Option<Seq<char>>,
    pub target_size: Option<usize>,
}

impl View for Settings {
    type V = SettingsView;

    open spec fn view(&self) -> SettingsView {
        SettingsView {
            width: self.width,
            height: self.height,
            format: self.format@,
            optimize: self.optimize,
            output: opt_text(self.output),
            target_size: self.target_size,
        }
    }
}

/// Arguments win over the project file; the format falls back to PNG;
/// optimization is on when either asks for it; the size target comes from
/// the arguments only.
pub open spec fn resolved(args: CliArgs, config: ConfigView) -> SettingsView {
    SettingsView {
        width: either(args.width, config.width),
        height: either(args.height, config.height),
        format: match opt_text(args.format) {
            Some(f) => f,
            None => match config.format {
                Some(f) => f,
                None => "png"@,
            },
        },
        optimize: args.optimize || config.optimize == Some(true),
        output: either(opt_text(args.output), config.output_dir),
        target_size: args.target_size,
    }
}

fn clone_text(o: &Option<String>) -> (r: Option<String>)
    ensures
        opt_text(r) == opt_text(*o),
{
    match o {
        Some(s) => Some(s.clone()),
        None => None,
    }
}

/// Combines arguments and project defaults (see `resolved`).
pub fn resolve(args: &CliArgs, config: &Config) -> (r: Settings)
    ensures
        r@ == resolved(*args, config@),
{
    let format = match &args.format {
        Some(f) => f.clone(),
        None => match &config.format {
            Some(f) => f.clone(),
            None => crate::text::string_of(&chars_of("png")),
        },
    };
    let optimize = args.optimize || match config.optimize {
        Some(b) => b,
        None => false,
    };
    let output = match &args.output {
        Some(o) => Some(o.clone()),
        None => clone_text(&config.output_dir),
    };
    Settings {
        width: match args.width {
            Some(w) => Some(w),
            None => config.width,
        },
        height: match args.height {
            Some(h) => Some(h),
            None => config.height,
        },
        format,
        optimize,
        output,
        target_size: args.target_size,
    }
}

/// An input argument is taken as one literal path when something exists
/// there and it holds no `*`; otherwise it is expanded as a glob pattern.
pub fn input_is_literal(exists: bool, pattern: &str) -> (r: bool)
    ensures
        r == (exists && !pattern@.contains('*')),
{
    if !exists {
        return false;
    }
    let v = chars_of(pattern);
    let mut i: usize = 0;
    while i < v.len()
        invariant
            v@ == pattern@,
            i <= v@.len(),
            forall|k: int| 0 <= k < i ==> v@[k] != '*',
        decreases v.len() - i,
    {
        if v[i] == '*' {
            assert(v@[i as int] == '*');
            return false;
        }
        i += 1;
    }
    true
}

/// A command-line argument always wins over the project file: a given
/// format, width, height or output is used as given, whatever `vexell.toml`
/// holds. Without a format argument the project's format is used, and PNG
/// without either; optimization is on when the argument asks for it; the size
/// target is the argument's.
pub proof fn law_arguments_win(args: CliArgs, config: ConfigView)
    ensures
        args.format matches Some(f) ==> resolved(args, config).format == f@,
        args.format is None ==> resolved(args, config).format == match config.format {
            Some(g) => g,
            None => "png"@,
        },
        args.width matches Some(w) ==> resolved(args, config).width == Some(w),
        args.height matches Some(h) ==> resolved(args, config).height == Some(h),
        args.output matches Some(o) ==> resolved(args, config).output == Some(o@),
        args.optimize ==> resolved(args, config).optimize,
        resolved(args, config).target_size == args.target_size,
{
}

} // verus!
