//! Planning each file of a batch: its format and, when an output argument
//! is given, its exact output path.

use vstd::prelude::*;
use crate::format::{batch_format, batch_format_for};
use crate::paths::{fits, plan_output, planned_output, PathModel, PathView};
use crate::text::chars_of;

verus! {

/// An output argument: as typed, as a path, and whether a folder exists there.
pub struct OutputTarget {
    pub text: String,
    pub path: PathModel,
    pub is_dir: bool,
}

/// What a batch decides for one file.
pub struct BatchItem {
    /// The format the file is converted to.
    pub format: String,
    /// The exact output path, when an output argument was given.
    pub exact_output: Option<PathModel>,
}

pub struct BatchItemView {
    pub format: Seq<char>,
    pub exact_output: Option<PathView>,
}

impl View for BatchItem {
    type V = BatchItemView;

    open spec fn view(&self) -> BatchItemView {
        BatchItemView {
            format: self.format@,
            exact_output: match self.exact_output {
                Some(p) => Some(p@),
                None => None,
            },
        }
    }
}

/// A file's format is `batch_format` of the request and its extension; its
/// output path is `planned_output` with that format.
pub open spec fn batch_item(
    requested: Seq<char>,
    file: PathView,
    output: Option<OutputTarget>,
    base: PathView,
) -> BatchItemView {
    let format = batch_format(requested, crate::paths::extension(file));
    BatchItemView {
        format,
        exact_output: match output {
            Some(o) => Some(planned_output(o.text@, o.path@, o.is_dir, file, base, format)),
            None => None,
        },
    }
}

/// How a batch opens: with nothing to do, or announcing a size-targeted or
/// a lossless run.
pub enum BatchStart {
    /// No input files: report it and end the batch as failed.
    NoFiles,
    /// Announce the size targeter and its byte target.
    Targeting(usize),
    /// Announce a lossless conversion of this many files.
    Lossless(usize),
}

/// Decides how a batch of `file_count` files opens.
pub fn batch_start(file_count: usize, target: Option<usize>) -> (r: BatchStart)
    ensures
        file_count == 0 ==> r is NoFiles,
        file_count > 0 ==> match target {
            Some(t) => r == BatchStart::Targeting(t),
            None => r == BatchStart::Lossless(file_count),
        },
{
    if file_count == 0 {
        BatchStart::NoFiles
    } else {
        match target {
            Some(t) => BatchStart::Targeting(t),
            None => BatchStart::Lossless(file_count),
        }
    }
}

/// What Ctrl-C does during a conversion.
pub enum InterruptAction {
    /// Ask the batch to stop after the files already under way.
    CancelGracefully,
    /// Leave the program at once.
    ForceQuit,
}

/// Ctrl-C while converting: the first press cancels gracefully, a press
/// while a cancel is already under way quits at once. Either way a cancel is
/// under way afterwards.
pub fn on_interrupt(cancelling: bool) -> (r: (bool, InterruptAction))
    ensures
        r.0,
        r.1 == if cancelling { InterruptAction::ForceQuit } else { InterruptAction::CancelGracefully },
{
    if cancelling {
        (true, InterruptAction::ForceQuit)
    } else {
        (true, InterruptAction::CancelGracefully)
    }
}

/// Plans one file of a batch (see `batch_item`).
pub fn plan_batch_item(
    requested: &str,
    file: &PathModel,
    output: Option<&OutputTarget>,
    base: &PathModel,
) -> (r: BatchItem)
    requires
        fits(file@),
        fits(base@),
        output matches Some(o) ==> fits(o.path@) && o.path@.anchor.len() + o.path@.names.len()
            + file@.names.len() <= usize::MAX,
    ensures
        r@ == batch_item(
            requested@,
            file@,
            match output {
                Some(o) => Some(*o),
                None => None,
            },
            base@,
        ),
        r.exact_output matches Some(p) ==> fits(p@),
{
    let req = chars_of(requested);
    let format = batch_format_for(&req, file.extension());
    let exact_output = match output {
        Some(o) => {
            let text = chars_of(o.text.as_str());
            Some(plan_output(&text, &o.path, o.is_dir, file, base, &format))
        },
        None => None,
    };
    BatchItem { format: crate::text::string_of(&format), exact_output }
}

} // verus!
