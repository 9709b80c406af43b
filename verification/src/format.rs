//! Output formats and the per-file conversion plan: which encoder runs,
//! which fix-ups apply, where the file goes, and whether it is deep-compressed.

use vstd::prelude::*;
use crate::text::{chars_of, folds_to, folds_to_text, string_of};
use crate::paths::{extension, file_name, final_output, final_output_path, fits, law_in_place_takes_new_extension, popped, PathModel, PathView};

verus! {

/// An image format that a conversion can write.
#[derive(Clone, Copy, Debug, PartialEq, Eq, Structural)]
pub enum OutputFormat {
    Png,
    Jpeg,
    WebP,
    Bmp,
    Ico,
    Tiff,
    Gif,
}

/// The format named by a format argument, its case ignored; any name it
/// does not know gives PNG.
pub open spec fn format_named(name: Seq<char>) -> OutputFormat {
    if folds_to_text(name, "jpg"@) || folds_to_text(name, "jpeg"@) {
        OutputFormat::Jpeg
    } else if folds_to_text(name, "webp"@) {
        OutputFormat::WebP
    } else if folds_to_text(name, "bmp"@) {
        OutputFormat::Bmp
    } else if folds_to_text(name, "ico"@) {
        OutputFormat::Ico
    } else if folds_to_text(name, "tiff"@) {
        OutputFormat::Tiff
    } else if folds_to_text(name, "gif"@) {
        OutputFormat::Gif
    } else {
        OutputFormat::Png
    }
}

/// The format named by a format argument (see `format_named`).
pub fn output_format(name: &Vec<char>) -> (f: OutputFormat)
    ensures
        f == format_named(name@),
{
    if folds_to(name, "jpg") || folds_to(name, "jpeg") {
        OutputFormat::Jpeg
    } else if folds_to(name, "webp") {
        OutputFormat::WebP
    } else if folds_to(name, "bmp") {
        OutputFormat::Bmp
    } else if folds_to(name, "ico") {
        OutputFormat::Ico
    } else if folds_to(name, "tiff") {
        OutputFormat::Tiff
    } else if folds_to(name, "gif") {
        OutputFormat::Gif
    } else {
        OutputFormat::Png
    }
}

/// The lossy encoder that a size target uses.
#[derive(Clone, Copy, Debug, PartialEq, Eq, Structural)]
pub enum SizeCodec {
    Jpeg,
    WebP,
}

/// A size target encodes JPEG when JPEG was asked for, WebP otherwise.
pub open spec fn size_codec_for(name: Seq<char>) -> SizeCodec {
    if folds_to_text(name, "jpg"@) || folds_to_text(name, "jpeg"@) {
        SizeCodec::Jpeg
    } else {
        SizeCodec::WebP
    }
}

/// The extension a size-targeted file gets.
pub open spec fn codec_extension(c: SizeCodec) -> Seq<char> {
    match c {
        SizeCodec::Jpeg => "jpg"@,
        SizeCodec::WebP => "webp"@,
    }
}

/// The format a batch file is converted to: the requested one, or with
/// `auto`, PNG for SVG input and the input's own extension (PNG when it has
/// none) for any other.
pub open spec fn batch_format(requested: Seq<char>, ext: Option<Seq<char>>) -> Seq<char> {
    if requested == "auto"@ {
        let e = match ext {
            Some(e) => e,
            None => "png"@,
        };
        if folds_to_text(e, "svg"@) {
            "png"@
        } else {
            e
        }
    } else {
        requested
    }
}

/// Computes `batch_format`.
pub fn batch_format_for(requested: &Vec<char>, ext: Option<Vec<char>>) -> (r: Vec<char>)
    ensures
        r@ == batch_format(
            requested@,
            match ext {
                Some(e) => Some(e@),
                None => None,
            },
        ),
{
    if crate::text::chars_are(requested, "auto") {
        let e = match ext {
            Some(e) => e,
            None => chars_of("png"),
        };
        if folds_to(&e, "svg") {
            chars_of("png")
        } else {
            e
        }
    } else {
        requested.clone()
    }
}

/// What one conversion does, decided before any pixel is touched.
pub struct FilePlan {
    /// The input is parsed as SVG (its extension is `svg`, case ignored);
    /// otherwise it is decoded as a raster image.
    pub input_is_svg: bool,
    /// The format written when no size target is set.
    pub format: OutputFormat,
    /// ICO output: scaled to at most 256 pixels and padded to a square.
    pub ico: bool,
    /// GIF output: alpha thresholded to fully opaque or fully clear.
    pub gif: bool,
    /// The lossy encoder searched for a size target, when one is set.
    pub size_codec: Option<SizeCodec>,
    /// The format name the output is written under.
    pub actual_format: String,
    /// Where the output is written.
    pub output: PathModel,
    /// The written file is deep-compressed afterwards (PNG with optimization asked).
    pub deep_compress: bool,
}

/// The value of a plan, as sequences and paths.
pub struct FilePlanView {
    pub input_is_svg: bool,
    pub format: OutputFormat,
    pub ico: bool,
    pub gif: bool,
    pub size_codec: Option<SizeCodec>,
    pub actual_format: Seq<char>,
    pub output: PathView,
    pub deep_compress: bool,
}

impl View for FilePlan {
    type V = FilePlanView;

    open spec fn view(&self) -> FilePlanView {
        FilePlanView {
            input_is_svg: self.input_is_svg,
            format: self.format,
            ico: self.ico,
            gif: self.gif,
            size_codec: self.size_codec,
            actual_format: self.actual_format@,
            output: self.output@,
            deep_compress: self.deep_compress,
        }
    }
}

/// The plan for converting `input` with the given format argument,
/// optimization flag and size target, written to `exact` when given.
pub open spec fn file_plan(
    input: PathView,
    exact: Option<PathView>,
    format: Seq<char>,
    optimize: bool,
    target: Option<usize>,
) -> FilePlanView {
    let codec = match target {
        Some(_) => Some(size_codec_for(format)),
        None => None,
    };
    let actual = match codec {
        Some(c) => codec_extension(c),
        None => format,
    };
    FilePlanView {
        input_is_svg: match extension(input) {
            Some(e) => folds_to_text(e, "svg"@),
            None => false,
        },
        format: format_named(format),
        ico: folds_to_text(format, "ico"@),
        gif: folds_to_text(format, "gif"@),
        size_codec: codec,
        actual_format: actual,
        output: final_output(input, exact, actual, target is Some),
        deep_compress: optimize && folds_to_text(actual, "png"@),
    }
}

/// Plans one conversion (see `file_plan`).
pub fn plan_file(
    input: &PathModel,
    exact: Option<&PathModel>,
    format: &str,
    optimize: bool,
    target: Option<usize>,
) -> (r: FilePlan)
    requires
        fits(input@),
        exact matches Some(p) ==> fits(p@),
    ensures
        r@ == file_plan(
            input@,
            match exact {
                Some(p) => Some(p@),
                None => None,
            },
            format@,
            optimize,
            target,
        ),
{
    let fmt = chars_of(format);
    let input_is_svg = match input.extension() {
        Some(e) => folds_to(&e, "svg"),
        None => false,
    };
    let codec = match target {
        Some(_) => {
            if folds_to(&fmt, "jpg") || folds_to(&fmt, "jpeg") {
                Some(SizeCodec::Jpeg)
            } else {
                Some(SizeCodec::WebP)
            }
        },
        None => None,
    };
    let actual: Vec<char> = match codec {
        Some(SizeCodec::Jpeg) => chars_of("jpg"),
        Some(SizeCodec::WebP) => chars_of("webp"),
        None => fmt.clone(),
    };
    let output = final_output_path(input, exact, &actual, target.is_some());
    let deep_compress = optimize && folds_to(&actual, "png");
    FilePlan {
        input_is_svg,
        format: output_format(&fmt),
        ico: folds_to(&fmt, "ico"),
        gif: folds_to(&fmt, "gif"),
        size_codec: codec,
        actual_format: string_of(&actual),
        output,
        deep_compress,
    }
}

/// The unit a byte count is shown in.
#[derive(Clone, Copy, Debug, PartialEq, Eq, Structural)]
pub enum SizeUnit {
    Bytes,
    Kilobytes,
    Megabytes,
    Gigabytes,
}

/// Counts above a gigabyte show in GB, above a megabyte in MB, above a
/// kilobyte in KB, and others in bytes (1024-based).
pub open spec fn unit_for(n: nat) -> SizeUnit {
    if n > 1024 * 1024 * 1024 {
        SizeUnit::Gigabytes
    } else if n > 1024 * 1024 {
        SizeUnit::Megabytes
    } else if n > 1024 {
        SizeUnit::Kilobytes
    } else {
        SizeUnit::Bytes
    }
}

/// The number of bytes in one of the unit.
pub open spec fn unit_bytes(u: SizeUnit) -> nat {
    match u {
        SizeUnit::Bytes => 1,
        SizeUnit::Kilobytes => 1024,
        SizeUnit::Megabytes => 1024 * 1024,
        SizeUnit::Gigabytes => 1024 * 1024 * 1024,
    }
}

/// The unit a byte count is shown in (see `unit_for`).
pub fn size_unit(n: u64) -> (u: SizeUnit)
    ensures
        u == unit_for(n as nat),
{
    if n > 1024 * 1024 * 1024 {
        SizeUnit::Gigabytes
    } else if n > 1024 * 1024 {
        SizeUnit::Megabytes
    } else if n > 1024 {
        SizeUnit::Kilobytes
    } else {
        SizeUnit::Bytes
    }
}

/// Sizes are shown in the largest unit they exceed, so a shown size is
/// always more than one of its unit (bytes excepted) and at most 1024 of
/// the next smaller unit above it.
pub proof fn law_unit_exceeded(n: nat)
    ensures
        unit_for(n) != SizeUnit::Bytes ==> n > unit_bytes(unit_for(n)),
        unit_for(n) != SizeUnit::Gigabytes ==> n <= unit_bytes(unit_for(n)) * 1024,
{
}

/// With a size target, a format argument naming JPEG (`jpg` or `jpeg`, in
/// any case) searches JPEG quality and writes under `jpg`; any other
/// argument searches WebP quality and writes under `webp`. Without an exact
/// output path the file is the input renamed to that extension, in its own
/// folder. Without a size target nothing is searched and the argument is the
/// name written under.
pub proof fn law_size_target_encoder(
    input: PathView,
    exact: Option<PathView>,
    format: Seq<char>,
    optimize: bool,
    target: Option<usize>,
)
    ensures
        target is Some && (folds_to_text(format, "jpg"@) || folds_to_text(format, "jpeg"@)) ==> file_plan(
            input,
            exact,
            format,
            optimize,
            target,
        ).size_codec == Some(SizeCodec::Jpeg) && file_plan(input, exact, format, optimize, target).actual_format
            == "jpg"@,
        target is Some && !(folds_to_text(format, "jpg"@) || folds_to_text(format, "jpeg"@)) ==> file_plan(
            input,
            exact,
            format,
            optimize,
            target,
        ).size_codec == Some(SizeCodec::WebP) && file_plan(input, exact, format, optimize, target).actual_format
            == "webp"@,
        target is None ==> file_plan(input, exact, format, optimize, target).size_codec is None && file_plan(
            input,
            exact,
            format,
            optimize,
            target,
        ).actual_format == format,
        target is Some && exact is None && file_name(input) is Some && input.names.last().len() > 0 ==> extension(
            file_plan(input, exact, format, optimize, target).output,
        ) == Some(file_plan(input, exact, format, optimize, target).actual_format) && popped(
            file_plan(input, exact, format, optimize, target).output,
        ) == popped(input),
{
    reveal_strlit("jpg");
    reveal_strlit("webp");
    let p = file_plan(input, exact, format, optimize, target);
    if target is Some && exact is None && file_name(input) is Some && input.names.last().len() > 0 {
        assert(!p.actual_format.contains('.'));
        law_in_place_takes_new_extension(input, p.actual_format, true);
    }
}

} // verus!
