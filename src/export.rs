//! Export planning: which pages go to which output files, for each format.

use vstd::prelude::*;

use crate::diagnostic::{all_fit, RawDiagnostic};
use crate::session::DocumentCache;

verus! {

/// Pages to export as PNG, counted from 0, both ends included.
#[derive(Clone, Copy, Debug, PartialEq, Eq, Structural)]
pub struct ExportPngOptions {
    pub start_page: usize,
    pub end_page: usize,
}

/// Pages to export as SVG, counted from 0, both ends included; when
/// `merged` is set all pages go to one file and the range is ignored.
#[derive(Clone, Copy, Debug, PartialEq, Eq, Structural)]
pub struct ExportSvgOptions {
    pub start_page: usize,
    pub end_page: usize,
    pub merged: bool,
}

/// The output format of an export.
#[allow(clippy::upper_case_acronyms)]
#[derive(Clone, Copy, Debug, PartialEq, Eq, Structural)]
pub enum ExportFormat {
    PDF,
    PNG(ExportPngOptions),
    SVG(ExportSvgOptions),
}

#[derive(Clone, Copy, Debug, PartialEq, Eq, Structural)]
pub enum ExportPdfError {
    ExportFailed,
}

#[derive(Clone, Copy, Debug, PartialEq, Eq, Structural)]
pub enum ExportPngError {
    ExportFailed,
}

#[derive(Clone, Copy, Debug, PartialEq, Eq, Structural)]
pub enum ExportSvgError {
    ExportFailed,
}

/// Why an export failed.
#[derive(Clone, Copy, Debug, PartialEq, Eq, Structural)]
pub enum ExportError {
    Pdf(ExportPdfError),
    Png(ExportPngError),
    Svg(ExportSvgError),
    NoDocument,
    UnsupportedFormat,
}

/// One page written to a file of its own.
pub struct PageOutput {
    /// The page, counted from 0.
    pub page: usize,
    /// The file name: `<stem>_page_<page + 1>.<extension>`.
    pub file_name: String,
}

/// What an export writes.
pub enum ExportPlan {
    /// The whole document as one PDF file at the export path.
    Pdf,
    /// The listed pages, each as a PNG file beside the export path.
    Png(Vec<PageOutput>),
    /// The listed pages, each as an SVG file beside the export path.
    Svg(Vec<PageOutput>),
    /// All pages merged into one SVG file at the export path.
    SvgMerged,
}

/// The character of decimal digit `d`.
pub open spec fn digit_char(d: nat) -> char {
    if d == 0 {
        '0'
    } else if d == 1 {
        '1'
    } else if d == 2 {
        '2'
    } else if d == 3 {
        '3'
    } else if d == 4 {
        '4'
    } else if d == 5 {
        '5'
    } else if d == 6 {
        '6'
    } else if d == 7 {
        '7'
    } else if d == 8 {
        '8'
    } else {
        '9'
    }
}

/// `n` written in decimal, without leading zeros.
pub open spec fn decimal(n: nat) -> Seq<char>
    decreases n,
{
    if n < 10 {
        seq![digit_char(n)]
    } else {
        decimal(n / 10).push(digit_char(n % 10))
    }
}

/// The name of the file of page number `number` (counted from 1).
pub open spec fn page_file_name_spec(stem: Seq<char>, number: nat, extension: Seq<char>) -> Seq<
    char,
> {
    stem + seq!['_', 'p', 'a', 'g', 'e', '_'] + decimal(number) + seq!['.'] + extension
}

/// Relies on std's `ToString` for `usize` (its `Display`): decimal digits
/// without sign or leading zeros.
#[verifier::external_body]
fn decimal_string(number: usize) -> (r: String)
    ensures
        r@ == decimal(number as nat),
{
    number.to_string()
}

/// The name of the file of page number `number` (counted from 1):
/// `<stem>_page_<number>.<extension>`.
pub fn page_file_name(stem: &str, number: usize, extension: &str) -> (r: String)
    ensures
        r@ == page_file_name_spec(stem@, number as nat, extension@),
{
    let mut name = String::from_str(stem);
    let marker = "_page_";
    proof {
        reveal_strlit("_page_");
    }
    name.append(marker);
    let digits = decimal_string(number);
    name.append(digits.as_str());
    let dot = ".";
    proof {
        reveal_strlit(".");
    }
    name.append(dot);
    name.append(extension);
    assert(name@ =~= page_file_name_spec(stem@, number as nat, extension@));
    name
}

/// The last page exported from a document of `count` pages when the range
/// ends at `end`.
pub open spec fn last_page(count: nat, end: nat) -> int {
    if end < count {
        end as int
    } else {
        count - 1
    }
}

/// The pages exported: `start` to the last page, both included.
pub open spec fn exported_pages(count: nat, start: nat, end: nat) -> Seq<nat> {
    let last = last_page(count, end);
    if start <= last {
        Seq::new((last - start + 1) as nat, |k: int| (start + k) as nat)
    } else {
        Seq::empty()
    }
}

/// `outs` holds the pages of `pages`, in order, named after `stem` and
/// `extension`.
pub open spec fn outputs_for(
    outs: Seq<PageOutput>,
    pages: Seq<nat>,
    stem: Seq<char>,
    extension: Seq<char>,
) -> bool {
    &&& outs.len() == pages.len()
    &&& forall|k: int|
        0 <= k < outs.len() ==> (#[trigger] outs[k]).page == pages[k] && outs[k].file_name@
            == page_file_name_spec(stem, (pages[k] + 1) as nat, extension)
}

/// The per-page outputs of pages `start..=min(end, count - 1)`, named after
/// `stem` and `extension`.
pub fn page_outputs(count: usize, start: usize, end: usize, stem: &str, extension: &str) -> (r: Vec<
    PageOutput,
>)
    ensures
        outputs_for(r@, exported_pages(count as nat, start as nat, end as nat), stem@, extension@),
{
    let ghost pages = exported_pages(count as nat, start as nat, end as nat);
    let mut outs: Vec<PageOutput> = Vec::new();
    if count == 0 {
        return outs;
    }
    let last = if end < count {
        end
    } else {
        count - 1
    };
    if start > last {
        return outs;
    }
    let mut page = start;
    while page <= last
        invariant
            start <= page <= last + 1,
            last < count,
            last as int == last_page(count as nat, end as nat),
            pages == exported_pages(count as nat, start as nat, end as nat),
            pages.len() == last - start + 1,
            outs@.len() == page - start,
            forall|k: int|
                0 <= k < outs@.len() ==> (#[trigger] outs@[k]).page == pages[k]
                    && outs@[k].file_name@ == page_file_name_spec(
                    stem@,
                    (pages[k] + 1) as nat,
                    extension@,
                ),
        decreases last + 1 - page,
    {
        let file_name = page_file_name(stem, page + 1, extension);
        outs.push(PageOutput { page, file_name });
        page = page + 1;
    }
    outs
}

/// What exporting the cached document in `format` writes; `stem` names
/// the per-page files.
pub open spec fn plan_matches(
    count: nat,
    format: ExportFormat,
    stem: Seq<char>,
    plan: ExportPlan,
) -> bool {
    match format {
        ExportFormat::PDF => plan is Pdf,
        ExportFormat::PNG(o) => plan matches ExportPlan::Png(outs) && outputs_for(
            outs@,
            exported_pages(count, o.start_page as nat, o.end_page as nat),
            stem,
            seq!['p', 'n', 'g'],
        ),
        ExportFormat::SVG(o) => if o.merged {
            plan is SvgMerged
        } else {
            plan matches ExportPlan::Svg(outs) && outputs_for(
                outs@,
                exported_pages(count, o.start_page as nat, o.end_page as nat),
                stem,
                seq!['s', 'v', 'g'],
            )
        },
    }
}

impl<D> DocumentCache<D> {
    /// Plans the export of the cached document in `format`; without a
    /// cached document the export fails with `NoDocument`, whatever the
    /// format.
    pub fn plan_export(&self, format: ExportFormat, stem: &str) -> (r: Result<ExportPlan, ExportError>)
        ensures
            self.pages() is None ==> r matches Err(ExportError::NoDocument),
            self.pages() matches Some(n) ==> (r matches Ok(plan) && plan_matches(
                n,
                format,
                stem@,
                plan,
            )),
    {
        let count = match self.page_count() {
            Some(n) => n,
            None => return Err(ExportError::NoDocument),
        };
        match format {
            ExportFormat::PDF => Ok(ExportPlan::Pdf),
            ExportFormat::PNG(o) => {
                let png = String::from_str("png");
                proof {
                    reveal_strlit("png");
                }
                let outs = page_outputs(count, o.start_page, o.end_page, stem, png.as_str());
                assert(png@ == seq!['p', 'n', 'g']);
                Ok(ExportPlan::Png(outs))
            },
            ExportFormat::SVG(o) => {
                if o.merged {
                    Ok(ExportPlan::SvgMerged)
                } else {
                    let svg = String::from_str("svg");
                    proof {
                        reveal_strlit("svg");
                    }
                    let outs = page_outputs(count, o.start_page, o.end_page, stem, svg.as_str());
                    assert(svg@ == seq!['s', 'v', 'g']);
                    Ok(ExportPlan::Svg(outs))
                }
            },
        }
    }
}

impl<D> DocumentCache<D> {
    /// `c1` and `r` follow from exporting in `format` with `c0` cached, when
    /// the compilation run for the export gave `warnings` and `output`.
    pub open spec fn export_post(
        c0: Self,
        c1: Self,
        warnings: Seq<RawDiagnostic>,
        output: Result<(D, usize), Vec<RawDiagnostic>>,
        format: ExportFormat,
        stem: Seq<char>,
        r: Result<ExportPlan, ExportError>,
    ) -> bool {
        &&& exists|diags| Self::compile_post(c0, c1, warnings, output, diags)
        &&& (output is Err ==> r matches Err(ExportError::NoDocument))
        &&& (output matches Ok((_, n)) ==> (r matches Ok(plan) && plan_matches(
            n as nat,
            format,
            stem,
            plan,
        )))
    }

    /// Records the compilation run for an export and plans the export of
    /// its document. A failed compilation aborts the export with
    /// `NoDocument`, so an export never falls back to an older document.
    pub fn plan_export_after_compile(
        &mut self,
        warnings: Vec<RawDiagnostic>,
        output: Result<(D, usize), Vec<RawDiagnostic>>,
        format: ExportFormat,
        stem: &str,
    ) -> (r: Result<ExportPlan, ExportError>)
        requires
            all_fit(warnings@),
            output matches Err(errors) ==> all_fit(errors@),
        ensures
            Self::export_post(*old(self), *final(self), warnings@, output, format, stem@, r),
    {
        let failed = output.is_err();
        let _diags = self.record_compile(warnings, output);
        if failed {
            return Err(ExportError::NoDocument);
        }
        self.plan_export(format, stem)
    }
}

/// Export needs a successful compilation: when the compilation run for
/// the export fails, the export fails with `NoDocument`, whatever the format
/// and whatever was compiled before, and plans no file.
pub proof fn lemma_export_requires_compile<D>(
    c0: DocumentCache<D>,
    c1: DocumentCache<D>,
    warnings: Seq<RawDiagnostic>,
    errors: Vec<RawDiagnostic>,
    format: ExportFormat,
    stem: Seq<char>,
    r: Result<ExportPlan, ExportError>,
)
    requires
        c0.cached() is None,
        DocumentCache::export_post(c0, c1, warnings, Err(errors), format, stem, r),
    ensures
        r matches Err(ExportError::NoDocument),
        c1.cached() is None,
{
    let diags = choose|diags| DocumentCache::compile_post(c0, c1, warnings, Err(errors), diags);
}

} // verus!
