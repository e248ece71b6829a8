//! Rendering LaTeX to an image: the document that is typeset, and the steps
//! that turn a source into a PNG image.
//!
//! Typesetting and image conversion are done by the program that drives the
//! library; the library decides what is typeset, in which order the steps
//! come, and what the outcome is.

use vstd::prelude::*;
use vstd::string::StringExecFns;

verus! {

/// The text put before the user's LaTeX code.
pub const TEMPLATE_START: &'static str = "\\documentclass[preview]{standalone}\n        \\usepackage[utf8]{inputenc}\n        \\usepackage{amsfonts}\n        \\usepackage{amssymb}\n        \\usepackage{amsmath}\n        \\usepackage{color}\n        \\usepackage{xcolor}\n        \\usepackage{dsfont}\n        \\begin{document}{\\color{white}\n        ";

/// The text put after the user's LaTeX code.
pub const TEMPLATE_END: &'static str = "\n        }\\end{document}\n        ";

/// The name under which the typeset document is read back.
pub const TYPESET_INPUT_NAME: &'static str = "texput.tex";

/// The name of the PDF that typesetting the document produces.
pub const TYPESET_OUTPUT_NAME: &'static str = "texput.pdf";

/// The complete document for the user's code `input`.
pub open spec fn spec_latex_document(input: Seq<char>) -> Seq<char> {
    TEMPLATE_START@ + input + TEMPLATE_END@
}

/// Wraps the user's code in the standalone document template: white text,
/// the AMS math packages, and a cropped page.
pub fn latex_document(input: &str) -> (doc: String)
    ensures
        doc@ == spec_latex_document(input@),
{
    let doc = String::from_str(TEMPLATE_START);
    let doc = doc.concat(input);
    doc.concat(TEMPLATE_END)
}

/// Typesetting or image conversion failed, with the message of the tool
/// that failed.
pub struct LatexError {
    pub message: String,
}

/// The next step of a rendering job.
pub enum LatexJob {
    /// Typeset this document to PDF.
    Typeset(String),
    /// Convert this PDF to a PNG image.
    Convert(Vec<u8>),
    /// The job is over, with the PNG image or the typesetting error.
    Finished(Result<Vec<u8>, LatexError>),
}

/// What the driver reports after carrying out a step.
pub enum LatexEvent {
    /// Typesetting ended: with the produced PDF when there is one, or with
    /// the typesetting error.
    Typeset(Result<Option<Vec<u8>>, LatexError>),
    /// The PDF was converted to this PNG image.
    Converted(Vec<u8>),
}

/// Starts rendering the user's LaTeX code: the first step typesets the
/// complete document.
pub fn latex_tex_png(input_string: &str) -> (job: LatexJob)
    ensures
        job matches LatexJob::Typeset(doc) && doc@ == spec_latex_document(input_string@),
{
    LatexJob::Typeset(latex_document(input_string))
}

/// The step that follows `event`: a typesetting error ends the job with that
/// error; a produced PDF (or an empty one when typesetting produced none) is
/// converted; a converted image ends the job successfully.
pub fn latex_step(event: LatexEvent) -> (job: LatexJob)
    ensures
        match event {
            LatexEvent::Typeset(Ok(Some(pdf))) => job matches LatexJob::Convert(p) && p@ == pdf@,
            LatexEvent::Typeset(Ok(None)) => job matches LatexJob::Convert(p) && p@.len() == 0,
            LatexEvent::Typeset(Err(e)) => job matches LatexJob::Finished(Err(e2)) && e2.message@
                == e.message@,
            LatexEvent::Converted(png) => job matches LatexJob::Finished(Ok(p)) && p@ == png@,
        },
{
    match event {
        LatexEvent::Typeset(Ok(Some(pdf))) => LatexJob::Convert(pdf),
        LatexEvent::Typeset(Ok(None)) => LatexJob::Convert(Vec::new()),
        LatexEvent::Typeset(Err(e)) => LatexJob::Finished(Err(e)),
        LatexEvent::Converted(png) => LatexJob::Finished(Ok(png)),
    }
}

} // verus!
