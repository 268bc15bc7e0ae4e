//! The grading request: the student's project files laid out one after
//! another, framed by the assignment description and the grading criteria.

use crate::archive::{extension_of, file_extension};
use crate::text::str_eq;
use vstd::prelude::*;

verus! {

/// The grading feedback file in a student's directory.
pub const GRADING_FEEDBACK_FILE: &'static str = "feedback.txt";

/// Feedback when the language model's answer carries no text.
pub const NO_FEEDBACK: &'static str = "Ingen tilbakemelding generert.";

/// The instructions of the grading request, which the description follows.
pub const GRADING_PROMPT_HEAD: &'static str = "Du har mottatt en studentinnlevering sammen med prosjektbeskrivelsen og vurderingskriteriene for et prosjekt i webteknologi (HTML, CSS, JS). \
    Gå gjennom innleveringen og evaluer hvor godt den oppfyller følgende krav fra oppgavebeskrivelsen og vurderingskriteriene. \
    For hver del, gi en kort og konsis forklaring på hvordan oppgaven tilfredsstiller eller ikke tilfredsstiller kravene. \
    Hvis en del mangler, forklar hva som mangler og hvordan det bør implementeres. \
    Forklaringen skal IKKE formuleres som 'Feilmeldingen indikerer at ...', men heller direkte og kort. \
    IKKE list opp feilene som en punktliste, men skriv en sammenhengende tekst med nye linjer mellom feil. \
    Hold eksemplene korte (maks 1-5 linjer). Svarene skal være på norsk.\n\n \
    DERSOM studentene skal besvare spesifikke spørsmål, ta et øyeblikk og tenk over om deres avgitte svar er korrekte. \
    Avslutt med å gi et forslag til antall poeng, BASERT PÅ vurderingskriteriene og hver dels oppfyllelse av kravene. \
    Formuler forslaget slik: 'Foreslått poengsum: X av Y'.\n\n \
    Bruk 'studentene' i flertall for å referere til studentene. \
    Oppgavebeskrivelse:\n\n";

/// Between the description and the criteria.
pub const GRADING_PROMPT_CRITERIA: &'static str = "\n\n Vurderingskriterier:\n\n";

/// Between the criteria and the student's files.
pub const GRADING_PROMPT_SUBMISSION: &'static str = "\n\n Studentens innlevering:\n\n";

/// One project file of a student, as it enters the grading request.
pub struct ProjectFile {
    /// The file's path as shown to the model.
    pub path: String,
    /// The file's extension, which labels its code block.
    pub extension: String,
    /// The file's text.
    pub contents: String,
}

/// The extension of a file that enters the grading request: `html`, `css` or
/// `js`; `None` for any other file.
pub open spec fn project_extension_of(name: Seq<char>) -> Option<Seq<char>> {
    match extension_of(name) {
        Some(ext) => if ext == "html"@ || ext == "css"@ || ext == "js"@ {
            Some(ext)
        } else {
            None
        },
        None => None,
    }
}

/// One file laid out for the request: its path in backticks, then its text in
/// a code block labelled by its extension.
pub open spec fn formatted_file(f: ProjectFile) -> Seq<char> {
    "`"@ + f.path@ + "`\n\n```"@ + f.extension@ + "\n"@ + f.contents@ + "\n```\n\n"@
}

/// The files laid out one after another, in their order.
pub open spec fn formatted_files(fs: Seq<ProjectFile>) -> Seq<char>
    decreases fs.len(),
{
    if fs.len() == 0 {
        Seq::empty()
    } else {
        formatted_files(fs.drop_last()) + formatted_file(fs.last())
    }
}

/// The whole grading request.
pub open spec fn grading_prompt_of(
    description: Seq<char>,
    criteria: Seq<char>,
    files: Seq<char>,
) -> Seq<char> {
    GRADING_PROMPT_HEAD@ + description + GRADING_PROMPT_CRITERIA@ + criteria
        + GRADING_PROMPT_SUBMISSION@ + files
}

/// The extension of the file `name` where the file enters the grading
/// request.
pub fn project_file_extension(name: &str) -> (r: Option<String>)
    ensures
        r is Some <==> project_extension_of(name@) is Some,
        r is Some ==> r->Some_0@ == project_extension_of(name@)->Some_0,
{
    match file_extension(name) {
        Some(ext) => {
            if str_eq(ext.as_str(), "html") || str_eq(ext.as_str(), "css") || str_eq(
                ext.as_str(),
                "js",
            ) {
                Some(ext)
            } else {
                None
            }
        },
        None => None,
    }
}

/// One file laid out for the grading request (see `formatted_file`).
pub fn format_project_file(file: &ProjectFile) -> (r: String)
    ensures
        r@ == formatted_file(*file),
{
    let mut r = String::from_str("`");
    r.append(file.path.as_str());
    r.append("`\n\n```");
    r.append(file.extension.as_str());
    r.append("\n");
    r.append(file.contents.as_str());
    r.append("\n```\n\n");
    r
}

/// The student's project files laid out one after another.
pub fn format_project_files(files: &Vec<ProjectFile>) -> (r: String)
    ensures
        r@ == formatted_files(files@),
{
    let mut r = String::new();
    let mut i: usize = 0;
    while i < files.len()
        invariant
            i <= files.len(),
            r@ == formatted_files(files@.take(i as int)),
        decreases files.len() - i,
    {
        assert(files@.take(i + 1).drop_last() == files@.take(i as int));
        let part = format_project_file(&files[i]);
        r.append(part.as_str());
        i = i + 1;
    }
    assert(files@.take(files.len() as int) == files@);
    r
}

/// The grading request for one student: instructions, description, criteria
/// and the laid-out project files.
pub fn grading_prompt(description: &str, criteria: &str, files: &Vec<ProjectFile>) -> (r: String)
    ensures
        r@ == grading_prompt_of(description@, criteria@, formatted_files(files@)),
{
    let mut r = String::from_str(GRADING_PROMPT_HEAD);
    r.append(description);
    r.append(GRADING_PROMPT_CRITERIA);
    r.append(criteria);
    r.append(GRADING_PROMPT_SUBMISSION);
    let laid_out = format_project_files(files);
    r.append(laid_out.as_str());
    r
}

/// The grading feedback from the language model's answer: its text, or the
/// fixed message when the answer carries none.
pub fn grading_feedback(reply: Option<String>) -> (r: String)
    ensures
        reply is Some ==> r == reply->Some_0,
        reply is None ==> r@ == NO_FEEDBACK@,
{
    match reply {
        Some(text) => text,
        None => String::from_str(NO_FEEDBACK),
    }
}

} // verus!
