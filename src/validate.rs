//! Decisions of the validation step: which files go to the validator and how,
//! where its response is kept, and the feedback built from the issues found.

use crate::archive::{extension_of, file_extension};
use crate::schemas::texts;
use crate::text::{ends_with, has_suffix};
use vstd::prelude::*;

verus! {

/// The markup validator's endpoint, answering in JSON.
pub const VALIDATOR_URL: &'static str = "https://validator.w3.org/nu/?out=json";

/// The `User-Agent` header sent to the validator.
pub const VALIDATOR_USER_AGENT: &'static str = "Mozilla/5.0 (compatible; Validator/1.0)";

/// The validation feedback file in a student's directory.
pub const VALIDATION_FEEDBACK_FILE: &'static str = "validate.txt";

/// The copy of the validation feedback that stands as the final feedback.
pub const FINAL_FEEDBACK_FILE: &'static str = "final.txt";

/// Feedback when no issue was found.
pub const NO_FORMAL_ERRORS: &'static str = "Ingen formelle feil funnet.";

/// First line of every validation feedback file.
pub const VALIDATION_REPORT_HEADER: &'static str = "Tilbakemelding om validering: \n\n";

/// The request to the language model, which the issue texts follow.
pub const VALIDATION_PROMPT: &'static str = "Du har mottatt en liste med HTML/CSS/JS-valideringsfeil og advarsler fra en W3C Validator. \
    For hver feilmelding, vennligst gi en kort forklaring på hva feilen betyr og et eksempel på hvordan man kan fikse det. \
    Forklaringen skal IKKE formuleres som 'Feilmeldingen indikerer at ...', men heller en direkte, kort og konsis forklaring. \
    Når du omtaler begreper innen HTML, CSS, og JS, som for eksempel 'table' etc., sørg for å bruke de engelske begrepene. \
    IKKE gjenfortell feilmeldingen. Forklar kun hva feilen betyr. \
    IKKE list opp feilene som en punktliste, men skriv en sammenhengende tekst med nye linjer mellom feil. \
    DERSOM det ikke er noen feilmeldinger, skriv 'Ingen formelle feil funnet'. \
    Hold eksempelet så kort som mulig (maks 1-5 linjer). \
    Bruk 'de' og 'dere' i flertall for å referere til studentene, ikke 'studentene'. \
    Avslutt svaret ditt med følgende setning: 'Det anbefales å bruke W3 Validator for å sjekke at HTML, CSS og JS oppfyller beste praksis.'. \
    Svarene skal være på norsk.\n\nFeilmeldinger:\n\n";

/// Separator between issue texts in the request.
pub const ISSUE_SEPARATOR: &'static str = "\n\n";

/// The content type under which a file is sent to the validator, by the
/// suffix of its name; `None` for a file that is not validated.
pub open spec fn content_type_of(name: Seq<char>) -> Option<Seq<char>> {
    if has_suffix(name, ".html"@) {
        Some("text/html"@)
    } else if has_suffix(name, ".css"@) {
        Some("text/css"@)
    } else if has_suffix(name, ".js"@) {
        Some("text/javascript"@)
    } else {
        None
    }
}

/// The name of the file that keeps the validator's response for the file
/// `name`: its extension replaced by `json`, or `.json` added.
pub open spec fn sidecar_of(name: Seq<char>) -> Seq<char> {
    match extension_of(name) {
        Some(ext) => name.take(name.len() - ext.len() - 1) + ".json"@,
        None => name + ".json"@,
    }
}

/// `items` with `sep` between each two.
pub open spec fn joined(items: Seq<Seq<char>>, sep: Seq<char>) -> Seq<char>
    decreases items.len(),
{
    if items.len() == 0 {
        Seq::empty()
    } else if items.len() == 1 {
        items[0]
    } else {
        joined(items.drop_last(), sep) + sep + items.last()
    }
}

/// The content type under which the file `name` is sent to the validator.
pub fn validation_content_type(name: &str) -> (r: Option<&'static str>)
    ensures
        r is Some <==> content_type_of(name@) is Some,
        r is Some ==> r->Some_0@ == content_type_of(name@)->Some_0,
{
    if ends_with(name, ".html") {
        Some("text/html")
    } else if ends_with(name, ".css") {
        Some("text/css")
    } else if ends_with(name, ".js") {
        Some("text/javascript")
    } else {
        None
    }
}

/// The `Content-Type` header value for a content type.
pub fn content_type_header(content_type: &str) -> (r: String)
    ensures
        r@ == content_type@ + "; charset=utf-8"@,
{
    let mut r = String::from_str(content_type);
    r.append("; charset=utf-8");
    r
}

/// The name of the file that keeps the validator's response for `name`.
pub fn sidecar_name(name: &str) -> (r: String)
    ensures
        r@ == sidecar_of(name@),
{
    match file_extension(name) {
        Some(ext) => {
            let n = name.unicode_len();
            let e = ext.as_str().unicode_len();
            let mut r = String::from_str(name.substring_char(0, n - e - 1));
            r.append(".json");
            r
        },
        None => {
            let mut r = String::from_str(name);
            r.append(".json");
            r
        },
    }
}

/// The issue texts with `sep` between each two.
pub fn join_texts(items: &Vec<String>, sep: &str) -> (r: String)
    ensures
        r@ == joined(texts(items@), sep@),
{
    let mut r = String::new();
    let mut i: usize = 0;
    while i < items.len()
        invariant
            i <= items.len(),
            r@ == joined(texts(items@.take(i as int)), sep@),
        decreases items.len() - i,
    {
        let ghost prev = texts(items@.take(i as int));
        assert(texts(items@.take(i + 1)).drop_last() == prev);
        assert(texts(items@.take(i + 1)).last() == items@[i as int]@);
        if i > 0 {
            r.append(sep);
        } else {
            assert(texts(items@.take(1)).len() == 1);
        }
        r.append(items[i].as_str());
        i = i + 1;
    }
    assert(items@.take(items.len() as int) == items@);
    r
}

/// What the validation feedback of one student needs.
pub enum FeedbackStep {
    /// The feedback text is known: no request is made.
    Ready(String),
    /// The feedback is the language model's answer to this request.
    AskModel(String),
}

/// The request sent to the language model for a list of issues.
pub open spec fn validation_prompt_of(issues: Seq<Seq<char>>) -> Seq<char> {
    VALIDATION_PROMPT@ + joined(issues, ISSUE_SEPARATOR@)
}

/// With no issues the feedback is the fixed message and no request is made;
/// otherwise the issues are put to the language model.
pub fn plan_validation_feedback(issues: &Vec<String>) -> (r: FeedbackStep)
    ensures
        issues.len() == 0 ==> (r matches FeedbackStep::Ready(text) && text@ == NO_FORMAL_ERRORS@),
        issues.len() > 0 ==> (r matches FeedbackStep::AskModel(prompt) && prompt@
            == validation_prompt_of(texts(issues@))),
{
    if issues.len() == 0 {
        FeedbackStep::Ready(String::from_str(NO_FORMAL_ERRORS))
    } else {
        let mut prompt = String::from_str(VALIDATION_PROMPT);
        let body = join_texts(issues, ISSUE_SEPARATOR);
        prompt.append(body.as_str());
        FeedbackStep::AskModel(prompt)
    }
}

/// The feedback text from the language model's answer: its text, or the
/// fixed message when the answer carries none.
pub fn validation_feedback(reply: Option<String>) -> (r: String)
    ensures
        reply is Some ==> r == reply->Some_0,
        reply is None ==> r@ == NO_FORMAL_ERRORS@,
{
    match reply {
        Some(text) => text,
        None => String::from_str(NO_FORMAL_ERRORS),
    }
}

/// The content of a validation feedback file: the fixed header, the feedback,
/// and a closing line break.
pub fn validation_report(feedback: &str) -> (r: String)
    ensures
        r@ == VALIDATION_REPORT_HEADER@ + feedback@ + "\n"@,
{
    let mut r = String::from_str(VALIDATION_REPORT_HEADER);
    r.append(feedback);
    r.append("\n");
    r
}

/// The validator's response to a file is kept beside it, never in its place:
/// the name of the response file differs from the name of every validated
/// file.
pub proof fn lemma_sidecar_is_another_file(name: Seq<char>)
    requires
        content_type_of(name) is Some,
    ensures
        sidecar_of(name) != name,
{
    reveal_strlit(".json");
    reveal_strlit(".html");
    reveal_strlit(".css");
    reveal_strlit(".js");
    let side = sidecar_of(name);
    assert(side.last() == 'n');
    let n = name.len() as int;
    if has_suffix(name, ".html"@) {
        assert(name.subrange(n - 5, n)[4] == name.last());
    } else if has_suffix(name, ".css"@) {
        assert(name.subrange(n - 4, n)[3] == name.last());
    } else {
        assert(name.subrange(n - 3, n)[2] == name.last());
    }
}

} // verus!
