use submission_grader::schemas::{Message, ValidationResult};
use submission_grader::validate::{
    content_type_header, join_texts, plan_validation_feedback, sidecar_name,
    validation_content_type, validation_feedback, validation_report, FeedbackStep,
    NO_FORMAL_ERRORS, VALIDATION_PROMPT,
};

fn message(kind: &str, subtype: Option<&str>, text: &str) -> Message {
    Message {
        message_type: kind.to_string(),
        subtype: subtype.map(|s| s.to_string()),
        lastLine: None,
        lastColumn: None,
        firstLine: None,
        firstColumn: None,
        message: text.to_string(),
        extract: None,
        hiliteStart: None,
        hiliteLength: None,
    }
}

#[test]
fn issues_keep_errors_and_warnings_in_order() {
    let result = ValidationResult {
        messages: vec![
            message("info", None, "I0"),
            message("error", None, "M1"),
            message("warning", Some("warning"), "M2"),
        ],
    };
    assert_eq!(result.issues(), vec!["M1".to_string(), "M2".to_string()]);
}

#[test]
fn issues_drop_info_and_other_subtypes() {
    let result = ValidationResult {
        messages: vec![
            message("info", Some("warning"), "W"),
            message("info", Some("fatal"), "F"),
            message("non-document-error", None, "N"),
            message("error", Some("fatal"), "E"),
        ],
    };
    assert_eq!(result.issues(), vec!["W".to_string(), "E".to_string()]);
    assert!(message("error", None, "x").is_issue());
    assert!(!message("info", None, "x").is_issue());
}

#[test]
fn issues_of_empty_result() {
    assert!(ValidationResult { messages: vec![] }.issues().is_empty());
}

#[test]
fn content_type_by_suffix() {
    assert_eq!(validation_content_type("index.html"), Some("text/html"));
    assert_eq!(validation_content_type("style.css"), Some("text/css"));
    assert_eq!(validation_content_type("app.js"), Some("text/javascript"));
    assert_eq!(validation_content_type(".html"), Some("text/html"));
    assert_eq!(validation_content_type("notes.txt"), None);
    assert_eq!(validation_content_type("data.json"), None);
}

#[test]
fn content_type_header_names_charset() {
    assert_eq!(content_type_header("text/css"), "text/css; charset=utf-8");
}

#[test]
fn sidecar_replaces_extension() {
    assert_eq!(sidecar_name("index.html"), "index.json");
    assert_eq!(sidecar_name("app.min.js"), "app.min.json");
    assert_eq!(sidecar_name(".html"), ".html.json");
}

#[test]
fn join_puts_separator_between_items() {
    let items = vec!["a".to_string(), "b".to_string(), "c".to_string()];
    assert_eq!(join_texts(&items, "\n\n"), "a\n\nb\n\nc");
    assert_eq!(join_texts(&vec!["a".to_string()], ", "), "a");
    assert_eq!(join_texts(&Vec::new(), ", "), "");
}

#[test]
fn no_issues_means_fixed_feedback_and_no_request() {
    match plan_validation_feedback(&Vec::new()) {
        FeedbackStep::Ready(text) => assert_eq!(text, "Ingen formelle feil funnet."),
        FeedbackStep::AskModel(_) => panic!("a request was planned for no issues"),
    }
}

#[test]
fn issues_are_put_to_the_model() {
    let issues = vec!["M1".to_string(), "M2".to_string()];
    match plan_validation_feedback(&issues) {
        FeedbackStep::AskModel(prompt) => {
            assert_eq!(prompt, format!("{}M1\n\nM2", VALIDATION_PROMPT));
            assert!(prompt.ends_with("Feilmeldinger:\n\nM1\n\nM2"));
        }
        FeedbackStep::Ready(_) => panic!("no request was planned for two issues"),
    }
}

#[test]
fn missing_answer_falls_back_to_fixed_message() {
    assert_eq!(validation_feedback(None), NO_FORMAL_ERRORS);
    assert_eq!(validation_feedback(Some("Fiks".to_string())), "Fiks");
}

#[test]
fn report_has_header_and_line_break() {
    assert_eq!(
        validation_report("Fiks"),
        "Tilbakemelding om validering: \n\nFiks\n"
    );
}
