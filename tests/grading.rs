use submission_grader::grade::{
    format_project_file, format_project_files, grading_feedback, grading_prompt,
    project_file_extension, ProjectFile, GRADING_PROMPT_HEAD, NO_FEEDBACK,
};

fn file(path: &str, ext: &str, contents: &str) -> ProjectFile {
    ProjectFile {
        path: path.to_string(),
        extension: ext.to_string(),
        contents: contents.to_string(),
    }
}

#[test]
fn project_files_are_html_css_js() {
    assert_eq!(project_file_extension("index.html"), Some("html".to_string()));
    assert_eq!(project_file_extension("a.css"), Some("css".to_string()));
    assert_eq!(project_file_extension("b.js"), Some("js".to_string()));
    assert_eq!(project_file_extension("b.json"), None);
    assert_eq!(project_file_extension(".html"), None);
    assert_eq!(project_file_extension("INDEX.HTML"), None);
}

#[test]
fn one_file_is_fenced_with_its_extension() {
    assert_eq!(
        format_project_file(&file("d/index.html", "html", "<p>x</p>")),
        "`d/index.html`\n\n```html\n<p>x</p>\n```\n\n"
    );
}

#[test]
fn files_follow_each_other() {
    let files = vec![file("a.css", "css", "p{}"), file("b.js", "js", "f()")];
    assert_eq!(
        format_project_files(&files),
        "`a.css`\n\n```css\np{}\n```\n\n`b.js`\n\n```js\nf()\n```\n\n"
    );
    assert_eq!(format_project_files(&Vec::new()), "");
}

#[test]
fn grading_prompt_frames_description_criteria_and_code() {
    let files = vec![file("a.css", "css", "p{}")];
    let prompt = grading_prompt("DESC", "CRIT", &files);
    assert_eq!(
        prompt,
        format!(
            "{}DESC\n\n Vurderingskriterier:\n\nCRIT\n\n Studentens innlevering:\n\n`a.css`\n\n```css\np{{}}\n```\n\n",
            GRADING_PROMPT_HEAD
        )
    );
    assert!(GRADING_PROMPT_HEAD.contains("Foreslått poengsum: X av Y"));
    assert!(GRADING_PROMPT_HEAD.contains("norsk.\n\n DERSOM"));
}

#[test]
fn grading_feedback_falls_back() {
    assert_eq!(grading_feedback(None), NO_FEEDBACK);
    assert_eq!(grading_feedback(Some("Bra".to_string())), "Bra");
}
