use vscode_theme::pattern::{extract, make_json_regex, Lookup};
use vscode_theme::settings::{
    fonts_from_lookups, get_current_fonts_from, get_current_theme_from, theme_from_lookup,
};
use vscode_theme::Error;

fn bound(value: &str) -> Lookup {
    Lookup::Bound(value.to_string())
}

fn settings_with_two_themes() -> String {
    let mut lines: Vec<String> = Vec::new();
    lines.push("{".to_string());
    lines.push("  // the look of the editor".to_string());
    lines.push("  \"workbench.colorTheme\": \"A\",".to_string());
    lines.push("  \"editor.fontSize\": 14,".to_string());
    lines.push("  \"editor.fontFamily\": \"Fira Code\",".to_string());
    lines.push("  \"editor.tabSize\": 4,".to_string());
    lines.push("  \"files.autoSave\": \"afterDelay\",".to_string());
    lines.push("  \"terminal.integrated.fontFamily\": \"Hack\",".to_string());
    lines.push("  \"window.zoomLevel\": 1,".to_string());
    lines.push("  \"workbench.colorTheme\": \"B\",".to_string());
    lines.push("}".to_string());
    lines.join("\n")
}

#[test]
fn pattern_of_a_dotted_key() {
    assert_eq!(
        make_json_regex("editor.fontFamily"),
        "(?m)^[ \\t]*\"editor\\.fontFamily\"[ \\t]*:[ \\t]*\"(?P<name>.*?)\",?[ \\t\\r]*$"
    );
}

#[test]
fn pattern_escapes_every_dot() {
    assert_eq!(
        make_json_regex("terminal.integrated.fontFamily"),
        "(?m)^[ \\t]*\"terminal\\.integrated\\.fontFamily\"[ \\t]*:[ \\t]*\"(?P<name>.*?)\",?[ \\t\\r]*$"
    );
}

#[test]
fn pattern_of_a_key_without_dots() {
    assert_eq!(make_json_regex("theme"), "(?m)^[ \\t]*\"theme\"[ \\t]*:[ \\t]*\"(?P<name>.*?)\",?[ \\t\\r]*$");
}

#[test]
fn pattern_of_the_empty_key() {
    assert_eq!(make_json_regex(""), "(?m)^[ \\t]*\"\"[ \\t]*:[ \\t]*\"(?P<name>.*?)\",?[ \\t\\r]*$");
}

#[test]
fn pattern_keeps_characters_beyond_ascii() {
    assert_eq!(
        make_json_regex("é.ü"),
        "(?m)^[ \\t]*\"é\\.ü\"[ \\t]*:[ \\t]*\"(?P<name>.*?)\",?[ \\t\\r]*$"
    );
}

#[test]
fn extraction_is_repeatable() {
    let data = settings_with_two_themes();
    let first = extract(&data, "editor.fontFamily");
    let second = extract(&data, "editor.fontFamily");
    assert_eq!(first, bound("Fira Code"));
    assert_eq!(first, second);
}

#[test]
fn first_declared_value_wins() {
    let data = settings_with_two_themes();
    let lines: Vec<&str> = data.lines().collect();
    assert_eq!(lines[2], "  \"workbench.colorTheme\": \"A\",");
    assert_eq!(lines[9], "  \"workbench.colorTheme\": \"B\",");
    assert_eq!(extract(&data, "workbench.colorTheme"), bound("A"));
    assert_eq!(get_current_theme_from(&data).unwrap(), "A");
}

#[test]
fn tolerates_trailing_comma_and_indentation() {
    let line = "  \"editor.fontFamily\": \"Fira Code\",  ";
    assert_eq!(extract(line, "editor.fontFamily"), bound("Fira Code"));
}

#[test]
fn tolerates_a_missing_comma() {
    assert_eq!(extract("\"editor.fontFamily\": \"Fira Code\"", "editor.fontFamily"), bound("Fira Code"));
}

#[test]
fn tolerates_whitespace_around_the_colon() {
    assert_eq!(extract("\"editor.fontFamily\"  :\t\"Fira Code\"", "editor.fontFamily"), bound("Fira Code"));
}

#[test]
fn dots_are_literal() {
    let line = "  \"editorXfontFamily\": \"Fira Code\",";
    assert_eq!(extract(line, "editor.fontFamily"), Lookup::Missing);
}

#[test]
fn key_must_match_whole() {
    assert_eq!(extract("\"my.editor.fontFamily\": \"Fira Code\"", "editor.fontFamily"), Lookup::Missing);
    assert_eq!(extract("\"editor.fontFamilyX\": \"Fira Code\"", "editor.fontFamily"), Lookup::Missing);
}

#[test]
fn value_that_is_not_quoted_is_not_found() {
    assert_eq!(extract("\"editor.fontSize\": 14,", "editor.fontSize"), Lookup::Missing);
}

#[test]
fn empty_document_binds_nothing() {
    assert_eq!(extract("", "editor.fontFamily"), Lookup::Missing);
}

#[test]
fn empty_value_is_found() {
    assert_eq!(extract("\"editor.fontFamily\": \"\",", "editor.fontFamily"), bound(""));
}

#[test]
fn value_with_an_escaped_quote_is_taken_as_written() {
    let line = "\"editor.fontFamily\": \"Fira \\\"Code\\\"\",";
    assert_eq!(extract(line, "editor.fontFamily"), bound("Fira \\\"Code\\\""));
}

#[test]
fn key_that_is_no_expression_is_refused() {
    assert_eq!(extract("\"a(b\": \"c\"", "a(b"), Lookup::Refused);
}

#[test]
fn theme_is_found() {
    let data = "{\n  \"workbench.colorTheme\": \"Dracula\",\n}\n";
    assert_eq!(get_current_theme_from(data).unwrap(), "Dracula");
}

#[test]
fn theme_is_missing() {
    assert!(matches!(get_current_theme_from("{}"), Err(Error::CannotFindCurrentTheme)));
}

#[test]
fn fonts_are_found() {
    let data = settings_with_two_themes();
    let fonts = get_current_fonts_from(&data).unwrap();
    assert_eq!(fonts.editor(), "Fira Code");
    assert_eq!(fonts.terminal(), "Hack");
}

#[test]
fn editor_font_is_missing() {
    let data = "{\n\"terminal.integrated.fontFamily\": \"Hack\"\n}";
    assert!(matches!(get_current_fonts_from(data), Err(Error::CannotFindEditorFont)));
}

#[test]
fn terminal_font_is_missing() {
    let data = "{\n\"editor.fontFamily\": \"Fira Code\"\n}";
    assert!(matches!(get_current_fonts_from(data), Err(Error::CannotFindTerminalFont)));
}

#[test]
fn missing_editor_font_is_reported_first() {
    assert!(matches!(get_current_fonts_from("{}"), Err(Error::CannotFindEditorFont)));
}

#[test]
fn theme_from_each_lookup() {
    assert_eq!(theme_from_lookup(bound("Dracula")).unwrap(), "Dracula");
    assert!(matches!(theme_from_lookup(Lookup::Missing), Err(Error::CannotFindCurrentTheme)));
    assert!(matches!(theme_from_lookup(Lookup::Refused), Err(Error::CannotFindCurrentTheme)));
}

#[test]
fn fonts_from_each_pair_of_lookups() {
    let fonts = fonts_from_lookups(bound("Fira Code"), bound("Hack")).unwrap();
    assert_eq!(fonts.editor(), "Fira Code");
    assert_eq!(fonts.terminal(), "Hack");
    assert!(matches!(
        fonts_from_lookups(bound("Fira Code"), Lookup::Missing),
        Err(Error::CannotFindTerminalFont)
    ));
    assert!(matches!(
        fonts_from_lookups(bound("Fira Code"), Lookup::Refused),
        Err(Error::CannotFindTerminalFont)
    ));
    assert!(matches!(
        fonts_from_lookups(Lookup::Missing, bound("Hack")),
        Err(Error::CannotFindEditorFont)
    ));
    assert!(matches!(
        fonts_from_lookups(Lookup::Refused, Lookup::Missing),
        Err(Error::CannotFindEditorFont)
    ));
}

#[test]
fn value_on_the_next_line_is_not_bound() {
    let data = "\"workbench.colorTheme\":\n\"A\"";
    assert_eq!(extract(data, "workbench.colorTheme"), Lookup::Missing);
    assert!(matches!(get_current_theme_from(data), Err(Error::CannotFindCurrentTheme)));
}

#[test]
fn colon_on_the_next_line_is_not_bound() {
    let data = "\"workbench.colorTheme\"\n: \"A\"";
    assert_eq!(extract(data, "workbench.colorTheme"), Lookup::Missing);
}

#[test]
fn key_after_empty_lines_is_bound() {
    let data = "\n\n  \"workbench.colorTheme\": \"A\"\n\n";
    assert_eq!(extract(data, "workbench.colorTheme"), bound("A"));
}

#[test]
fn line_may_end_in_carriage_return_and_line_feed() {
    let data = "{\r\n  \"workbench.colorTheme\": \"A\",\r\n  \"editor.fontFamily\": \"Hack\" \r\n}\r\n";
    assert_eq!(extract(data, "workbench.colorTheme"), bound("A"));
    assert_eq!(extract(data, "editor.fontFamily"), bound("Hack"));
}

#[test]
fn text_after_the_value_on_its_line_prevents_the_match() {
    let data = "\"workbench.colorTheme\": \"A\" // the theme\n\"workbench.colorTheme\": \"B\"";
    assert_eq!(extract(data, "workbench.colorTheme"), bound("B"));
}

#[test]
fn longest_plain_keys_are_looked_up() {
    let dots = ".".repeat(256);
    let letters = "aZ09_".repeat(51) + "x";
    assert_eq!(letters.chars().count(), 256);
    assert_eq!(extract("{}", &dots), Lookup::Missing);
    assert_eq!(extract("{}", &letters), Lookup::Missing);
    let line = format!("  \"{}\": \"found\",", letters);
    assert_eq!(extract(&line, &letters), bound("found"));
}

#[test]
fn the_three_keys_are_looked_up() {
    assert_eq!(extract("", "workbench.colorTheme"), Lookup::Missing);
    assert_eq!(extract("", "editor.fontFamily"), Lookup::Missing);
    assert_eq!(extract("", "terminal.integrated.fontFamily"), Lookup::Missing);
}
