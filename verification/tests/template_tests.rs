use op_loader::template::{make_template_content, path_to_template_name, render_template_content};

fn render_content(template: &str, vars: &[(&str, &str)]) -> String {
    let template_bytes = template.as_bytes().to_vec();
    let var_table: Vec<(Vec<u8>, Vec<u8>)> = vars
        .iter()
        .map(|(n, v)| (n.as_bytes().to_vec(), v.as_bytes().to_vec()))
        .collect();
    let rendered = render_template_content(&template_bytes, &var_table);
    String::from_utf8(rendered).unwrap()
}

#[test]
fn extracts_filename_from_path() {
    let result = path_to_template_name("/Users/foo/.npmrc");
    assert_eq!(result, ".npmrc.tmpl");
}

#[test]
fn handles_simple_filename() {
    let result = path_to_template_name("myfile.txt");
    assert_eq!(result, "myfile.txt.tmpl");
}

#[test]
fn handles_nested_path() {
    let result = path_to_template_name("/home/user/.config/app/settings.json");
    assert_eq!(result, "settings.json.tmpl");
}

#[test]
fn falls_back_for_trailing_slash() {
    let result = path_to_template_name("/home/user/");
    assert_eq!(result, "template.tmpl");
}

#[test]
fn substitutes_single_variable() {
    let template = "token={{MY_TOKEN}}\n";
    let result = render_content(template, &[("MY_TOKEN", "secret123")]);
    assert_eq!(result, "token=secret123\n");
}

#[test]
fn substitutes_multiple_variables() {
    let template = "user={{USER}}\npass={{PASS}}\n";
    let result = render_content(template, &[("USER", "admin"), ("PASS", "secret")]);
    assert_eq!(result, "user=admin\npass=secret\n");
}

#[test]
fn strips_op_loader_comments() {
    let template =
        "# op-loader: Available variables: {{TOKEN}}\n# op-loader: This line too\ntoken={{TOKEN}}\n";
    let result = render_content(template, &[("TOKEN", "abc")]);
    assert_eq!(result, "token=abc\n");
}

#[test]
fn preserves_other_comments() {
    let template = "# This is a regular comment\ntoken={{TOKEN}}\n";
    let result = render_content(template, &[("TOKEN", "xyz")]);
    assert_eq!(result, "# This is a regular comment\ntoken=xyz\n");
}

#[test]
fn handles_same_var_multiple_times() {
    let template = "first={{VAR}} second={{VAR}}\n";
    let result = render_content(template, &[("VAR", "value")]);
    assert_eq!(result, "first=value second=value\n");
}

#[test]
fn leaves_unmatched_placeholders() {
    let template = "token={{UNKNOWN}}\n";
    let result = render_content(template, &[]);
    assert_eq!(result, "token={{UNKNOWN}}\n");
}

#[test]
fn preserves_trailing_newline() {
    let template = "content\n";
    let result = render_content(template, &[]);
    assert!(result.ends_with('\n'));
}

#[test]
fn handles_empty_template() {
    let template = "";
    let result = render_content(template, &[]);
    assert_eq!(result, "");
}

// The marker line and the placeholder render to exactly the resolved
// line, marker stripped.
#[test]
fn marker_line_is_stripped_and_token_substituted() {
    let template = "# op-loader: {{TOKEN}}\ntoken={{TOKEN}}\n";
    let result = render_content(template, &[("TOKEN", "abc")]);
    assert_eq!(result, "token=abc\n");
}

// Rendering twice with unchanged template and unchanged values writes
// byte-identical content both times.
#[test]
fn rendering_twice_is_byte_identical() {
    let template = "# op-loader: note\nuser={{USER}}\ntoken={{TOKEN}}\n".as_bytes().to_vec();
    let vars: Vec<(Vec<u8>, Vec<u8>)> = vec![
        (b"USER".to_vec(), b"admin".to_vec()),
        (b"TOKEN".to_vec(), b"s3cr3t".to_vec()),
    ];

    let first = render_template_content(&template, &vars);
    let second = render_template_content(&template, &vars);

    assert_eq!(first, second);
    assert_eq!(String::from_utf8(first).unwrap(), "user=admin\ntoken=s3cr3t\n");
}

#[test]
fn no_trailing_newline_is_preserved_too() {
    let template = "value={{V}}";
    let result = render_content(template, &[("V", "1")]);
    assert_eq!(result, "value=1");
}

#[test]
fn fresh_template_lists_known_variables() {
    let original = b"line\n".to_vec();
    let names = vec!["TOKEN".to_string(), "USER".to_string()];
    let content = make_template_content(&original, &names);
    assert_eq!(
        String::from_utf8(content).unwrap(),
        "# op-loader: Available variables: {{TOKEN}}, {{USER}}\nline\n"
    );
}

#[test]
fn fresh_template_notes_missing_variables() {
    let original = b"line\n".to_vec();
    let content = make_template_content(&original, &vec![]);
    assert_eq!(
        String::from_utf8(content).unwrap(),
        "# op-loader: No variables configured yet. Use the TUI to add variables.\nline\n"
    );
}

// A generated template renders back to the original content when no
// placeholder occurs in it.
#[test]
fn generated_comment_disappears_at_render() {
    let original = "plain config\n";
    let names = vec!["TOKEN".to_string()];
    let template = make_template_content(&original.as_bytes().to_vec(), &names);
    let rendered = render_template_content(&template, &vec![]);
    assert_eq!(String::from_utf8(rendered).unwrap(), original);
}
