use git_bot_feedback::output_variable::write_output_variables;
use git_bot_feedback::OutputVariable;

fn var(name: &str, value: &str) -> OutputVariable {
    OutputVariable {
        name: name.to_string(),
        value: value.to_string(),
    }
}

#[test]
fn validate_output_variable() {
    assert!(var("STEP_OUTPUT_VAR", "some data").validate());
    assert!(var("", "").validate());
    assert!(var("multi\nline name", "value").validate());
    assert!(!var("name", "some\ndata").validate());
    assert!(!var("name", "\n").validate());
    assert!(var("name", "tab\tand\rreturn").validate());
}

#[test]
fn output_variable_as_a_line() {
    assert_eq!(var("STEP_OUTPUT_VAR", "some data").to_string(), "STEP_OUTPUT_VAR=some data");
    assert_eq!(var("a", "b=c").to_string(), "a=b=c");
}

#[test]
fn output_variables_are_laid_out() {
    let lines = write_output_variables(&vec![var("a", "1"), var("b", "2")]);
    assert_eq!(lines.text, "a=1\n\nb=2\n\n");
    assert_eq!(lines.rejected, None);
    let lines = write_output_variables(&vec![]);
    assert_eq!(lines.text, "");
    assert_eq!(lines.rejected, None);
}

#[test]
fn malformed_output_variable_stops_the_list() {
    let lines = write_output_variables(&vec![var("a", "1"), var("b", "2\n3"), var("c", "4")]);
    assert_eq!(lines.text, "a=1\n\n");
    assert_eq!(lines.rejected, Some(1));
}
