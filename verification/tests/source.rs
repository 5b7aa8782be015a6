use watchmux::error::ConfigError;
use watchmux::source::{after_probe, document_from_lines, ConfigSource, RC_FILE_NAME, STDIN_PATH};

fn owned(lines: &[&str]) -> Vec<String> {
    lines.iter().map(|line| line.to_string()).collect()
}

#[test]
fn the_names_of_the_sources() {
    assert_eq!(STDIN_PATH, "-");
    assert_eq!(RC_FILE_NAME, ".watchmuxrc.yaml");
}

#[test]
fn a_dash_selects_standard_input() {
    assert_eq!(ConfigSource::select(Some("-".to_string())), ConfigSource::Stdin);
}

#[test]
fn any_other_path_selects_the_file() {
    for path in ["config.yaml", "path/to/config", "--", "- ", "", "./-"] {
        assert_eq!(
            ConfigSource::select(Some(path.to_string())),
            ConfigSource::File(path.to_string())
        );
    }
}

#[test]
fn no_path_selects_the_file_of_the_current_directory() {
    assert_eq!(ConfigSource::select(None), ConfigSource::RcFile);
}

#[test]
fn the_document_is_the_lines_with_their_newlines() {
    let lines = owned(&["processes:", "  - title: foobar", "    cmd: echo foobar"]);
    assert_eq!(
        document_from_lines(&lines),
        Ok("processes:\n  - title: foobar\n    cmd: echo foobar\n".to_string())
    );
}

#[test]
fn an_empty_line_still_makes_a_document() {
    assert_eq!(document_from_lines(&owned(&[""])), Ok("\n".to_string()));
    assert_eq!(document_from_lines(&owned(&["", ""])), Ok("\n\n".to_string()));
}

#[test]
fn no_line_at_all_means_the_configuration_is_missing() {
    assert_eq!(document_from_lines(&Vec::new()), Err(ConfigError::Missing));
}

#[test]
fn a_probe_that_worked_lets_the_file_be_read() {
    assert_eq!(after_probe(Ok(true)), Ok(()));
    assert_eq!(after_probe(Ok(false)), Ok(()));
}

#[test]
fn a_probe_that_failed_means_there_is_no_file() {
    assert_eq!(after_probe(Err("denied".to_string())), Err(ConfigError::NoRcFile));
}
