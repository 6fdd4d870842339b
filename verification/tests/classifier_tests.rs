use tunnel_supervisor::classifier::{classify_line, line_contains, LineClass};

#[test]
fn established_on_interactive_session() {
    assert_eq!(
        classify_line("debug1: Entering interactive session."),
        LineClass::Established
    );
}

#[test]
fn established_is_case_insensitive() {
    assert_eq!(
        classify_line("DEBUG1: ENTERING INTERACTIVE SESSION."),
        LineClass::Established
    );
}

#[test]
fn established_on_remote_forward_success() {
    assert_eq!(
        classify_line("debug1: remote forward success for: listen 9000"),
        LineClass::Established
    );
}

#[test]
fn established_on_authenticated_to() {
    assert_eq!(
        classify_line("Authenticated to example.com ([10.0.0.1]:22)."),
        LineClass::Established
    );
}

#[test]
fn established_on_authentication_succeeded() {
    assert_eq!(
        classify_line("debug1: Authentication succeeded (publickey)."),
        LineClass::Established
    );
}

#[test]
fn fatal_on_remote_port_forwarding_failed() {
    assert_eq!(
        classify_line("Warning: remote port forwarding failed for listen port 9000"),
        LineClass::FatalPortForward
    );
}

#[test]
fn fatal_on_permission_denied() {
    assert_eq!(
        classify_line("user@example.com: Permission denied (publickey,password)."),
        LineClass::FatalAuth
    );
}

#[test]
fn fatal_on_permission_denied_upper_case() {
    assert_eq!(classify_line("PERMISSION DENIED"), LineClass::FatalAuth);
}

#[test]
fn informational_on_ordinary_chatter() {
    assert_eq!(
        classify_line("debug1: Reading configuration data /etc/ssh/ssh_config"),
        LineClass::Informational
    );
}

#[test]
fn informational_on_empty_line() {
    assert_eq!(classify_line(""), LineClass::Informational);
}

#[test]
fn established_wins_over_later_rules() {
    // The rule table is ordered: the session-established phrases are
    // checked before the fatal ones.
    assert_eq!(
        classify_line("entering interactive session after permission denied retry"),
        LineClass::Established
    );
}

#[test]
fn line_contains_matches_substrings_case_insensitively() {
    assert!(line_contains("Warning: Permission Denied!", "permission denied"));
    assert!(line_contains("abc", ""));
    assert!(!line_contains("permission", "permission denied"));
    assert!(!line_contains("", "x"));
    assert!(line_contains("xyzzy", "YZZ"));
}
