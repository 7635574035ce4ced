use lfi_vsa_core::agent::sanitize_for_guest;

const WITHHELD: &str = "Action processed at the symbolic layer. Full cognitive derivation requires Sovereign authentication.";

#[test]
fn guest_view_cuts_internal_blocks() {
    let text = "Answer line\nPlan:\nstep 1\n--- END REASONING ---\nDone";
    assert_eq!(sanitize_for_guest(text), "Answer line\nDone");
    let code = "--- INTERNAL REASONING SCRATCHPAD ---\nthinking\n--- END CODE ---\nvisible\n";
    assert_eq!(sanitize_for_guest(code), "visible");
}

#[test]
fn guest_view_withholds_when_nothing_is_left() {
    assert_eq!(sanitize_for_guest("Mode: Deep\nsecret"), WITHHELD);
    assert_eq!(sanitize_for_guest(""), WITHHELD);
    assert_eq!(sanitize_for_guest("\n"), WITHHELD);
}

#[test]
fn guest_view_keeps_line_endings_as_lines_does() {
    assert_eq!(sanitize_for_guest("a\r\nb\r"), "a\nb\r");
    assert_eq!(sanitize_for_guest("x\n\ny"), "x\n\ny");
}
