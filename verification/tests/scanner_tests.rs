use ghaf_tools::scanner::{ClamAVScanner, ScanResult};

#[test]
fn response_ending_ok_is_clean() {
    assert_eq!(
        ClamAVScanner::parse_response("stream: OK", "f"),
        ScanResult::Clean
    );
    assert_eq!(ClamAVScanner::parse_response("OK", "f"), ScanResult::Clean);
}

#[test]
fn response_ending_found_names_signature() {
    assert_eq!(
        ClamAVScanner::parse_response("stream: Eicar-Test-Signature FOUND", "f"),
        ScanResult::Infected("Eicar-Test-Signature".to_string())
    );
}

#[test]
fn found_without_separator_is_unknown() {
    assert_eq!(
        ClamAVScanner::parse_response("FOUND", "f"),
        ScanResult::Infected("unknown".to_string())
    );
}

#[test]
fn found_uses_last_separator() {
    assert_eq!(
        ClamAVScanner::parse_response("fd[9]: path: Win.Test.EICAR_HDB-1 FOUND", "f"),
        ScanResult::Infected("Win.Test.EICAR_HDB-1".to_string())
    );
}

#[test]
fn response_ending_error_is_error() {
    assert_eq!(
        ClamAVScanner::parse_response("INSTREAM size limit exceeded. ERROR", "f"),
        ScanResult::Error
    );
}

#[test]
fn malformed_response_is_error() {
    assert_eq!(
        ClamAVScanner::parse_response("something unexpected", "f"),
        ScanResult::Error
    );
    assert_eq!(ClamAVScanner::parse_response("", "f"), ScanResult::Error);
}
