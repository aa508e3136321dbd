use escriba::line_ending::LineEnding;

#[test]
fn detect_defaults() {
    assert_eq!(LineEnding::detect(""), LineEnding::Lf);
    assert_eq!(LineEnding::detect("a\nb\nc"), LineEnding::Lf);
    assert_eq!(LineEnding::detect("a\r\nb\r\nc"), LineEnding::Crlf);
    assert_eq!(LineEnding::detect("a\rb\rc"), LineEnding::Cr);
}

#[test]
fn detect_takes_the_majority_and_lf_wins_ties() {
    assert_eq!(LineEnding::detect("a\r\nb\n"), LineEnding::Lf);
    assert_eq!(LineEnding::detect("a\rb\n"), LineEnding::Lf);
    assert_eq!(LineEnding::detect("a\r\nb\r\nc\n"), LineEnding::Crlf);
    assert_eq!(LineEnding::detect("a\rb\rc\n"), LineEnding::Cr);
    assert_eq!(LineEnding::detect("a\r\nb\rc"), LineEnding::Crlf);
}
