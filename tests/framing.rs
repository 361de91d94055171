use client_rust_fix::framing::split_fix_messages;

const M1: &str = "8=FIX.4.4\x019=12\x0135=8\x0111=1700000000\x0139=0\x0110=123\x01";
const M2: &str = "8=FIX.4.4\x019=20\x0135=A\x0134=1\x0110=045\x01";
const M3: &str = "8=FIX.4.4\x019=7\x0135=0\x0110=001\x01";

#[test]
fn split_empty_buffer_gives_nothing() {
    assert!(split_fix_messages("").is_empty());
}

#[test]
fn split_one_message_trims_trailing_separator() {
    let out = split_fix_messages(M1);
    assert_eq!(out.len(), 1);
    assert_eq!(out[0], M1[..M1.len() - 1]);
}

#[test]
fn split_concatenation_gives_each_message() {
    let joined = format!("{M1}{M2}{M3}");
    let out = split_fix_messages(&joined);
    assert_eq!(out.len(), 3);
    for (got, want) in out.iter().zip([M1, M2, M3]) {
        assert_eq!(got.as_str(), &want[..want.len() - 1]);
        assert!(got.starts_with("8=FIX.4.4\x01"));
        assert!(!got[1..].contains("8=FIX.4.4\x01"));
    }
}

#[test]
fn split_keeps_partial_trailing_fragment() {
    let joined = format!("{M1}8=FIX.4.4\x019=3\x0135=");
    let out = split_fix_messages(&joined);
    assert_eq!(out.len(), 2);
    assert_eq!(out[1], "8=FIX.4.4\x019=3\x0135=");
}

#[test]
fn split_leading_text_becomes_a_message() {
    let joined = format!("10=222\x01{M2}");
    let out = split_fix_messages(&joined);
    assert_eq!(out.len(), 2);
    assert_eq!(out[0], "8=FIX.4.4\x0110=222");
}

#[test]
fn split_removes_all_trailing_separators() {
    let out = split_fix_messages("8=FIX.4.4\x0135=0\x01\x01");
    assert_eq!(out, vec!["8=FIX.4.4\x0135=0".to_string()]);
}

#[test]
fn split_of_extracted_message_gives_itself() {
    let joined = format!("{M1}{M2}\x01\x01{M3}");
    for m in split_fix_messages(&joined) {
        assert!(!m.ends_with('\x01'));
        assert_eq!(split_fix_messages(&m), vec![m.clone()]);
    }
}

#[test]
fn split_separator_only_piece_leaves_bare_marker() {
    let out = split_fix_messages("8=FIX.4.4\x01\x01\x01");
    assert_eq!(out, vec!["8=FIX.4.4".to_string()]);
}

#[test]
fn split_drops_empty_pieces_between_markers() {
    let out = split_fix_messages("8=FIX.4.4\x018=FIX.4.4\x0135=0\x01");
    assert_eq!(out, vec!["8=FIX.4.4\x0135=0".to_string()]);
}
