use client_rust_fix::tags::get_attr;

#[test]
fn get_attr_finds_tag_between_separators() {
    let m = "8=FIX.4.4\x0135=8\x0111=1700000000\x0139=0\x0137=55667\x01";
    assert_eq!(get_attr(m, "11"), "1700000000");
    assert_eq!(get_attr(m, "39"), "0");
    assert_eq!(get_attr(m, "37"), "55667");
    assert_eq!(get_attr(m, "8"), "FIX.4.4");
}

#[test]
fn get_attr_missing_tag_is_empty() {
    assert_eq!(get_attr("8=FIX.4.4\x0135=8", "41"), "");
    assert_eq!(get_attr("", "35"), "");
}

#[test]
fn get_attr_reads_printable_form() {
    assert_eq!(get_attr("8=FIX.4.2|9=12|35=D|49=CLIENT|", "49"), "CLIENT");
}

#[test]
fn get_attr_first_occurrence_wins() {
    assert_eq!(get_attr("35=8\x0135=9\x01", "35"), "8");
}

#[test]
fn get_attr_value_keeps_later_equals() {
    assert_eq!(get_attr("554=ab=c\x01", "554"), "ab=c");
}

#[test]
fn get_attr_does_not_match_tag_suffix() {
    assert_eq!(get_attr("111=x\x0111=y\x01", "11"), "y");
    assert_eq!(get_attr("novalue\x0111=z", "11"), "z");
}
