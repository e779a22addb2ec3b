use schema_diagnostics::bytes::common_prefix_len;

#[test]
fn common_prefix_ends_at_the_first_difference() {
    assert_eq!(0, common_prefix_len(b"", b""));
    assert_eq!(0, common_prefix_len(b"", b"abc"));
    assert_eq!(0, common_prefix_len(b"abc", b""));
    assert_eq!(0, common_prefix_len(b"abc", b"xbc"));
    assert_eq!(2, common_prefix_len(b"abc", b"abd"));
    assert_eq!(3, common_prefix_len(b"abc", b"abc"));
    assert_eq!(3, common_prefix_len(b"abc", b"abcd"));
    assert_eq!(3, common_prefix_len(b"abcd", b"abc"));
}
