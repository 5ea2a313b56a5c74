use patchbot::format_num;

#[test]
fn format_num_groups_thousands() {
    assert_eq!(format_num(0), "0");
    assert_eq!(format_num(7), "7");
    assert_eq!(format_num(999), "999");
    assert_eq!(format_num(1000), "1,000");
    assert_eq!(format_num(12345), "12,345");
    assert_eq!(format_num(123456), "123,456");
    assert_eq!(format_num(1234567), "1,234,567");
    assert_eq!(format_num(1000000), "1,000,000");
    assert_eq!(format_num(u64::MAX), "18,446,744,073,709,551,615");
}
