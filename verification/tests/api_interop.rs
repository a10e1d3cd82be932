use blam_tags::assign::parse_api_interop;

#[test]
fn api_interop_reset_words() {
    let reset = vec![0u8, 0, 0, 0, 0xFF, 0xFF, 0xFF, 0xFF, 0, 0, 0, 0];
    assert_eq!(parse_api_interop("reset"), Some(reset.clone()));
    assert_eq!(parse_api_interop("  NONE \t"), Some(reset.clone()));
    assert_eq!(parse_api_interop("ReSeT"), Some(reset));
}

#[test]
fn api_interop_three_words() {
    assert_eq!(
        parse_api_interop("1, 0x10 ,4294967295"),
        Some(vec![1u8, 0, 0, 0, 0x10, 0, 0, 0, 0xFF, 0xFF, 0xFF, 0xFF])
    );
    assert_eq!(
        parse_api_interop(" 0X0102, +7, 0 "),
        Some(vec![2u8, 1, 0, 0, 7, 0, 0, 0, 0, 0, 0, 0])
    );
}

#[test]
fn api_interop_refusals() {
    assert_eq!(parse_api_interop("1,2"), None);
    assert_eq!(parse_api_interop("1,2,3,4"), None);
    assert_eq!(parse_api_interop("1,,3"), None);
    assert_eq!(parse_api_interop("-1,2,3"), None);
    assert_eq!(parse_api_interop("4294967296,0,0"), None);
    assert_eq!(parse_api_interop("0x,0,0"), None);
    assert_eq!(parse_api_interop("resets"), None);
}
