use minivm::decimal::push_decimal_signed;
use minivm::decimal::push_decimal_u32;

fn rendered_u32(v: u32) -> String {
    let mut out: Vec<char> = Vec::new();
    push_decimal_u32(v, &mut out);
    out.into_iter().collect()
}

fn rendered_signed(v: u32) -> String {
    let mut out: Vec<char> = Vec::new();
    push_decimal_signed(v, &mut out);
    out.into_iter().collect()
}

#[test]
fn renders_unsigned_digits() {
    assert_eq!(rendered_u32(0), "0");
    assert_eq!(rendered_u32(7), "7");
    assert_eq!(rendered_u32(10), "10");
    assert_eq!(rendered_u32(123), "123");
    assert_eq!(rendered_u32(4_294_967_295), "4294967295");
}

#[test]
fn renders_signed_values() {
    assert_eq!(rendered_signed(0), "0");
    assert_eq!(rendered_signed(2_147_483_647), "2147483647");
    assert_eq!(rendered_signed(0xFFFF_FFFF), "-1");
    assert_eq!(rendered_signed(0x8000_0000), "-2147483648");
    assert_eq!(rendered_signed(0xFFFF_FFFB), "-5");
}

#[test]
fn appends_after_existing_text() {
    let mut out: Vec<char> = vec!['x'];
    push_decimal_signed(41, &mut out);
    let s: String = out.into_iter().collect();
    assert_eq!(s, "x41");
}
