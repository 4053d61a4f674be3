use rtkill::color::generate_random_color;
use rtkill::color::HexError;
use rtkill::color::Rgb;

#[test]
fn test_from_hex() {
    // colours used by the app
    assert!(Rgb::from_hex("#2ecc71").is_ok());
    assert!(Rgb::from_hex("#3498db").is_ok());
    assert!(Rgb::from_hex("#f1c90f").is_ok());
    assert!(Rgb::from_hex("#e74c3c").is_ok());
    assert!(Rgb::from_hex("e74c3c").is_ok());
    assert!(Rgb::from_hex(" #e74c3c ").is_ok());

    // not colours
    assert!(Rgb::from_hex("#e74cc").is_err());
    assert!(Rgb::from_hex("e74ccx9").is_err());
    assert!(Rgb::from_hex("$e74c3c").is_err());
    assert!(Rgb::from_hex("#w74c3c").is_err());

    // 1000 random colours round-trip to their channel bytes
    for _ in 0..1000 {
        let r: u8 = rand::random_range(0..=255);
        let g: u8 = rand::random_range(0..=255);
        let b: u8 = rand::random_range(0..=255);
        let hex = format!("{:02x}{:02x}{:02x}", r, g, b);
        assert_eq!(Rgb::from_hex(&hex), Ok(Rgb { r, g, b }), "{hex}");
    }
}

#[test]
fn test_from_hex_values() {
    assert_eq!(Rgb::from_hex("#2ecc71"), Ok(Rgb { r: 0x2e, g: 0xcc, b: 0x71 }));
    assert_eq!(Rgb::from_hex("0xe74c3c"), Ok(Rgb { r: 0xe7, g: 0x4c, b: 0x3c }));
    assert_eq!(Rgb::from_hex("ABCDEF"), Ok(Rgb { r: 0xab, g: 0xcd, b: 0xef }));
}

#[test]
fn test_from_hex_errors() {
    assert_eq!(Rgb::from_hex("#e74cc"), Err(HexError::BadLength));
    assert_eq!(Rgb::from_hex(""), Err(HexError::BadLength));
    assert_eq!(Rgb::from_hex("#w74c3c"), Err(HexError::BadDigit));
    assert_eq!(Rgb::from_hex("12345g"), Err(HexError::BadDigit));
}

#[test]
fn test_generate_random_color_is_light() {
    for _ in 0..100 {
        let c = generate_random_color();
        assert!(c.r >= 128);
        assert!(c.g >= 128);
        assert!(c.b >= 128);
    }
}
