use milight::colors::{Color, GREEN, LAVENDER, VIOLET};
use milight::commands::v3::Command;

fn all_commands() -> Vec<Command> {
    vec![
        Command::Off,
        Command::On,
        Command::SetColor(Color(0x42)),
        Command::BrightnessUp,
        Command::BrightnessDown,
        Command::SpeedUp,
        Command::SpeedDown,
        Command::ModeUp,
        Command::ModeDown,
    ]
}

#[test]
fn mode_down_frame() {
    assert_eq!(Command::ModeDown.encode(), [0x28, 0x00, 0x55]);
    let bytes: Vec<u8> = Command::ModeDown.into();
    assert_eq!(bytes, vec![0x28, 0x00, 0x55]);
}

#[test]
fn set_color_green_frame() {
    assert_eq!(Command::SetColor(Color(0x60)).encode(), [0x20, 0x60, 0x55]);
    let bytes: Vec<u8> = Command::SetColor(Color(GREEN)).into();
    assert_eq!(bytes, vec![0x20, 0x60, 0x55]);
}

#[test]
fn every_frame_has_terminator_and_distinct_opcode() {
    let frames: Vec<[u8; 3]> = all_commands().iter().map(|c| c.encode()).collect();
    let mut opcodes: Vec<u8> = frames.iter().map(|f| f[0]).collect();
    for f in &frames {
        assert_eq!(f.len(), 3);
        assert_eq!(f[2], 0x55);
    }
    opcodes.sort();
    assert_eq!(opcodes, vec![0x20, 0x21, 0x22, 0x23, 0x24, 0x25, 0x26, 0x27, 0x28]);
}

#[test]
fn fixed_opcodes() {
    assert_eq!(Command::Off.encode(), [0x21, 0x00, 0x55]);
    assert_eq!(Command::On.encode(), [0x22, 0x00, 0x55]);
    assert_eq!(Command::BrightnessUp.encode(), [0x23, 0x00, 0x55]);
    assert_eq!(Command::BrightnessDown.encode(), [0x24, 0x00, 0x55]);
    assert_eq!(Command::SpeedUp.encode(), [0x25, 0x00, 0x55]);
    assert_eq!(Command::SpeedDown.encode(), [0x26, 0x00, 0x55]);
    assert_eq!(Command::ModeUp.encode(), [0x27, 0x00, 0x55]);
}

#[test]
fn set_color_argument_for_every_byte() {
    for v in 0..=255u8 {
        assert_eq!(Command::SetColor(Color(v)).encode(), [0x20, v, 0x55]);
    }
}

#[test]
fn color_into_byte() {
    let b: u8 = Color(0x7A).into();
    assert_eq!(b, 0x7A);
    assert_eq!(u8::from(Color(VIOLET)), 0x00);
    assert_eq!(u8::from(Color(LAVENDER)), 0xF0);
}

#[test]
fn color_text_forms() {
    let c = Color(0x7A);
    assert_eq!(c.to_upper_hex_string(), "0x7A");
    assert_eq!(c.to_lower_hex_string(), "0x7a");
    assert_eq!(c.to_decimal_string(), "122");
    assert_eq!(Color(0).to_upper_hex_string(), "0x0");
    assert_eq!(Color(0).to_decimal_string(), "0");
    assert_eq!(Color(9).to_decimal_string(), "9");
    assert_eq!(Color(0x0F).to_lower_hex_string(), "0xf");
    assert_eq!(Color(42).to_decimal_string(), "42");
    assert_eq!(Color(255).to_decimal_string(), "255");
}

#[test]
fn color_text_matches_std_formatting() {
    for v in 0..=255u8 {
        assert_eq!(Color(v).to_decimal_string(), format!("{}", v));
        assert_eq!(Color(v).to_upper_hex_string(), format!("{:#X}", v));
        assert_eq!(Color(v).to_lower_hex_string(), format!("{:#x}", v));
    }
}
