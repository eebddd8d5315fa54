use sierpinski::color::Color;

#[test]
fn fill_style_of_green() {
    assert_eq!(Color::new(0, 255, 0).fill_style(), "rgb(0,255,0)");
}

#[test]
fn fill_style_has_no_padding() {
    assert_eq!(Color::new(0, 0, 0).fill_style(), "rgb(0,0,0)");
    assert_eq!(Color::new(7, 42, 100).fill_style(), "rgb(7,42,100)");
    assert_eq!(Color::new(9, 10, 99).fill_style(), "rgb(9,10,99)");
    assert_eq!(Color::new(101, 110, 200).fill_style(), "rgb(101,110,200)");
    assert_eq!(Color::new(255, 255, 255).fill_style(), "rgb(255,255,255)");
}

#[test]
fn fill_style_matches_decimal_formatting_for_every_channel_value() {
    for value in 0..=255u8 {
        let expected = format!("rgb({},{},{})", value, 255 - value, value / 2);
        assert_eq!(Color::new(value, 255 - value, value / 2).fill_style(), expected);
    }
}

#[test]
fn color_new_sets_the_channels() {
    let c = Color::new(1, 2, 3);
    assert_eq!(c.red, 1);
    assert_eq!(c.green, 2);
    assert_eq!(c.blue, 3);
    assert_eq!(c, Color { red: 1, green: 2, blue: 3 });
    assert_ne!(c, Color::new(3, 2, 1));
}
