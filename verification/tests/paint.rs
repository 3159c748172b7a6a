use simple_render::style::border_widths;
use simple_render::{Border, BorderWidth, Color, ColorParseError, GradientDirection, Paint};

#[test]
fn colour_constructors() {
    assert_eq!(Color::rgb(1, 2, 3), Color { red: 1, green: 2, blue: 3, alpha: 255 });
    assert_eq!(Color::rgba(1, 2, 3, 4).to_rgba(), [1, 2, 3, 4]);
    assert_eq!(Color::from_rgba_array([5, 6, 7, 8]), Color::rgba(5, 6, 7, 8));
    assert_eq!(Color::from_rgb_array([5, 6, 7]), Color::rgb(5, 6, 7));
    assert_eq!(Color::transparent(), Color::rgba(0, 0, 0, 0));
    assert_eq!(Color::black(), Color::rgb(0, 0, 0));
    assert_eq!(Color::white(), Color::rgb(255, 255, 255));
    assert_eq!(Color::default(), Color::transparent());
}

#[test]
fn from_hex_reads_six_or_eight_digits() {
    assert_eq!(Color::from_hex("#ff8000"), Ok(Color::rgb(255, 128, 0)));
    assert_eq!(Color::from_hex("2a2F38"), Ok(Color::rgb(0x2a, 0x2f, 0x38)));
    assert_eq!(Color::from_hex("#11223344"), Ok(Color::rgba(0x11, 0x22, 0x33, 0x44)));
    assert_eq!("#010203".parse::<Color>(), Ok(Color::rgb(1, 2, 3)));
}

#[test]
fn from_hex_rejects_other_strings() {
    assert_eq!(Color::from_hex("#fff"), Err(ColorParseError));
    assert_eq!(Color::from_hex("#1234567"), Err(ColorParseError));
    assert_eq!(Color::from_hex("#gg0000"), Err(ColorParseError));
    assert_eq!(Color::from_hex("##ff0000"), Err(ColorParseError));
    assert_eq!(Color::from_hex("#-f0000"), Err(ColorParseError));
    assert_eq!(Color::from_hex("#ff00é"), Err(ColorParseError));
    assert_eq!(Color::from_hex(""), Err(ColorParseError));
}

#[test]
fn from_hex_takes_only_hex_digits_in_a_pair() {
    assert_eq!(Color::from_hex("#+f0000"), Err(ColorParseError));
    assert_eq!(Color::from_hex("#+f+f+f"), Err(ColorParseError));
    assert_eq!(Color::from_hex("-fffff"), Err(ColorParseError));
}

#[test]
fn colour_parse_error_message() {
    assert_eq!(ColorParseError.message(), "expected #RRGGBB or #RRGGBBAA color");
}

#[test]
fn gradients_interpolate_between_stops() {
    let paint = Paint::gradient(vec![Color::black(), Color::white()]);
    assert_eq!(paint.at(0, 0, 11, 1, GradientDirection::Horizontal), Color::black());
    assert_eq!(paint.at(5, 0, 11, 1, GradientDirection::Horizontal), Color::rgb(127, 127, 127));
    assert_eq!(paint.at(10, 0, 11, 1, GradientDirection::Horizontal), Color::white());
    assert_eq!(paint.at(50, 0, 11, 1, GradientDirection::Horizontal), Color::white());

    let three = Paint::gradient(vec![Color::rgb(255, 0, 0), Color::rgb(0, 255, 0), Color::rgb(0, 0, 255)]);
    assert_eq!(three.at(1, 0, 5, 1, GradientDirection::Horizontal), Color::rgb(128, 127, 0));
    assert_eq!(three.at(2, 0, 5, 1, GradientDirection::Horizontal), Color::rgb(0, 255, 0));
    assert_eq!(three.at(0, 4, 1, 5, GradientDirection::Vertical), Color::rgb(0, 0, 255));
    assert_eq!(three.at(0, 0, 3, 3, GradientDirection::DiagonalReverse), Color::rgb(0, 255, 0));
    assert_eq!(three.at(2, 2, 3, 3, GradientDirection::Diagonal), Color::rgb(0, 0, 255));
}

#[test]
fn degenerate_gradients() {
    assert_eq!(Paint::gradient(Vec::new()), Paint::Solid(Color::transparent()));
    let single = Paint::gradient(vec![Color::rgb(9, 9, 9)]);
    assert_eq!(single.at(3, 3, 10, 10, GradientDirection::Diagonal), Color::rgb(9, 9, 9));
    let pair = Paint::gradient(vec![Color::rgb(1, 1, 1), Color::rgb(2, 2, 2)]);
    assert_eq!(pair.at(0, 0, 1, 1, GradientDirection::Horizontal), Color::rgb(1, 1, 1));
    assert_eq!(pair.first(), Color::rgb(1, 1, 1));
    assert_eq!(Paint::solid(Color::black()).at(4, 4, 8, 8, GradientDirection::Vertical), Color::black());
    assert_eq!(Paint::default(), Paint::Solid(Color::transparent()));
}

#[test]
fn border_widths_fall_back_to_the_uniform_width() {
    let border = Border::new().width(3);
    assert_eq!(border_widths(&border), BorderWidth::all(3));
    let edges = Border::new().widths(BorderWidth::new().left(2).top(1));
    assert_eq!(
        border_widths(&edges),
        BorderWidth { top: 1, right: 0, bottom: 0, left: 2 }
    );
    assert_eq!(Border::new().color, Paint::Solid(Color::white()));
    assert_eq!(Border::default().width, 1);
    assert_eq!(Border::new().gradient(GradientDirection::Vertical).gradient, GradientDirection::Vertical);
    assert_eq!(Border::new().color(Paint::solid(Color::black())).color, Paint::Solid(Color::black()));
}

#[test]
fn border_width_builders_and_scaling() {
    let widths = BorderWidth::zero().top(1).right(2).bottom(3).left(4);
    assert_eq!(widths, BorderWidth { top: 1, right: 2, bottom: 3, left: 4 });
    assert!(!widths.is_zero());
    assert!(BorderWidth::default().is_zero());
    assert_eq!(widths.scaled(2), BorderWidth { top: 2, right: 4, bottom: 6, left: 8 });
    assert_eq!(BorderWidth::all(u32::MAX).scaled(3), BorderWidth::all(u32::MAX));
}

#[test]
fn hex_text_of_a_colour_reads_back() {
    for (r, g, b, a) in [(0u8, 0u8, 0u8, 0u8), (255, 255, 255, 255), (94, 129, 172, 17), (1, 16, 171, 205)] {
        let c = Color::rgba(r, g, b, a);
        assert_eq!(Color::from_hex(&format!("#{:02x}{:02x}{:02x}{:02x}", r, g, b, a)), Ok(c));
        assert_eq!(Color::from_hex(&format!("{:02X}{:02X}{:02X}{:02X}", r, g, b, a)), Ok(c));
        assert_eq!(Color::from_hex(&format!("{:02X}{:02X}{:02X}", r, g, b)), Ok(Color::rgb(r, g, b)));
    }
    assert_eq!(Color::from_hex("#5e81ac"), Ok(Color::rgb(94, 129, 172)));
}
