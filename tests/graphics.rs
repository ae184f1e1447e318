use sixtyfps_interpreter::graphics::{
    Brush, Color, EasingCurve, ImageReference, PathData, PathElement,
};
use sixtyfps_interpreter::{CompilerConfiguration, NativeValue, Number, Value};

fn n(x: f64) -> Number {
    Number::from_bits(x.to_bits())
}

#[test]
fn color_travels_as_solid_brush() {
    let c = Color { red: 1, green: 2, blue: 3, alpha: 255 };
    let v = c.into_value();
    assert!(v == Value::Brush(Brush::SolidColor(c)));
    assert_eq!(Color::from_value(v).ok(), Some(c));
    match Color::from_value(Value::Brush(Brush::NoBrush)) {
        Ok(_) => panic!("no color in an empty brush"),
        Err(back) => assert!(back == Value::Brush(Brush::NoBrush)),
    }
    assert_eq!(Brush::from_value(Value::Brush(Brush::NoBrush)).ok(), Some(Brush::NoBrush));
}

#[test]
fn brushes_compare_by_color() {
    let a = Value::Brush(Brush::SolidColor(Color { red: 9, green: 0, blue: 0, alpha: 255 }));
    let b = Value::Brush(Brush::SolidColor(Color { red: 9, green: 0, blue: 0, alpha: 128 }));
    assert!(a != b);
    assert!(a == a.clone());
}

#[test]
fn images_compare_by_source() {
    let p = Value::Image(ImageReference::AbsolutePath("/a.png".to_string()));
    let q = Value::Image(ImageReference::AbsolutePath("/b.png".to_string()));
    let d1 = Value::Image(ImageReference::EmbeddedData(vec![1, 2, 3]));
    let d2 = Value::Image(ImageReference::EmbeddedData(vec![1, 2, 4]));
    assert!(p == p.clone());
    assert!(p != q);
    assert!(d1 == d1.clone());
    assert!(d1 != d2);
    assert!(Value::Image(ImageReference::NoImage) == Value::Image(ImageReference::NoImage));
    assert!(Value::Image(ImageReference::NoImage) != Value::Void);
    let back = ImageReference::from_value(d1.clone()).ok().unwrap();
    assert!(Value::Image(back) == d1);
}

#[test]
fn paths_compare_step_by_step() {
    let a = PathData { elements: vec![PathElement::MoveTo(n(0.0), n(0.0)), PathElement::LineTo(n(1.0), n(2.0)), PathElement::Close] };
    let b = PathData { elements: vec![PathElement::MoveTo(n(-0.0), n(0.0)), PathElement::LineTo(n(1.0), n(2.0)), PathElement::Close] };
    let c = PathData { elements: vec![PathElement::MoveTo(n(0.0), n(0.0)), PathElement::LineTo(n(1.0), n(3.0)), PathElement::Close] };
    assert!(Value::PathElements(a.duplicate()) == Value::PathElements(b));
    assert!(Value::PathElements(a.duplicate()) != Value::PathElements(c));
    let back = PathData::from_value(a.duplicate().into_value()).ok().unwrap();
    assert!(Value::PathElements(back) == Value::PathElements(a));
}

#[test]
fn easing_curves_compare_by_points() {
    let a = EasingCurve::CubicBezier(n(0.25), n(0.1), n(0.25), n(1.0));
    let b = EasingCurve::CubicBezier(n(0.42), n(0.0), n(1.0), n(1.0));
    assert!(Value::EasingCurve(a) == Value::EasingCurve(a));
    assert!(Value::EasingCurve(a) != Value::EasingCurve(b));
    assert!(Value::EasingCurve(EasingCurve::Linear) != Value::EasingCurve(a));
    assert!(EasingCurve::from_value(Value::EasingCurve(EasingCurve::Linear)).is_ok());
    assert!(EasingCurve::from_value(Value::Void).is_err());
}

#[test]
fn configuration_builders() {
    let c = CompilerConfiguration::new();
    assert!(c.include_paths().is_empty());
    assert_eq!(c.style(), None);
    let c = c.with_style("fluent".to_string()).with_include_paths(vec!["a".to_string(), "b/c".to_string()]);
    assert_eq!(c.style(), Some("fluent"));
    assert_eq!(c.include_paths(), &vec!["a".to_string(), "b/c".to_string()]);
}
