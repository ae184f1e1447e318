use sixtyfps_interpreter::enums::{
    enum_from_value, EventResult, FillRule, ImageFit, KeyEventType, LayoutAlignment,
    TextHorizontalAlignment, TextOverflow, TextVerticalAlignment, TextWrap,
};
use sixtyfps_interpreter::records::{KeyEvent, KeyboardModifiers, StandardListViewItem};
use sixtyfps_interpreter::{NativeValue, Struct, Value};

fn text(s: &str) -> Value {
    Value::String(s.to_string())
}

#[test]
fn enum_value_carries_type_name() {
    let v = TextHorizontalAlignment::Center.into_value();
    assert!(v == Value::EnumerationValue("TextHorizontalAlignment".to_string(), "center".to_string()));
    let v = KeyEventType::KeyReleased.into_value();
    assert!(v == Value::EnumerationValue("KeyEventType".to_string(), "KeyReleased".to_string()));
    let v = TextWrap::NoWrap.into_value();
    assert!(v == Value::EnumerationValue("TextWrap".to_string(), "no_wrap".to_string()));
}

#[test]
fn enum_round_trips() {
    for m in [TextHorizontalAlignment::Left, TextHorizontalAlignment::Center, TextHorizontalAlignment::Right] {
        assert_eq!(TextHorizontalAlignment::from_value(m.into_value()).ok(), Some(m));
    }
    for m in [LayoutAlignment::Stretch, LayoutAlignment::Center, LayoutAlignment::Start, LayoutAlignment::End, LayoutAlignment::SpaceBetween, LayoutAlignment::SpaceAround] {
        assert_eq!(LayoutAlignment::from_value(m.into_value()).ok(), Some(m));
    }
    assert_eq!(TextVerticalAlignment::from_value(TextVerticalAlignment::Bottom.into_value()).ok(), Some(TextVerticalAlignment::Bottom));
    assert_eq!(TextOverflow::from_value(TextOverflow::Elide.into_value()).ok(), Some(TextOverflow::Elide));
    assert_eq!(ImageFit::from_value(ImageFit::Cover.into_value()).ok(), Some(ImageFit::Cover));
    assert_eq!(EventResult::from_value(EventResult::Accept.into_value()).ok(), Some(EventResult::Accept));
    assert_eq!(FillRule::from_value(FillRule::Evenodd.into_value()).ok(), Some(FillRule::Evenodd));
}

#[test]
fn enum_with_other_type_name_fails() {
    let v = Value::EnumerationValue("TextVerticalAlignment".to_string(), "center".to_string());
    match TextHorizontalAlignment::from_value(v) {
        Ok(_) => panic!("the enumeration name does not match"),
        Err(back) => assert!(back == Value::EnumerationValue("TextVerticalAlignment".to_string(), "center".to_string())),
    }
    assert_eq!(TextVerticalAlignment::from_value(Value::EnumerationValue("TextVerticalAlignment".to_string(), "center".to_string())).ok(), Some(TextVerticalAlignment::Center));
}

#[test]
fn enum_with_unknown_member_fails() {
    let v = Value::EnumerationValue("ImageFit".to_string(), "stretch".to_string());
    assert!(enum_from_value::<ImageFit>(v).is_err());
    assert!(ImageFit::from_value(text("fill")).is_err());
}

#[test]
fn list_item_from_one_field_record() {
    let mut s = Struct::new();
    s.set_property("text".to_string(), text("hello"));
    let item = StandardListViewItem::from_value(Value::Struct(s)).ok().unwrap();
    assert_eq!(item.text, "hello");
}

#[test]
fn record_missing_field_fails() {
    let mut s = Struct::new();
    s.set_property("text".to_string(), text("hello"));
    assert!(KeyEvent::from_value(Value::Struct(s)).is_err());
}

#[test]
fn list_item_round_trip() {
    let v = StandardListViewItem { text: "row".to_string() }.into_value();
    assert!(v == Value::Struct(Struct::from_pairs(vec![("text".to_string(), text("row"))])));
    assert_eq!(StandardListViewItem::from_value(v).ok().unwrap().text, "row");
}

#[test]
fn key_event_round_trip() {
    let mods = KeyboardModifiers { control: true, alt: false, shift: true, meta: false };
    let ev = KeyEvent { event_type: KeyEventType::KeyPressed, text: "a".to_string(), modifiers: mods };
    let v = ev.into_value();
    let back = KeyEvent::from_value(v).ok().unwrap();
    assert_eq!(back.event_type, KeyEventType::KeyPressed);
    assert_eq!(back.text, "a");
    assert_eq!(back.modifiers, mods);
}

#[test]
fn modifiers_missing_one_field_fail() {
    let mods = KeyboardModifiers { control: true, alt: true, shift: false, meta: true };
    assert_eq!(KeyboardModifiers::from_value(mods.into_value()).ok(), Some(mods));
    for missing in ["control", "alt", "shift", "meta"] {
        let mut s = Struct::new();
        for name in ["control", "alt", "shift", "meta"] {
            if name != missing {
                s.set_property(name.to_string(), Value::Bool(true));
            }
        }
        assert!(KeyboardModifiers::from_value(Value::Struct(s)).is_err());
    }
}

#[test]
fn record_field_of_wrong_kind_fails() {
    let mut s = Struct::new();
    s.set_property("text".to_string(), Value::Bool(true));
    assert!(StandardListViewItem::from_value(Value::Struct(s)).is_err());
    assert!(StandardListViewItem::from_value(text("hello")).is_err());
}
