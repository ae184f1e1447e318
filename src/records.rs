use vstd::prelude::*;
use crate::convert::NativeValue;
use crate::enums::KeyEventType;
use crate::value::{Struct, Value, ValueModel};

verus! {

/// What field `name` of a record reads back as, if it is there and holds a
/// value of the right kind.
pub open spec fn field_decode<T: NativeValue>(m: Map<Seq<char>, ValueModel>, name: Seq<char>) -> Option<
    T::Model,
> {
    if m.contains_key(name) {
        T::decode(m[name])
    } else {
        None
    }
}

/// Field `name` of `s` read as a native value.
pub fn take_field<T: NativeValue>(s: &Struct, name: &str) -> (r: Option<T>)
    ensures
        match field_decode::<T>(s@, name@) {
            Some(x) => r is Some && r->Some_0.native_model() == x,
            None => r is None,
        },
{
    match s.get_property(name) {
        Some(v) => match T::from_value(v) {
            Ok(x) => Some(x),
            Err(_) => None,
        },
        None => None,
    }
}

/// A field that a record lacks reads as nothing, whatever native type it is
/// read as.
pub proof fn lemma_missing_field_reads_nothing<T: NativeValue>(m: Map<Seq<char>, ValueModel>, name: Seq<char>)
    requires
        !m.contains_key(name),
    ensures
        field_decode::<T>(m, name) is None,
{
}

/// A native record type: a fixed set of named fields, each a native value.
pub trait NativeRecord: NativeValue {
    /// The declared field names.
    spec fn field_names() -> Set<Seq<char>>;

    /// The record that native value `x` becomes, field by field.
    spec fn record_of(x: Self::Model) -> Map<Seq<char>, ValueModel>;

    /// The record holds exactly the declared fields, and reads back as `x`;
    /// a record that lacks any declared field does not read back at all.
    proof fn lemma_record_fields(x: Self::Model, name: Seq<char>, m: Map<Seq<char>, ValueModel>)
        requires
            Self::field_names().contains(name),
        ensures
            Self::encode(x) == ValueModel::Record(Self::record_of(x)),
            Self::record_of(x).dom() == Self::field_names(),
            Self::decode(ValueModel::Record(Self::record_of(x))) == Some(x),
            !m.contains_key(name) ==> Self::decode(ValueModel::Record(m)) is None,
    ;
}

/// A record built from every field of a native record reads back as that
/// native value; a record that lacks any required field, whatever else it
/// holds, fails to convert as a whole.
pub proof fn lemma_record_needs_every_field<R: NativeRecord>(
    x: R::Model,
    name: Seq<char>,
    m: Map<Seq<char>, ValueModel>,
)
    requires
        R::field_names().contains(name),
        !m.contains_key(name),
    ensures
        R::decode(R::encode(x)) == Some(x),
        R::decode(ValueModel::Record(m)) is None,
        R::decode(ValueModel::Record(R::record_of(x).remove(name))) is None,
{
    R::lemma_record_fields(x, name, m);
    R::lemma_record_fields(x, name, R::record_of(x).remove(name));
}

/// One row of a standard list view.
pub struct StandardListViewItem {
    pub text: String,
}

pub open spec fn list_item_fields(text: Seq<char>) -> Map<Seq<char>, ValueModel> {
    Map::empty().insert("text"@, <String as NativeValue>::encode(text))
}

impl NativeValue for StandardListViewItem {
    type Model = Seq<char>;

    open spec fn native_model(&self) -> Seq<char> {
        self.text@
    }

    open spec fn encode(x: Seq<char>) -> ValueModel {
        ValueModel::Record(list_item_fields(x))
    }

    open spec fn decode(m: ValueModel) -> Option<Seq<char>> {
        match m {
            ValueModel::Record(r) => field_decode::<String>(r, "text"@),
            _ => None,
        }
    }

    fn into_value(self) -> (r: Value) {
        let mut s = Struct::new();
        s.set_property("text".to_owned(), self.text.into_value());
        Value::Struct(s)
    }

    fn from_value(v: Value) -> (r: Result<StandardListViewItem, Value>) {
        let found: Option<String> = match &v {
            Value::Struct(s) => take_field::<String>(s, "text"),
            _ => None,
        };
        match found {
            Some(text) => Ok(StandardListViewItem { text }),
            None => Err(v),
        }
    }

    proof fn lemma_decode_encode(x: Seq<char>) {
    }
}

/// The modifier keys held down during a key event.
#[derive(Clone, Copy, Debug, PartialEq, Eq, Structural)]
pub struct KeyboardModifiers {
    pub control: bool,
    pub alt: bool,
    pub shift: bool,
    pub meta: bool,
}

pub open spec fn modifier_fields(x: KeyboardModifiers) -> Map<Seq<char>, ValueModel> {
    Map::empty().insert("control"@, ValueModel::Bool(x.control)).insert(
        "alt"@,
        ValueModel::Bool(x.alt),
    ).insert("shift"@, ValueModel::Bool(x.shift)).insert("meta"@, ValueModel::Bool(x.meta))
}

proof fn lemma_modifier_names_distinct()
    ensures
        "control"@ != "alt"@,
        "control"@ != "shift"@,
        "control"@ != "meta"@,
        "alt"@ != "shift"@,
        "alt"@ != "meta"@,
        "shift"@ != "meta"@,
{
    reveal_strlit("control");
    reveal_strlit("alt");
    reveal_strlit("shift");
    reveal_strlit("meta");
    assert("control"@.len() == 7);
    assert("alt"@.len() == 3);
    assert("shift"@.len() == 5);
    assert("meta"@.len() == 4);
}

impl NativeValue for KeyboardModifiers {
    type Model = KeyboardModifiers;

    open spec fn native_model(&self) -> KeyboardModifiers {
        *self
    }

    open spec fn encode(x: KeyboardModifiers) -> ValueModel {
        ValueModel::Record(modifier_fields(x))
    }

    open spec fn decode(m: ValueModel) -> Option<KeyboardModifiers> {
        match m {
            ValueModel::Record(r) => match (
                field_decode::<bool>(r, "control"@),
                field_decode::<bool>(r, "alt"@),
                field_decode::<bool>(r, "shift"@),
                field_decode::<bool>(r, "meta"@),
            ) {
                (Some(control), Some(alt), Some(shift), Some(meta)) => Some(
                    KeyboardModifiers { control, alt, shift, meta },
                ),
                _ => None,
            },
            _ => None,
        }
    }

    fn into_value(self) -> (r: Value) {
        let mut s = Struct::new();
        s.set_property("control".to_owned(), self.control.into_value());
        s.set_property("alt".to_owned(), self.alt.into_value());
        s.set_property("shift".to_owned(), self.shift.into_value());
        s.set_property("meta".to_owned(), self.meta.into_value());
        let r = Value::Struct(s);
        assert(s@ =~= modifier_fields(self));
        r
    }

    fn from_value(v: Value) -> (r: Result<KeyboardModifiers, Value>) {
        let found: Option<KeyboardModifiers> = match &v {
            Value::Struct(s) => {
                let control = take_field::<bool>(s, "control");
                let alt = take_field::<bool>(s, "alt");
                let shift = take_field::<bool>(s, "shift");
                let meta = take_field::<bool>(s, "meta");
                match (control, alt, shift, meta) {
                    (Some(control), Some(alt), Some(shift), Some(meta)) => Some(
                        KeyboardModifiers { control, alt, shift, meta },
                    ),
                    _ => None,
                }
            },
            _ => None,
        };
        match found {
            Some(x) => Ok(x),
            None => Err(v),
        }
    }

    proof fn lemma_decode_encode(x: KeyboardModifiers) {
        lemma_modifier_names_distinct();
    }
}

/// A key going down or up, with its text and the modifiers held.
pub struct KeyEvent {
    pub event_type: KeyEventType,
    pub text: String,
    pub modifiers: KeyboardModifiers,
}

pub open spec fn key_event_fields(x: (KeyEventType, Seq<char>, KeyboardModifiers)) -> Map<
    Seq<char>,
    ValueModel,
> {
    Map::empty().insert("event_type"@, <KeyEventType as NativeValue>::encode(x.0)).insert(
        "text"@,
        <String as NativeValue>::encode(x.1),
    ).insert("modifiers"@, <KeyboardModifiers as NativeValue>::encode(x.2))
}

proof fn lemma_key_event_names_distinct()
    ensures
        "event_type"@ != "text"@,
        "event_type"@ != "modifiers"@,
        "text"@ != "modifiers"@,
{
    reveal_strlit("event_type");
    reveal_strlit("text");
    reveal_strlit("modifiers");
    assert("event_type"@.len() == 10);
    assert("text"@.len() == 4);
    assert("modifiers"@.len() == 9);
}

impl NativeValue for KeyEvent {
    type Model = (KeyEventType, Seq<char>, KeyboardModifiers);

    open spec fn native_model(&self) -> (KeyEventType, Seq<char>, KeyboardModifiers) {
        (self.event_type, self.text@, self.modifiers)
    }

    open spec fn encode(x: (KeyEventType, Seq<char>, KeyboardModifiers)) -> ValueModel {
        ValueModel::Record(key_event_fields(x))
    }

    open spec fn decode(m: ValueModel) -> Option<(KeyEventType, Seq<char>, KeyboardModifiers)> {
        match m {
            ValueModel::Record(r) => match (
                field_decode::<KeyEventType>(r, "event_type"@),
                field_decode::<String>(r, "text"@),
                field_decode::<KeyboardModifiers>(r, "modifiers"@),
            ) {
                (Some(e), Some(t), Some(k)) => Some((e, t, k)),
                _ => None,
            },
            _ => None,
        }
    }

    fn into_value(self) -> (r: Value) {
        let ghost x = self.native_model();
        let mut s = Struct::new();
        s.set_property("event_type".to_owned(), self.event_type.into_value());
        s.set_property("text".to_owned(), self.text.into_value());
        s.set_property("modifiers".to_owned(), self.modifiers.into_value());
        let r = Value::Struct(s);
        assert(s@ =~= key_event_fields(x));
        r
    }

    fn from_value(v: Value) -> (r: Result<KeyEvent, Value>) {
        let found: Option<KeyEvent> = match &v {
            Value::Struct(s) => {
                let event_type = take_field::<KeyEventType>(s, "event_type");
                let text = take_field::<String>(s, "text");
                let modifiers = take_field::<KeyboardModifiers>(s, "modifiers");
                match (event_type, text, modifiers) {
                    (Some(event_type), Some(text), Some(modifiers)) => Some(
                        KeyEvent { event_type, text, modifiers },
                    ),
                    _ => None,
                }
            },
            _ => None,
        };
        match found {
            Some(x) => Ok(x),
            None => Err(v),
        }
    }

    proof fn lemma_decode_encode(x: (KeyEventType, Seq<char>, KeyboardModifiers)) {
        lemma_key_event_names_distinct();
        <KeyEventType as NativeValue>::lemma_decode_encode(x.0);
        <KeyboardModifiers as NativeValue>::lemma_decode_encode(x.2);
    }
}

impl NativeRecord for StandardListViewItem {
    open spec fn field_names() -> Set<Seq<char>> {
        set!["text"@]
    }

    open spec fn record_of(x: Seq<char>) -> Map<Seq<char>, ValueModel> {
        list_item_fields(x)
    }

    proof fn lemma_record_fields(x: Seq<char>, name: Seq<char>, m: Map<Seq<char>, ValueModel>) {
        assert(list_item_fields(x).dom() =~= set!["text"@]);
    }
}

impl NativeRecord for KeyboardModifiers {
    open spec fn field_names() -> Set<Seq<char>> {
        set!["control"@, "alt"@, "shift"@, "meta"@]
    }

    open spec fn record_of(x: KeyboardModifiers) -> Map<Seq<char>, ValueModel> {
        modifier_fields(x)
    }

    proof fn lemma_record_fields(x: KeyboardModifiers, name: Seq<char>, m: Map<Seq<char>, ValueModel>) {
        <KeyboardModifiers as NativeValue>::lemma_decode_encode(x);
        assert(modifier_fields(x).dom() =~= set!["control"@, "alt"@, "shift"@, "meta"@]);
    }
}

impl NativeRecord for KeyEvent {
    open spec fn field_names() -> Set<Seq<char>> {
        set!["event_type"@, "text"@, "modifiers"@]
    }

    open spec fn record_of(x: (KeyEventType, Seq<char>, KeyboardModifiers)) -> Map<Seq<char>, ValueModel> {
        key_event_fields(x)
    }

    proof fn lemma_record_fields(
        x: (KeyEventType, Seq<char>, KeyboardModifiers),
        name: Seq<char>,
        m: Map<Seq<char>, ValueModel>,
    ) {
        <KeyEvent as NativeValue>::lemma_decode_encode(x);
        assert(key_event_fields(x).dom() =~= set!["event_type"@, "text"@, "modifiers"@]);
    }
}

} // verus!
