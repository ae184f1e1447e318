use vstd::prelude::*;
use crate::graphics::{Brush, Color, EasingCurve, ImageModel, ImageReference, PathData, PathElement};
use crate::number::Number;
use crate::value::{Struct, Value, ValueModel};

verus! {

/// A native type that crosses into and out of [`Value`].
///
/// `encode` says which value a native value becomes; `decode` says which
/// values read back as a native value, and as which one.
pub trait NativeValue: Sized {
    /// What the native value stands for.
    type Model;

    spec fn native_model(&self) -> Self::Model;

    spec fn encode(x: Self::Model) -> ValueModel;

    spec fn decode(m: ValueModel) -> Option<Self::Model>;

    fn into_value(self) -> (r: Value)
        ensures
            r.model() == Self::encode(self.native_model()),
    ;

    /// The native value that `v` holds, or `v` itself back.
    fn from_value(v: Value) -> (r: Result<Self, Value>)
        ensures
            match Self::decode(v.model()) {
                Some(x) => r is Ok && r->Ok_0.native_model() == x,
                None => r == Err::<Self, Value>(v),
            },
    ;

    proof fn lemma_decode_encode(x: Self::Model)
        ensures
            Self::decode(Self::encode(x)) == Some(x),
    ;
}

/// Converting a native value to a [`Value`] and back yields the same native
/// value.
pub proof fn lemma_round_trip<T: NativeValue>(x: T)
    ensures
        T::decode(T::encode(x.native_model())) == Some(x.native_model()),
{
    T::lemma_decode_encode(x.native_model());
}

impl NativeValue for bool {
    type Model = bool;

    open spec fn native_model(&self) -> bool {
        *self
    }

    open spec fn encode(x: bool) -> ValueModel {
        ValueModel::Bool(x)
    }

    open spec fn decode(m: ValueModel) -> Option<bool> {
        match m {
            ValueModel::Bool(b) => Some(b),
            _ => None,
        }
    }

    fn into_value(self) -> (r: Value) {
        Value::Bool(self)
    }

    fn from_value(v: Value) -> (r: Result<bool, Value>) {
        match v {
            Value::Bool(b) => Ok(b),
            _ => Err(v),
        }
    }

    proof fn lemma_decode_encode(x: bool) {
    }
}

impl NativeValue for Number {
    type Model = u64;

    open spec fn native_model(&self) -> u64 {
        self.bits
    }

    open spec fn encode(x: u64) -> ValueModel {
        ValueModel::Number(x)
    }

    open spec fn decode(m: ValueModel) -> Option<u64> {
        match m {
            ValueModel::Number(b) => Some(b),
            _ => None,
        }
    }

    fn into_value(self) -> (r: Value) {
        Value::Number(self)
    }

    fn from_value(v: Value) -> (r: Result<Number, Value>) {
        match v {
            Value::Number(n) => Ok(n),
            _ => Err(v),
        }
    }

    proof fn lemma_decode_encode(x: u64) {
    }
}

impl NativeValue for String {
    type Model = Seq<char>;

    open spec fn native_model(&self) -> Seq<char> {
        self@
    }

    open spec fn encode(x: Seq<char>) -> ValueModel {
        ValueModel::Str(x)
    }

    open spec fn decode(m: ValueModel) -> Option<Seq<char>> {
        match m {
            ValueModel::Str(s) => Some(s),
            _ => None,
        }
    }

    fn into_value(self) -> (r: Value) {
        Value::String(self)
    }

    fn from_value(v: Value) -> (r: Result<String, Value>) {
        match v {
            Value::String(s) => Ok(s),
            _ => Err(v),
        }
    }

    proof fn lemma_decode_encode(x: Seq<char>) {
    }
}

impl NativeValue for Struct {
    type Model = Map<Seq<char>, ValueModel>;

    open spec fn native_model(&self) -> Map<Seq<char>, ValueModel> {
        self@
    }

    open spec fn encode(x: Map<Seq<char>, ValueModel>) -> ValueModel {
        ValueModel::Record(x)
    }

    open spec fn decode(m: ValueModel) -> Option<Map<Seq<char>, ValueModel>> {
        match m {
            ValueModel::Record(r) => Some(r),
            _ => None,
        }
    }

    fn into_value(self) -> (r: Value) {
        Value::Struct(self)
    }

    fn from_value(v: Value) -> (r: Result<Struct, Value>) {
        match v {
            Value::Struct(s) => Ok(s),
            _ => Err(v),
        }
    }

    proof fn lemma_decode_encode(x: Map<Seq<char>, ValueModel>) {
    }
}

impl NativeValue for Vec<Value> {
    type Model = Seq<ValueModel>;

    open spec fn native_model(&self) -> Seq<ValueModel> {
        Seq::new(self.len() as nat, |i: int| self[i].model())
    }

    open spec fn encode(x: Seq<ValueModel>) -> ValueModel {
        ValueModel::Array(x)
    }

    open spec fn decode(m: ValueModel) -> Option<Seq<ValueModel>> {
        match m {
            ValueModel::Array(s) => Some(s),
            _ => None,
        }
    }

    fn into_value(self) -> (r: Value) {
        let r = Value::Array(self);
        assert(r.model()->Array_0 =~= self.native_model());
        r
    }

    fn from_value(v: Value) -> (r: Result<Vec<Value>, Value>) {
        match v {
            Value::Array(a) => {
                assert(v.model()->Array_0 =~= a.native_model());
                Ok(a)
            },
            _ => Err(v),
        }
    }

    proof fn lemma_decode_encode(x: Seq<ValueModel>) {
    }
}

impl NativeValue for () {
    type Model = ();

    open spec fn native_model(&self) -> () {
        ()
    }

    open spec fn encode(x: ()) -> ValueModel {
        ValueModel::Void
    }

    /// Any value reads as the unit value.
    open spec fn decode(m: ValueModel) -> Option<()> {
        Some(())
    }

    fn into_value(self) -> (r: Value) {
        Value::Void
    }

    fn from_value(v: Value) -> (r: Result<(), Value>) {
        Ok(())
    }

    proof fn lemma_decode_encode(x: ()) {
    }
}

impl NativeValue for ImageReference {
    type Model = ImageModel;

    open spec fn native_model(&self) -> ImageModel {
        self.model()
    }

    open spec fn encode(x: ImageModel) -> ValueModel {
        ValueModel::Image(x)
    }

    open spec fn decode(m: ValueModel) -> Option<ImageModel> {
        match m {
            ValueModel::Image(x) => Some(x),
            _ => None,
        }
    }

    fn into_value(self) -> (r: Value) {
        Value::Image(self)
    }

    fn from_value(v: Value) -> (r: Result<ImageReference, Value>) {
        match v {
            Value::Image(x) => Ok(x),
            _ => Err(v),
        }
    }

    proof fn lemma_decode_encode(x: ImageModel) {
    }
}

impl NativeValue for Brush {
    type Model = Brush;

    open spec fn native_model(&self) -> Brush {
        *self
    }

    open spec fn encode(x: Brush) -> ValueModel {
        ValueModel::Brush(x)
    }

    open spec fn decode(m: ValueModel) -> Option<Brush> {
        match m {
            ValueModel::Brush(x) => Some(x),
            _ => None,
        }
    }

    fn into_value(self) -> (r: Value) {
        Value::Brush(self)
    }

    fn from_value(v: Value) -> (r: Result<Brush, Value>) {
        match v {
            Value::Brush(x) => Ok(x),
            _ => Err(v),
        }
    }

    proof fn lemma_decode_encode(x: Brush) {
    }
}

impl NativeValue for PathData {
    type Model = Seq<PathElement>;

    open spec fn native_model(&self) -> Seq<PathElement> {
        self.elements@
    }

    open spec fn encode(x: Seq<PathElement>) -> ValueModel {
        ValueModel::Path(x)
    }

    open spec fn decode(m: ValueModel) -> Option<Seq<PathElement>> {
        match m {
            ValueModel::Path(x) => Some(x),
            _ => None,
        }
    }

    fn into_value(self) -> (r: Value) {
        Value::PathElements(self)
    }

    fn from_value(v: Value) -> (r: Result<PathData, Value>) {
        match v {
            Value::PathElements(x) => Ok(x),
            _ => Err(v),
        }
    }

    proof fn lemma_decode_encode(x: Seq<PathElement>) {
    }
}

impl NativeValue for EasingCurve {
    type Model = EasingCurve;

    open spec fn native_model(&self) -> EasingCurve {
        *self
    }

    open spec fn encode(x: EasingCurve) -> ValueModel {
        ValueModel::Easing(x)
    }

    open spec fn decode(m: ValueModel) -> Option<EasingCurve> {
        match m {
            ValueModel::Easing(x) => Some(x),
            _ => None,
        }
    }

    fn into_value(self) -> (r: Value) {
        Value::EasingCurve(self)
    }

    fn from_value(v: Value) -> (r: Result<EasingCurve, Value>) {
        match v {
            Value::EasingCurve(x) => Ok(x),
            _ => Err(v),
        }
    }

    proof fn lemma_decode_encode(x: EasingCurve) {
    }
}

/// A color travels as a brush that paints it everywhere.
impl NativeValue for Color {
    type Model = Color;

    open spec fn native_model(&self) -> Color {
        *self
    }

    open spec fn encode(x: Color) -> ValueModel {
        ValueModel::Brush(Brush::SolidColor(x))
    }

    open spec fn decode(m: ValueModel) -> Option<Color> {
        match m {
            ValueModel::Brush(Brush::SolidColor(c)) => Some(c),
            _ => None,
        }
    }

    fn into_value(self) -> (r: Value) {
        Value::Brush(Brush::SolidColor(self))
    }

    fn from_value(v: Value) -> (r: Result<Color, Value>) {
        match v {
            Value::Brush(Brush::SolidColor(c)) => Ok(c),
            _ => Err(v),
        }
    }

    proof fn lemma_decode_encode(x: Color) {
    }
}

} // verus!
