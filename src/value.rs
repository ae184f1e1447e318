use vstd::prelude::*;
use crate::graphics::{
    Brush, EasingCurve, ImageModel, ImageReference, PathData, PathElement, easing_eq, path_eq,
};
use crate::number::{Number, number_eq};

verus! {

broadcast use vstd::std_specs::vec::group_vec_axioms;

/// Mathematical form of a [`Value`]: text becomes a character sequence, an
/// array a sequence of models, and a record a map from field name to model.
pub enum ValueModel {
    Void,
    Number(u64),
    Str(Seq<char>),
    Bool(bool),
    Image(ImageModel),
    Array(Seq<ValueModel>),
    Model(u64),
    Record(Map<Seq<char>, ValueModel>),
    Brush(Brush),
    Path(Seq<PathElement>),
    Easing(EasingCurve),
    Enumeration(Seq<char>, Seq<char>),
}

/// A dynamically typed value of the interpreted language.
#[derive(Debug)]
pub enum Value {
    /// No value; the default.
    Void,
    /// Any numeric quantity, integers and unit-carrying types included.
    Number(Number),
    /// Text.
    String(String),
    /// A boolean.
    Bool(bool),
    /// An image.
    Image(ImageReference),
    /// An ordered sequence of values.
    Array(Vec<Value>),
    /// A list model provided by the host, known here by the identity of its
    /// shared allocation only.
    Model(u64),
    /// A record of named fields.
    Struct(Struct),
    /// A brush or a color.
    Brush(Brush),
    /// The geometry of a path.
    PathElements(PathData),
    /// An easing curve.
    EasingCurve(EasingCurve),
    /// A member of an enumeration: the enumeration's name, then the member's.
    EnumerationValue(String, String),
}

/// A record: named fields of dynamic values, in no significant order.
#[derive(Debug)]
pub struct Struct {
    entries: Vec<(String, Value)>,
}

/// `i` is the first position of key `k` in `s`.
pub open spec fn is_first(s: Seq<(Seq<char>, ValueModel)>, k: Seq<char>, i: int) -> bool {
    &&& 0 <= i < s.len()
    &&& s[i].0 == k
    &&& forall|j: int| 0 <= j < i ==> s[j].0 != k
}

/// The map that an association list denotes: the first entry of a key wins.
pub open spec fn assoc_to_map(s: Seq<(Seq<char>, ValueModel)>) -> Map<Seq<char>, ValueModel> {
    Map::new(
        |k: Seq<char>| exists|i: int| 0 <= i < s.len() && s[i].0 == k,
        |k: Seq<char>| s[choose|i: int| is_first(s, k, i)].1,
    )
}

proof fn lemma_first_unique(s: Seq<(Seq<char>, ValueModel)>, k: Seq<char>, i: int, j: int)
    requires
        is_first(s, k, i),
        is_first(s, k, j),
    ensures
        i == j,
{
}

proof fn lemma_lookup_first(s: Seq<(Seq<char>, ValueModel)>, k: Seq<char>, i: int)
    requires
        is_first(s, k, i),
    ensures
        assoc_to_map(s).contains_key(k),
        assoc_to_map(s)[k] == s[i].1,
{
    let j = choose|j: int| is_first(s, k, j);
    lemma_first_unique(s, k, i, j);
}

proof fn lemma_first_exists(s: Seq<(Seq<char>, ValueModel)>, k: Seq<char>, i: int)
    requires
        0 <= i < s.len(),
        s[i].0 == k,
    ensures
        exists|f: int| is_first(s, k, f),
    decreases i,
{
    if exists|j: int| 0 <= j < i && s[j].0 == k {
        let j = choose|j: int| 0 <= j < i && s[j].0 == k;
        lemma_first_exists(s, k, j);
    } else {
        assert(is_first(s, k, i));
    }
}

proof fn lemma_lookup_absent(s: Seq<(Seq<char>, ValueModel)>, k: Seq<char>)
    requires
        forall|j: int| 0 <= j < s.len() ==> s[j].0 != k,
    ensures
        !assoc_to_map(s).contains_key(k),
{
}

/// Models of (name, value) pairs.
pub open spec fn pair_models(pairs: Seq<(String, Value)>) -> Seq<(Seq<char>, ValueModel)> {
    Seq::new(pairs.len(), |i: int| (pairs[i].0@, pairs[i].1.model()))
}

/// The map that inserting the pairs one after another yields.
pub open spec fn pairs_to_map(s: Seq<(Seq<char>, ValueModel)>) -> Map<Seq<char>, ValueModel>
    decreases s.len(),
{
    if s.len() == 0 {
        Map::empty()
    } else {
        pairs_to_map(s.drop_last()).insert(s.last().0, s.last().1)
    }
}

/// Structural equality of models, with IEEE-754 equality on numbers and
/// identity on host models. Values of different kinds are never equal.
pub open spec fn model_eq(a: ValueModel, b: ValueModel) -> bool
    decreases a,
{
    match (a, b) {
        (ValueModel::Void, ValueModel::Void) => true,
        (ValueModel::Number(x), ValueModel::Number(y)) => number_eq(x, y),
        (ValueModel::Str(x), ValueModel::Str(y)) => x == y,
        (ValueModel::Bool(x), ValueModel::Bool(y)) => x == y,
        (ValueModel::Image(x), ValueModel::Image(y)) => x == y,
        (ValueModel::Array(x), ValueModel::Array(y)) => x.len() == y.len() && forall|i: int|
            0 <= i < x.len() ==> model_eq(x[i], y[i]),
        (ValueModel::Model(x), ValueModel::Model(y)) => x == y,
        (ValueModel::Record(x), ValueModel::Record(y)) => x.dom() == y.dom() && forall|k: Seq<char>|
            x.contains_key(k) ==> model_eq(x[k], y[k]),
        (ValueModel::Brush(x), ValueModel::Brush(y)) => x == y,
        (ValueModel::Path(x), ValueModel::Path(y)) => path_eq(x, y),
        (ValueModel::Easing(x), ValueModel::Easing(y)) => easing_eq(x, y),
        (ValueModel::Enumeration(t1, m1), ValueModel::Enumeration(t2, m2)) => t1 == t2 && m1 == m2,
        _ => false,
    }
}

/// Which kind of value a model is.
pub open spec fn kind_of(a: ValueModel) -> int {
    match a {
        ValueModel::Void => 0,
        ValueModel::Number(_) => 1,
        ValueModel::Str(_) => 2,
        ValueModel::Bool(_) => 3,
        ValueModel::Image(_) => 4,
        ValueModel::Array(_) => 5,
        ValueModel::Model(_) => 6,
        ValueModel::Record(_) => 7,
        ValueModel::Brush(_) => 8,
        ValueModel::Path(_) => 9,
        ValueModel::Easing(_) => 10,
        ValueModel::Enumeration(_, _) => 11,
    }
}

/// Values of different kinds never compare equal, however alike they look.
pub proof fn lemma_different_kinds_unequal(a: Value, b: Value)
    requires
        kind_of(a.model()) != kind_of(b.model()),
    ensures
        !model_eq(a.model(), b.model()),
{
}

fn same_text(a: &String, b: &str) -> (r: bool)
    ensures
        r == (a@ == b@),
{
    let owned = b.to_owned();
    *a == owned
}

impl Value {
    pub open spec fn model(self) -> ValueModel
        decreases self,
    {
        match self {
            Value::Void => ValueModel::Void,
            Value::Number(n) => ValueModel::Number(n.bits),
            Value::String(s) => ValueModel::Str(s@),
            Value::Bool(b) => ValueModel::Bool(b),
            Value::Image(i) => ValueModel::Image(i.model()),
            Value::Array(v) => ValueModel::Array(
                Seq::new(
                    v.len() as nat,
                    |i: int|
                        if 0 <= i < v.len() {
                            v[i].model()
                        } else {
                            ValueModel::Void
                        },
                ),
            ),
            Value::Model(id) => ValueModel::Model(id),
            Value::Struct(s) => ValueModel::Record(assoc_to_map(s.entry_models())),
            Value::Brush(b) => ValueModel::Brush(b),
            Value::PathElements(p) => ValueModel::Path(p.elements@),
            Value::EasingCurve(c) => ValueModel::Easing(c),
            Value::EnumerationValue(t, m) => ValueModel::Enumeration(t@, m@),
        }
    }

    /// Compares two values: same kind and equal contents, numbers by IEEE-754
    /// equality, host models by identity.
    pub fn equals(&self, other: &Value) -> (r: bool)
        ensures
            r == model_eq(self.model(), other.model()),
        decreases self,
    {
        match (self, other) {
            (Value::Void, Value::Void) => true,
            (Value::Number(x), Value::Number(y)) => x.num_eq(y),
            (Value::String(x), Value::String(y)) => *x == *y,
            (Value::Bool(x), Value::Bool(y)) => *x == *y,
            (Value::Image(x), Value::Image(y)) => x.equals(y),
            (Value::Brush(x), Value::Brush(y)) => *x == *y,
            (Value::PathElements(x), Value::PathElements(y)) => x.equals(y),
            (Value::EasingCurve(x), Value::EasingCurve(y)) => x.equals(y),
            (Value::Array(x), Value::Array(y)) => {
                if x.len() != y.len() {
                    return false;
                }
                let ghost xs = self.model()->Array_0;
                let ghost ys = other.model()->Array_0;
                assert(xs.len() == x.len() && forall|j: int| 0 <= j < x.len() ==> xs[j] == x[j].model());
                assert(ys.len() == y.len() && forall|j: int| 0 <= j < y.len() ==> ys[j] == y[j].model());
                let mut i: usize = 0;
                assert(decreases_to!(*self => *x));
                assert(self.model() == ValueModel::Array(xs));
                assert(other.model() == ValueModel::Array(ys));
                while i < x.len()
                    invariant
                        self.model() == ValueModel::Array(xs),
                        other.model() == ValueModel::Array(ys),
                        decreases_to!(*self => *x),
                        i <= x.len(),
                        x.len() == y.len(),
                        xs.len() == x.len() && forall|j: int| 0 <= j < x.len() ==> xs[j] == x[j].model(),
                        ys.len() == y.len() && forall|j: int| 0 <= j < y.len() ==> ys[j] == y[j].model(),
                        forall|j: int| 0 <= j < i ==> model_eq(x[j].model(), #[trigger] y[j].model()),
                    decreases x.len() - i,
                {
                    assert(decreases_to!(*x => x[i as int]));
                    if !x[i].equals(&y[i]) {
                        assert(!model_eq(xs[i as int], ys[i as int]));
                        return false;
                    }
                    i = i + 1;
                }
                assert(forall|j: int| 0 <= j < xs.len() ==> model_eq(xs[j], #[trigger] ys[j]));
                true
            },
            (Value::Model(x), Value::Model(y)) => *x == *y,
            (Value::Struct(x), Value::Struct(y)) => {
                assert(decreases_to!(*self => *x));
                x.equals(y)
            },
            (Value::EnumerationValue(t1, m1), Value::EnumerationValue(t2, m2)) => *t1 == *t2 && *m1
                == *m2,
            _ => false,
        }
    }

    /// A copy of this value, field by field.
    pub fn duplicate(&self) -> (r: Value)
        ensures
            r.model() == self.model(),
        decreases self,
    {
        match self {
            Value::Void => Value::Void,
            Value::Number(n) => Value::Number(*n),
            Value::String(s) => Value::String(s.clone()),
            Value::Bool(b) => Value::Bool(*b),
            Value::Image(i) => Value::Image(i.duplicate()),
            Value::Brush(b) => Value::Brush(*b),
            Value::PathElements(p) => Value::PathElements(p.duplicate()),
            Value::EasingCurve(c) => Value::EasingCurve(*c),
            Value::Array(v) => {
                let mut out: Vec<Value> = Vec::new();
                let mut i: usize = 0;
                assert(decreases_to!(*self => *v));
                while i < v.len()
                    invariant
                        decreases_to!(*self => *v),
                        i <= v.len(),
                        out.len() == i,
                        forall|j: int| 0 <= j < i ==> (#[trigger] out[j]).model() == v[j].model(),
                    decreases v.len() - i,
                {
                    assert(decreases_to!(*v => v[i as int]));
                    out.push(v[i].duplicate());
                    i = i + 1;
                }
                let r = Value::Array(out);
                assert(r.model() =~= self.model()) by {
                    if let ValueModel::Array(x) = r.model() {
                        if let ValueModel::Array(y) = self.model() {
                            assert(x =~= y);
                        }
                    }
                }
                r
            },
            Value::Model(id) => Value::Model(*id),
            Value::Struct(s) => {
                assert(decreases_to!(*self => *s));
                Value::Struct(s.duplicate())
            },
            Value::EnumerationValue(t, m) => Value::EnumerationValue(t.clone(), m.clone()),
        }
    }
}

impl PartialEq for Value {
    fn eq(&self, other: &Value) -> (r: bool) {
        self.equals(other)
    }
}

impl vstd::std_specs::cmp::PartialEqSpecImpl for Value {
    open spec fn obeys_eq_spec() -> bool {
        true
    }

    open spec fn eq_spec(&self, other: &Value) -> bool {
        model_eq(self.model(), other.model())
    }
}

impl PartialEq for Struct {
    fn eq(&self, other: &Struct) -> (r: bool) {
        self.equals(other)
    }
}

impl vstd::std_specs::cmp::PartialEqSpecImpl for Struct {
    open spec fn obeys_eq_spec() -> bool {
        true
    }

    open spec fn eq_spec(&self, other: &Struct) -> bool {
        self@.dom() == other@.dom() && forall|k: Seq<char>| self@.contains_key(k) ==> model_eq(self@[k], other@[k])
    }
}

impl Default for Value {
    fn default() -> (r: Value)
        ensures
            r == Value::Void,
    {
        Value::Void
    }
}

impl Clone for Value {
    fn clone(&self) -> (r: Value)
        ensures
            r.model() == self.model(),
    {
        self.duplicate()
    }
}

impl Default for Struct {
    fn default() -> (r: Struct)
        ensures
            r@ == Map::<Seq<char>, ValueModel>::empty(),
    {
        Struct::new()
    }
}

impl Clone for Struct {
    fn clone(&self) -> (r: Struct)
        ensures
            r@ == self@,
    {
        self.duplicate()
    }
}

impl View for Struct {
    type V = Map<Seq<char>, ValueModel>;

    open spec fn view(&self) -> Map<Seq<char>, ValueModel> {
        assoc_to_map(self.entry_models())
    }
}

impl Struct {
    /// The fields in storage order, as (name, value model) pairs.
    pub closed spec fn entry_models(self) -> Seq<(Seq<char>, ValueModel)>
        decreases self,
    {
        Seq::new(
            self.entries.len() as nat,
            |i: int|
                if 0 <= i < self.entries.len() {
                    (self.entries[i].0@, self.entries[i].1.model())
                } else {
                    (Seq::empty(), ValueModel::Void)
                },
        )
    }

    /// A record with no field.
    pub fn new() -> (r: Struct)
        ensures
            r@ == Map::<Seq<char>, ValueModel>::empty(),
    {
        let r = Struct { entries: Vec::new() };
        assert(r@ =~= Map::<Seq<char>, ValueModel>::empty());
        r
    }

    /// A copy of this record, field by field.
    pub fn duplicate(&self) -> (r: Struct)
        ensures
            r@ == self@,
        decreases self,
    {
        let mut out: Vec<(String, Value)> = Vec::new();
        let mut i: usize = 0;
        while i < self.entries.len()
            invariant
                i <= self.entries.len(),
                out.len() == i,
                forall|j: int|
                    0 <= j < i ==> (#[trigger] out[j]).0@ == self.entries[j].0@ && out[j].1.model()
                        == self.entries[j].1.model(),
            decreases self.entries.len() - i,
        {
            assert(decreases_to!(*self => self.entries[i as int].1));
            let v = self.entries[i].1.duplicate();
            out.push((self.entries[i].0.clone(), v));
            i = i + 1;
        }
        let r = Struct { entries: out };
        assert(r.entry_models() =~= self.entry_models());
        r
    }

    /// Every field as a (name, value) pair, each name once.
    pub fn iter(&self) -> (r: Vec<(String, Value)>)
        ensures
            forall|i: int, j: int| 0 <= i < j < r.len() ==> r[i].0@ != r[j].0@,
            forall|i: int| 0 <= i < r.len() ==> self@.contains_key(#[trigger] r[i].0@) && r[i].1.model()
                == self@[r[i].0@],
            forall|k: Seq<char>| self@.contains_key(k) ==> exists|i: int| 0 <= i < r.len() && r[i].0@ == k,
            r.len() == self@.dom().len(),
    {
        let ghost sm = self.entry_models();
        let ghost mut src: Seq<int> = Seq::empty();
        let mut out: Vec<(String, Value)> = Vec::new();
        let mut i: usize = 0;
        while i < self.entries.len()
            invariant
                i <= self.entries.len(),
                sm == self.entry_models(),
                forall|a: int, b: int| 0 <= a < b < out.len() ==> out[a].0@ != out[b].0@,
                forall|a: int| 0 <= a < out.len() ==> self@.contains_key(#[trigger] out[a].0@) && out[a].1.model()
                    == self@[out[a].0@],
                src.len() == out.len(),
                forall|a: int| 0 <= a < out.len() ==> 0 <= #[trigger] src[a] < i && sm[src[a]].0 == out[a].0@,
                forall|f: int| 0 <= f < i && is_first(sm, sm[f].0, f) ==> exists|a: int| 0 <= a < out.len() && out[a].0@ == #[trigger] sm[f].0,
            decreases self.entries.len() - i,
        {
            let first = self.position(self.entries[i].0.as_str());
            let ghost old_out = out@;
            if first == Some(i) {
                proof {
                    lemma_lookup_first(sm, sm[i as int].0, i as int);
                    assert forall|a: int| 0 <= a < out.len() implies out[a].0@ != sm[i as int].0 by {
                        assert(0 <= src[a] < i && sm[src[a]].0 == out[a].0@);
                    }
                }
                out.push((self.entries[i].0.clone(), self.entries[i].1.duplicate()));
                proof {
                    let last = out.len() - 1;
                    assert(out[last].0@ == sm[i as int].0);
                    src = src.push(i as int);
                    assert forall|a: int| 0 <= a < out.len() implies 0 <= #[trigger] src[a] < i + 1 && sm[src[a]].0 == out[a].0@ by {
                        if a < last {
                            assert(out[a] == old_out[a]);
                        }
                    }
                    assert forall|f: int| 0 <= f < i + 1 && is_first(sm, sm[f].0, f) implies exists|a: int| 0 <= a < out.len() && out[a].0@ == #[trigger] sm[f].0 by {
                        if f < i {
                            let a = choose|a: int| 0 <= a < old_out.len() && old_out[a].0@ == sm[f].0;
                            assert(out[a] == old_out[a]);
                        } else {
                            assert(out[last].0@ == sm[f].0);
                        }
                    }
                }
            } else {
                proof {
                    lemma_first_exists(sm, sm[i as int].0, i as int);
                    let f = choose|f: int| is_first(sm, sm[i as int].0, f);
                    if let Some(p) = first {
                        lemma_first_unique(sm, sm[i as int].0, f, p as int);
                    }
                    assert(!is_first(sm, sm[i as int].0, i as int));
                }
            }
            i = i + 1;
        }
        proof {
            assert forall|k: Seq<char>| self@.contains_key(k) implies exists|a: int| 0 <= a < out.len() && out[a].0@ == k by {
                let w = choose|w: int| 0 <= w < sm.len() && sm[w].0 == k;
                lemma_first_exists(sm, k, w);
                let f = choose|f: int| is_first(sm, k, f);
                assert(sm[f].0 == k);
            }
            let keys = out@.map_values(|p: (String, Value)| p.0@);
            assert(keys.no_duplicates());
            assert forall|k: Seq<char>| keys.to_set().contains(k) == self@.dom().contains(k) by {
                if self@.contains_key(k) {
                    let a = choose|a: int| 0 <= a < out.len() && out[a].0@ == k;
                    assert(keys[a] == k);
                }
                if keys.to_set().contains(k) {
                    let a = choose|a: int| 0 <= a < keys.len() && keys[a] == k;
                    assert(out[a].0@ == k);
                }
            }
            assert(keys.to_set() =~= self@.dom());
            keys.unique_seq_to_set();
        }
        out
    }

    /// A record built from (name, value) pairs; of two pairs with one name the
    /// later one wins.
    pub fn from_pairs(pairs: Vec<(String, Value)>) -> (r: Struct)
        ensures
            r@ == pairs_to_map(pair_models(pairs@)),
    {
        let ghost ps = pair_models(pairs@);
        let mut r = Struct::new();
        let mut i: usize = 0;
        proof {
            assert(ps.subrange(0, 0) =~= Seq::<(Seq<char>, ValueModel)>::empty());
        }
        while i < pairs.len()
            invariant
                i <= pairs.len(),
                ps == pair_models(pairs@),
                r@ == pairs_to_map(ps.subrange(0, i as int)),
            decreases pairs.len() - i,
        {
            r.set_property(pairs[i].0.clone(), pairs[i].1.duplicate());
            proof {
                assert(ps.subrange(0, i + 1).drop_last() =~= ps.subrange(0, i as int));
            }
            i = i + 1;
        }
        proof {
            assert(ps.subrange(0, i as int) =~= ps);
        }
        r
    }

    /// Compares two records: the same field names, with equal values.
    pub fn equals(&self, other: &Struct) -> (r: bool)
        ensures
            r == (self@.dom() == other@.dom() && forall|k: Seq<char>|
                self@.contains_key(k) ==> model_eq(self@[k], other@[k])),
        decreases self,
    {
        let ghost sm = self.entry_models();
        let ghost om = other.entry_models();
        let mut i: usize = 0;
        while i < self.entries.len()
            invariant
                i <= self.entries.len(),
                sm == self.entry_models(),
                om == other.entry_models(),
                forall|j: int|
                    0 <= j < i && is_first(sm, sm[j].0, j) ==> other@.contains_key(#[trigger] sm[j].0)
                        && model_eq(self@[sm[j].0], other@[sm[j].0]),
            decreases self.entries.len() - i,
        {
            let first = self.position(self.entries[i].0.as_str());
            if first == Some(i) {
                proof {
                    lemma_lookup_first(sm, sm[i as int].0, i as int);
                }
                match other.position(self.entries[i].0.as_str()) {
                    None => {
                        proof {
                            lemma_lookup_absent(om, sm[i as int].0);
                        }
                        return false;
                    },
                    Some(q) => {
                        proof {
                            lemma_lookup_first(om, sm[i as int].0, q as int);
                        }
                        assert(decreases_to!(*self => self.entries[i as int].1));
                        if !self.entries[i].1.equals(&other.entries[q].1) {
                            return false;
                        }
                    },
                }
            } else {
                proof {
                    lemma_first_exists(sm, sm[i as int].0, i as int);
                    let f = choose|f: int| is_first(sm, sm[i as int].0, f);
                    if let Some(p) = first {
                        lemma_first_unique(sm, sm[i as int].0, f, p as int);
                    }
                    assert(!is_first(sm, sm[i as int].0, i as int));
                }
            }
            i = i + 1;
        }
        let mut j: usize = 0;
        while j < other.entries.len()
            invariant
                j <= other.entries.len(),
                sm == self.entry_models(),
                om == other.entry_models(),
                forall|l: int| 0 <= l < j ==> self@.contains_key(#[trigger] om[l].0),
            decreases other.entries.len() - j,
        {
            match self.position(other.entries[j].0.as_str()) {
                None => {
                    proof {
                        lemma_lookup_absent(sm, om[j as int].0);
                    }
                    return false;
                },
                Some(p) => {
                    proof {
                        lemma_lookup_first(sm, om[j as int].0, p as int);
                    }
                },
            }
            j = j + 1;
        }
        proof {
            assert forall|k: Seq<char>| self@.contains_key(k) implies other@.contains_key(k) && model_eq(
                self@[k],
                other@[k],
            ) by {
                let w = choose|w: int| 0 <= w < sm.len() && sm[w].0 == k;
                lemma_first_exists(sm, k, w);
                let f = choose|f: int| is_first(sm, k, f);
                assert(sm[f].0 == k);
            }
            assert forall|k: Seq<char>| other@.contains_key(k) implies self@.contains_key(k) by {
                let w = choose|w: int| 0 <= w < om.len() && om[w].0 == k;
                assert(om[w].0 == k);
            }
            assert(self@.dom() =~= other@.dom());
        }
        true
    }

    /// Position of the first entry named `name`, if any.
    fn position(&self, name: &str) -> (r: Option<usize>)
        ensures
            match r {
                Some(i) => is_first(self.entry_models(), name@, i as int),
                None => forall|j: int|
                    0 <= j < self.entry_models().len() ==> self.entry_models()[j].0 != name@,
            },
    {
        let mut i: usize = 0;
        while i < self.entries.len()
            invariant
                i <= self.entries.len(),
                forall|j: int| 0 <= j < i ==> self.entry_models()[j].0 != name@,
            decreases self.entries.len() - i,
        {
            if same_text(&self.entries[i].0, name) {
                return Some(i);
            }
            i = i + 1;
        }
        None
    }

    /// The value of field `name`, or `None` where the record has no such field.
    pub fn get_property(&self, name: &str) -> (r: Option<Value>)
        ensures
            match r {
                Some(v) => self@.contains_key(name@) && v.model() == self@[name@],
                None => !self@.contains_key(name@),
            },
    {
        match self.position(name) {
            Some(i) => {
                proof {
                    lemma_lookup_first(self.entry_models(), name@, i as int);
                }
                Some(self.entries[i].1.duplicate())
            },
            None => {
                proof {
                    lemma_lookup_absent(self.entry_models(), name@);
                }
                None
            },
        }
    }

    /// Sets field `name` to `value`, adding the field or replacing its value.
    pub fn set_property(&mut self, name: String, value: Value)
        ensures
            final(self)@ == old(self)@.insert(name@, value.model()),
    {
        let ghost old_models = self.entry_models();
        let ghost k = name@;
        let ghost vm = value.model();
        match self.position(name.as_str()) {
            Some(i) => {
                self.entries.set(i, (name, value));
                proof {
                    let s = self.entry_models();
                    assert(s =~= old_models.update(i as int, (k, vm)));
                    assert forall|k2: Seq<char>| #[trigger] self@.contains_key(k2) == old(self)@.insert(k, vm).contains_key(k2) by {
                        if k2 != k {
                            if old(self)@.contains_key(k2) {
                                let w = choose|w: int| 0 <= w < old_models.len() && old_models[w].0 == k2;
                                assert(s[w].0 == k2);
                            }
                        } else {
                            assert(s[i as int].0 == k);
                        }
                    }
                    assert forall|k2: Seq<char>| #[trigger] self@.contains_key(k2) implies self@[k2] == old(self)@.insert(k, vm)[k2] by {
                        if k2 == k {
                            lemma_lookup_first(s, k, i as int);
                        } else {
                            let w = choose|w: int| 0 <= w < s.len() && s[w].0 == k2;
                            lemma_first_exists(s, k2, w);
                            let f = choose|f: int| is_first(s, k2, f);
                            lemma_lookup_first(s, k2, f);
                            assert forall|j: int| 0 <= j < f implies old_models[j].0 != k2 by {
                                assert(s[j].0 != k2);
                            }
                            assert(is_first(old_models, k2, f));
                            lemma_lookup_first(old_models, k2, f);
                        }
                    }
                    assert(self@ =~= old(self)@.insert(k, vm));
                }
            },
            None => {
                self.entries.push((name, value));
                proof {
                    let s = self.entry_models();
                    assert(s =~= old_models.push((k, vm)));
                    let n = old_models.len() as int;
                    assert forall|k2: Seq<char>| #[trigger] self@.contains_key(k2) == old(self)@.insert(k, vm).contains_key(k2) by {
                        if k2 != k {
                            if old(self)@.contains_key(k2) {
                                let w = choose|w: int| 0 <= w < old_models.len() && old_models[w].0 == k2;
                                assert(s[w].0 == k2);
                            }
                        } else {
                            assert(s[n].0 == k);
                        }
                    }
                    assert forall|k2: Seq<char>| #[trigger] self@.contains_key(k2) implies self@[k2] == old(self)@.insert(k, vm)[k2] by {
                        if k2 == k {
                            assert(is_first(s, k, n));
                            lemma_lookup_first(s, k, n);
                        } else {
                            let w = choose|w: int| 0 <= w < s.len() && s[w].0 == k2;
                            lemma_first_exists(s, k2, w);
                            let f = choose|f: int| is_first(s, k2, f);
                            lemma_lookup_first(s, k2, f);
                            assert(f != n);
                            assert forall|j: int| 0 <= j < f implies old_models[j].0 != k2 by {
                                assert(s[j].0 != k2);
                            }
                            assert(is_first(old_models, k2, f));
                            lemma_lookup_first(old_models, k2, f);
                        }
                    }
                    assert(self@ =~= old(self)@.insert(k, vm));
                }
            },
        }
    }
}

} // verus!
