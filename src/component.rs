use vstd::prelude::*;
use crate::value::{Struct, Value, ValueModel, kind_of, pair_models};


verus! {

/// Error of [`ComponentInstance::get_property`].
#[derive(Clone, Copy, Debug, PartialEq, Eq, Structural)]
pub enum GetPropertyError {
    /// No property has that name.
    NoSuchProperty,
}

/// Error of [`ComponentInstance::set_property`].
#[derive(Clone, Copy, Debug, PartialEq, Eq, Structural)]
pub enum SetPropertyError {
    /// No property has that name.
    NoSuchProperty,
    /// The property exists but its type does not take the value given.
    WrongType,
}

/// Error of [`ComponentInstance::set_callback`].
#[derive(Clone, Copy, Debug, PartialEq, Eq, Structural)]
pub enum SetCallbackError {
    /// No callback has that name.
    NoSuchCallback,
}

/// Error of [`ComponentInstance::invoke_callback`].
#[derive(Clone, Copy, Debug, PartialEq, Eq, Structural)]
pub enum CallCallbackError {
    /// No callback has that name.
    NoSuchCallback,
}

/// What a callback handler hands back: its result, and the property writes
/// to apply to the instance, in order.
pub struct CallbackOutcome {
    pub value: Value,
    pub writes: Vec<(String, Value)>,
}

/// A handler can be called with any snapshot of the properties and any
/// argument list.
pub open spec fn callable<H: Fn(Struct, Vec<Value>) -> CallbackOutcome>(h: H) -> bool {
    forall|props: Struct, args: Vec<Value>| call_requires(h, (props, args))
}

/// One property write, under the rules of `set_property`: it takes effect
/// when the property exists and its type takes the value, else it is
/// dropped.
pub open spec fn apply_write(m: Map<Seq<char>, ValueModel>, w: (Seq<char>, ValueModel)) -> Map<
    Seq<char>,
    ValueModel,
> {
    if m.contains_key(w.0) && type_class(m[w.0]) == type_class(w.1) {
        m.insert(w.0, w.1)
    } else {
        m
    }
}

/// The writes applied one after another.
pub open spec fn apply_writes(m: Map<Seq<char>, ValueModel>, w: Seq<(Seq<char>, ValueModel)>) -> Map<
    Seq<char>,
    ValueModel,
>
    decreases w.len(),
{
    if w.len() == 0 {
        m
    } else {
        apply_write(apply_writes(m, w.drop_last()), w.last())
    }
}

/// `props` with `writes` applied, each as `set_property` would.
fn apply_writes_to(props: &mut Struct, writes: &Vec<(String, Value)>)
    ensures
        final(props)@ == apply_writes(old(props)@, pair_models(writes@)),
{
    let ghost ws = pair_models(writes@);
    let ghost start = props@;
    let mut k: usize = 0;
    proof {
        assert(ws.subrange(0, 0) =~= Seq::<(Seq<char>, ValueModel)>::empty());
    }
    while k < writes.len()
        invariant
            k <= writes.len(),
            ws == pair_models(writes@),
            props@ == apply_writes(start, ws.subrange(0, k as int)),
        decreases writes.len() - k,
    {
        let value = writes[k].1.duplicate();
        match props.get_property(writes[k].0.as_str()) {
            Some(current) => {
                if same_type_class(&current, &value) {
                    props.set_property(writes[k].0.clone(), value);
                }
            },
            None => {},
        }
        proof {
            assert(ws.subrange(0, k + 1).drop_last() =~= ws.subrange(0, k as int));
        }
        k = k + 1;
    }
    proof {
        assert(ws.subrange(0, k as int) =~= ws);
    }
}

/// `i` is the first position of `name` in `names`.
pub open spec fn first_name(names: Seq<Seq<char>>, name: Seq<char>, i: int) -> bool {
    &&& 0 <= i < names.len()
    &&& names[i] == name
    &&& forall|j: int| 0 <= j < i ==> names[j] != name
}

pub open spec fn text_views(v: Seq<String>) -> Seq<Seq<char>> {
    v.map_values(|s: String| s@)
}

fn find_name(names: &Vec<String>, name: &str) -> (r: Option<usize>)
    ensures
        match r {
            Some(i) => first_name(text_views(names@), name@, i as int),
            None => !text_views(names@).contains(name@),
        },
{
    let mut i: usize = 0;
    while i < names.len()
        invariant
            i <= names.len(),
            forall|j: int| 0 <= j < i ==> names[j]@ != name@,
        decreases names.len() - i,
    {
        let owned = name.to_owned();
        if names[i] == owned {
            return Some(i);
        }
        i = i + 1;
    }
    None
}

/// A compiled component: its name, its public properties with their initial
/// values, and its callbacks. A property's type is the kind of its initial
/// value.
pub struct ComponentDefinition {
    name: String,
    properties: Struct,
    callbacks: Vec<String>,
}

impl ComponentDefinition {
    pub closed spec fn name_spec(&self) -> Seq<char> {
        self.name@
    }

    pub closed spec fn defaults(&self) -> Map<Seq<char>, ValueModel> {
        self.properties@
    }

    pub closed spec fn callback_names(&self) -> Seq<Seq<char>> {
        text_views(self.callbacks@)
    }

    pub fn new(name: String, properties: Struct, callbacks: Vec<String>) -> (r: ComponentDefinition)
        ensures
            r.name_spec() == name@,
            r.defaults() == properties@,
            r.callback_names() == text_views(callbacks@),
    {
        ComponentDefinition { name, properties, callbacks }
    }

    /// The name of the component as it was declared.
    pub fn name(&self) -> (r: &str)
        ensures
            r@ == self.name_spec(),
    {
        self.name.as_str()
    }

    /// The public properties, each with its initial value.
    pub fn properties(&self) -> (r: Struct)
        ensures
            r@ == self.defaults(),
    {
        self.properties.duplicate()
    }

    /// The names of the callbacks, in declaration order.
    pub fn callbacks(&self) -> (r: Vec<String>)
        ensures
            text_views(r@) == self.callback_names(),
    {
        let mut out: Vec<String> = Vec::new();
        let mut k: usize = 0;
        while k < self.callbacks.len()
            invariant
                k <= self.callbacks.len(),
                out.len() == k,
                forall|j: int| 0 <= j < k ==> out[j]@ == self.callbacks[j]@,
            decreases self.callbacks.len() - k,
        {
            out.push(self.callbacks[k].clone());
            k = k + 1;
        }
        proof {
            assert(text_views(out@) =~= self.callback_names());
        }
        out
    }

    /// A new live instance, held by one strong handle, with every property at
    /// its initial value, no handler set, and not shown.
    pub fn create<H: Fn(Struct, Vec<Value>) -> CallbackOutcome>(&self, store: &mut InstanceStore<H>) -> (r: ComponentInstance)
        requires
            old(store).wf(),
        ensures
            final(store).wf(),
            r.id_spec() == old(store).slot_count(),
            final(store).slot_count() == old(store).slot_count() + 1,
            final(store).others_unchanged(old(store), r.id_spec()),
            final(store).strong_count(r.id_spec()) == 1,
            final(store).properties_of(r.id_spec()) == self.defaults(),
            final(store).callback_names_of(r.id_spec()) == self.callback_names(),
            forall|name: Seq<char>| final(store).handler_of(r.id_spec(), name) is None,
            !final(store).visible(r.id_spec()),
    {
        let mut handlers: Vec<Option<H>> = Vec::new();
        let mut i: usize = 0;
        while i < self.callbacks.len()
            invariant
                i <= self.callbacks.len(),
                handlers.len() == i,
                forall|j: int| 0 <= j < i ==> handlers[j] is None,
            decreases self.callbacks.len() - i,
        {
            handlers.push(None);
            i = i + 1;
        }
        let mut names: Vec<String> = Vec::new();
        let mut k: usize = 0;
        while k < self.callbacks.len()
            invariant
                k <= self.callbacks.len(),
                names.len() == k,
                forall|j: int| 0 <= j < k ==> names[j]@ == self.callbacks[j]@,
            decreases self.callbacks.len() - k,
        {
            names.push(self.callbacks[k].clone());
            k = k + 1;
        }
        let id = store.slots.len();
        store.slots.push(
            Slot {
                strong: 1,
                visible: false,
                properties: self.properties.duplicate(),
                callbacks: names,
                handlers,
            },
        );
        proof {
            assert(text_views(names@) =~= self.callback_names());
        }
        ComponentInstance { id }
    }
}

struct Slot<H> {
    strong: usize,
    visible: bool,
    properties: Struct,
    callbacks: Vec<String>,
    handlers: Vec<Option<H>>,
}

/// Every instance created so far, each with the count of its strong handles.
/// An instance lives while that count is above zero; its place is never
/// given to another, so a weak handle can never reach the wrong instance.
pub struct InstanceStore<H> {
    slots: Vec<Slot<H>>,
}

/// An owning handle to a live instance. Duplicate it with `clone_strong` and
/// give it up with `release`.
pub struct ComponentInstance {
    id: usize,
}

/// A non-owning handle to an instance, which may have ended.
#[derive(Clone, Copy, Debug)]
pub struct WeakComponentInstance {
    id: usize,
}

impl<H: Fn(Struct, Vec<Value>) -> CallbackOutcome> InstanceStore<H> {
    pub closed spec fn wf(&self) -> bool {
        forall|i: int|
            0 <= i < self.slots.len() ==> {
                &&& (#[trigger] self.slots[i]).handlers.len() == self.slots[i].callbacks.len()
                &&& forall|j: int|
                    0 <= j < self.slots[i].handlers.len() && self.slots[i].handlers[j] is Some
                        ==> callable(self.slots[i].handlers[j]->Some_0)
            }
    }

    pub closed spec fn slot_count(&self) -> nat {
        self.slots.len() as nat
    }

    pub closed spec fn strong_count(&self, id: int) -> nat {
        if 0 <= id < self.slots.len() {
            self.slots[id].strong as nat
        } else {
            0
        }
    }

    pub closed spec fn visible(&self, id: int) -> bool {
        self.slots[id].visible
    }

    pub closed spec fn properties_of(&self, id: int) -> Map<Seq<char>, ValueModel> {
        self.slots[id].properties@
    }

    pub closed spec fn callback_names_of(&self, id: int) -> Seq<Seq<char>> {
        text_views(self.slots[id].callbacks@)
    }

    /// The handler set for callback `name` of instance `id`, if any.
    pub closed spec fn handler_of(&self, id: int, name: Seq<char>) -> Option<H> {
        let names = self.callback_names_of(id);
        if exists|i: int| first_name(names, name, i) {
            self.slots[id].handlers[choose|i: int| first_name(names, name, i)]
        } else {
            None
        }
    }

    /// Every slot other than `id` holds what it held in `old`.
    closed spec fn slots_same_except(&self, old: &Self, id: int) -> bool {
        &&& self.slots.len() >= old.slots.len()
        &&& forall|j: int| 0 <= j < old.slots.len() && j != id ==> self.slots[j] == old.slots[j]
    }

    /// Every instance other than `id` is as it was in `old`: strong count,
    /// visibility, properties, callbacks and handlers.
    pub open spec fn others_unchanged(&self, old: &Self, id: int) -> bool {
        &&& forall|j: int|
            #![trigger self.strong_count(j)]
            0 <= j < old.slot_count() && j != id ==> self.strong_count(j) == old.strong_count(j)
        &&& forall|j: int|
            #![trigger self.visible(j)]
            0 <= j < old.slot_count() && j != id ==> self.visible(j) == old.visible(j)
        &&& forall|j: int|
            #![trigger self.properties_of(j)]
            0 <= j < old.slot_count() && j != id ==> self.properties_of(j) == old.properties_of(j)
        &&& forall|j: int|
            #![trigger self.callback_names_of(j)]
            0 <= j < old.slot_count() && j != id ==> self.callback_names_of(j) == old.callback_names_of(j)
        &&& forall|j: int, n: Seq<char>|
            #![trigger self.handler_of(j, n)]
            0 <= j < old.slot_count() && j != id ==> self.handler_of(j, n) == old.handler_of(j, n)
    }

    /// A strong handle to instance `id` can be had: it is still live.
    pub open spec fn can_upgrade(&self, id: int) -> bool {
        self.strong_count(id) > 0
    }

    /// No instance was made, none other than `id` changed, and `id` differs
    /// at most in whether it is shown.
    pub open spec fn same_instance_except_visibility(&self, old: &Self, id: int) -> bool {
        &&& self.wf()
        &&& self.slot_count() == old.slot_count()
        &&& self.others_unchanged(old, id)
        &&& self.strong_count(id) == old.strong_count(id)
        &&& self.properties_of(id) == old.properties_of(id)
        &&& self.callback_names_of(id) == old.callback_names_of(id)
        &&& forall|n: Seq<char>| self.handler_of(id, n) == old.handler_of(id, n)
    }

    /// No instance was made, none other than `id` changed, and `id` differs
    /// at most in its strong count.
    pub open spec fn count_changed(&self, old: &Self, id: int) -> bool {
        &&& self.wf()
        &&& self.slot_count() == old.slot_count()
        &&& self.others_unchanged(old, id)
        &&& self.visible(id) == old.visible(id)
        &&& self.properties_of(id) == old.properties_of(id)
        &&& self.callback_names_of(id) == old.callback_names_of(id)
        &&& forall|n: Seq<char>| self.handler_of(id, n) == old.handler_of(id, n)
    }

    /// One strong handle to `id` was given up between `old` and `self`.
    pub open spec fn released(&self, old: &Self, id: int) -> bool {
        &&& self.slot_count() == old.slot_count()
        &&& self.others_unchanged(old, id)
        &&& old.strong_count(id) > 0
        &&& self.strong_count(id) == old.strong_count(id) - 1
    }

    proof fn lemma_others_frame(&self, old: &Self, id: int)
        requires
            self.slots_same_except(old, id),
        ensures
            self.others_unchanged(old, id),
    {
        assert forall|j: int| 0 <= j < old.slot_count() && j != id implies #[trigger] self.slots[j] == old.slots[j] by {
        }
        assert forall|j: int, n: Seq<char>| 0 <= j < old.slot_count() && j != id implies #[trigger] self.handler_of(j, n) == old.handler_of(j, n) by {
            assert(self.slots[j] == old.slots[j]);
        }
    }

    proof fn lemma_visibility_frame(&self, old: &Self, id: int)
        requires
            old.wf(),
            0 <= id < old.slots.len(),
            self.slots@ == old.slots@.update(id, Slot { visible: self.slots[id].visible, ..old.slots[id] }),
        ensures
            self.same_instance_except_visibility(old, id),
    {
        assert(self.slots_same_except(old, id));
        self.lemma_others_frame(old, id);
        assert forall|i: int| 0 <= i < self.slots.len() implies (#[trigger] self.slots[i]).handlers.len() == self.slots[i].callbacks.len() && forall|j: int|
            0 <= j < self.slots[i].handlers.len() && self.slots[i].handlers[j] is Some
                ==> callable(self.slots[i].handlers[j]->Some_0) by {
            assert(self.slots[i].handlers == old.slots[i].handlers);
        }
    }

    proof fn lemma_count_frame(&self, old: &Self, id: int)
        requires
            old.wf(),
            0 <= id < old.slots.len(),
            self.slots@ == old.slots@.update(id, Slot { strong: self.slots[id].strong, ..old.slots[id] }),
        ensures
            self.count_changed(old, id),
    {
        assert(self.slots_same_except(old, id));
        self.lemma_others_frame(old, id);
        assert forall|i: int| 0 <= i < self.slots.len() implies (#[trigger] self.slots[i]).handlers.len() == self.slots[i].callbacks.len() && forall|j: int|
            0 <= j < self.slots[i].handlers.len() && self.slots[i].handlers[j] is Some
                ==> callable(self.slots[i].handlers[j]->Some_0) by {
            assert(self.slots[i].handlers == old.slots[i].handlers);
        }
    }

    pub fn new() -> (r: InstanceStore<H>)
        ensures
            r.wf(),
            r.slot_count() == 0,
    {
        InstanceStore { slots: Vec::new() }
    }
}

proof fn lemma_first_name_unique(names: Seq<Seq<char>>, name: Seq<char>, i: int, j: int)
    requires
        first_name(names, name, i),
        first_name(names, name, j),
    ensures
        i == j,
{
}

impl ComponentInstance {
    /// The instance this handle owns a share of.
    pub closed spec fn id_spec(&self) -> int {
        self.id as int
    }

    /// This handle's instance is live in `store`.
    pub open spec fn held_in<H: Fn(Struct, Vec<Value>) -> CallbackOutcome>(&self, store: &InstanceStore<H>) -> bool {
        &&& store.wf()
        &&& 0 <= self.id_spec() < store.slot_count()
        &&& store.strong_count(self.id_spec()) > 0
    }

    /// Whether this handle's instance is live in `store`.
    pub fn is_held_in<H: Fn(Struct, Vec<Value>) -> CallbackOutcome>(&self, store: &InstanceStore<H>) -> (r: bool)
        requires
            store.wf(),
        ensures
            r == self.held_in(store),
    {
        self.id < store.slots.len() && store.slots[self.id].strong > 0
    }

    /// The current value of public property `name`.
    pub fn get_property<H: Fn(Struct, Vec<Value>) -> CallbackOutcome>(&self, store: &InstanceStore<H>, name: &str) -> (r:
        Result<Value, GetPropertyError>)
        requires
            self.held_in(store),
        ensures
            match r {
                Ok(v) => store.properties_of(self.id_spec()).contains_key(name@) && v.model()
                    == store.properties_of(self.id_spec())[name@],
                Err(e) => e == GetPropertyError::NoSuchProperty && !store.properties_of(
                    self.id_spec(),
                ).contains_key(name@),
            },
    {
        match store.slots[self.id].properties.get_property(name) {
            Some(v) => Ok(v),
            None => Err(GetPropertyError::NoSuchProperty),
        }
    }

    /// Sets public property `name` to `value`, which must be of the
    /// property's kind. On an error nothing changes.
    pub fn set_property<H: Fn(Struct, Vec<Value>) -> CallbackOutcome>(
        &self,
        store: &mut InstanceStore<H>,
        name: &str,
        value: Value,
    ) -> (r: Result<(), SetPropertyError>)
        requires
            self.held_in(old(store)),
        ensures
            self.held_in(final(store)),
            final(store).slot_count() == old(store).slot_count(),
            final(store).others_unchanged(old(store), self.id_spec()),
            final(store).strong_count(self.id_spec()) == old(store).strong_count(self.id_spec()),
            final(store).visible(self.id_spec()) == old(store).visible(self.id_spec()),
            final(store).callback_names_of(self.id_spec()) == old(store).callback_names_of(self.id_spec()),
            forall|n: Seq<char>| final(store).handler_of(self.id_spec(), n) == old(store).handler_of(self.id_spec(), n),
            !old(store).properties_of(self.id_spec()).contains_key(name@) ==> r == Err::<(), SetPropertyError>(
                SetPropertyError::NoSuchProperty,
            ),
            old(store).properties_of(self.id_spec()).contains_key(name@) && type_class(
                old(store).properties_of(self.id_spec())[name@],
            ) != type_class(value.model()) ==> r == Err::<(), SetPropertyError>(SetPropertyError::WrongType),
            r is Err ==> final(store).properties_of(self.id_spec()) == old(store).properties_of(self.id_spec()),
            r is Ok <==> (old(store).properties_of(self.id_spec()).contains_key(name@) && type_class(
                old(store).properties_of(self.id_spec())[name@],
            ) == type_class(value.model())),
            r is Ok ==> final(store).properties_of(self.id_spec()) == old(store).properties_of(
                self.id_spec(),
            ).insert(name@, value.model()),
    {
        let id = self.id;
        let current = store.slots[id].properties.get_property(name);
        match current {
            None => Err(SetPropertyError::NoSuchProperty),
            Some(c) => {
                if !same_type_class(&c, &value) {
                    return Err(SetPropertyError::WrongType);
                }
                let ghost old_slots = store.slots@;
                store.slots[id].properties.set_property(name.to_owned(), value);
                proof {
                    assert forall|n: Seq<char>| store.handler_of(self.id_spec(), n) == old(store).handler_of(self.id_spec(), n) by {
                        assert(store.callback_names_of(id as int) == old(store).callback_names_of(id as int));
                    }
                    assert forall|i: int| 0 <= i < store.slots.len() implies (#[trigger] store.slots[i]).handlers.len() == store.slots[i].callbacks.len() && forall|j: int|
                        0 <= j < store.slots[i].handlers.len() && store.slots[i].handlers[j] is Some
                            ==> callable(store.slots[i].handlers[j]->Some_0) by {
                        assert(old_slots[i].handlers == store.slots[i].handlers);
                    }
                }
                Ok(())
            },
        }
    }

    /// Marks the instance as shown; showing a shown instance changes nothing.
    pub fn show<H: Fn(Struct, Vec<Value>) -> CallbackOutcome>(&self, store: &mut InstanceStore<H>)
        requires
            self.held_in(old(store)),
        ensures
            self.held_in(final(store)),
            final(store).same_instance_except_visibility(old(store), self.id_spec()),
            final(store).visible(self.id_spec()),
    {
        store.slots[self.id].visible = true;
        proof {
            store.lemma_visibility_frame(old(store), self.id_spec());
        }
    }

    /// Marks the instance as hidden; hiding a hidden instance changes nothing.
    pub fn hide_window<H: Fn(Struct, Vec<Value>) -> CallbackOutcome>(&self, store: &mut InstanceStore<H>)
        requires
            self.held_in(old(store)),
        ensures
            self.held_in(final(store)),
            final(store).same_instance_except_visibility(old(store), self.id_spec()),
            !final(store).visible(self.id_spec()),
    {
        store.slots[self.id].visible = false;
        proof {
            store.lemma_visibility_frame(old(store), self.id_spec());
        }
    }

    /// A second strong handle to the same instance.
    pub fn clone_strong<H: Fn(Struct, Vec<Value>) -> CallbackOutcome>(&self, store: &mut InstanceStore<H>) -> (r:
        ComponentInstance)
        requires
            self.held_in(old(store)),
            old(store).strong_count(self.id_spec()) < usize::MAX,
        ensures
            r.id_spec() == self.id_spec(),
            self.held_in(final(store)),
            final(store).count_changed(old(store), self.id_spec()),
            final(store).strong_count(self.id_spec()) == old(store).strong_count(self.id_spec()) + 1,
    {
        let n = store.slots[self.id].strong;
        store.slots[self.id].strong = n + 1;
        proof {
            store.lemma_count_frame(old(store), self.id_spec());
        }
        ComponentInstance { id: self.id }
    }

    /// A weak handle to the same instance; the strong count stays.
    pub fn as_weak(&self) -> (r: WeakComponentInstance)
        ensures
            r.id_spec() == self.id_spec(),
    {
        WeakComponentInstance { id: self.id }
    }

    /// Gives up this strong handle. When it was the last one the instance
    /// ends: its properties and handlers are dropped and no weak handle can be
    /// upgraded any more.
    pub fn release<H: Fn(Struct, Vec<Value>) -> CallbackOutcome>(self, store: &mut InstanceStore<H>)
        requires
            self.held_in(old(store)),
        ensures
            final(store).wf(),
            final(store).released(old(store), self.id_spec()),
            old(store).strong_count(self.id_spec()) > 1 ==> {
                &&& final(store).visible(self.id_spec()) == old(store).visible(self.id_spec())
                &&& final(store).properties_of(self.id_spec()) == old(store).properties_of(self.id_spec())
                &&& final(store).callback_names_of(self.id_spec()) == old(store).callback_names_of(self.id_spec())
                &&& forall|n: Seq<char>| final(store).handler_of(self.id_spec(), n) == old(store).handler_of(self.id_spec(), n)
            },
    {
        let n = store.slots[self.id].strong;
        store.slots[self.id].strong = n - 1;
        if n == 1 {
            store.slots[self.id].properties = Struct::new();
            let mut names: Vec<String> = Vec::new();
            let mut handlers: Vec<Option<H>> = Vec::new();
            std::mem::swap(&mut store.slots[self.id].callbacks, &mut names);
            std::mem::swap(&mut store.slots[self.id].handlers, &mut handlers);
        }
        proof {
            assert forall|i: int| 0 <= i < store.slots.len() implies (#[trigger] store.slots[i]).handlers.len() == store.slots[i].callbacks.len() && forall|j: int|
                0 <= j < store.slots[i].handlers.len() && store.slots[i].handlers[j] is Some
                    ==> callable(store.slots[i].handlers[j]->Some_0) by {
                if i != self.id_spec() {
                    assert(store.slots[i] == old(store).slots[i]);
                }
            }
        }
    }

    /// Sets the handler of callback `name`, replacing any earlier one. On an
    /// error nothing changes.
    pub fn set_callback<H: Fn(Struct, Vec<Value>) -> CallbackOutcome>(
        &self,
        store: &mut InstanceStore<H>,
        name: &str,
        handler: H,
    ) -> (r: Result<(), SetCallbackError>)
        requires
            self.held_in(old(store)),
            callable(handler),
        ensures
            self.held_in(final(store)),
            final(store).slot_count() == old(store).slot_count(),
            final(store).others_unchanged(old(store), self.id_spec()),
            final(store).strong_count(self.id_spec()) == old(store).strong_count(self.id_spec()),
            final(store).visible(self.id_spec()) == old(store).visible(self.id_spec()),
            final(store).properties_of(self.id_spec()) == old(store).properties_of(self.id_spec()),
            final(store).callback_names_of(self.id_spec()) == old(store).callback_names_of(self.id_spec()),
            r is Ok <==> old(store).callback_names_of(self.id_spec()).contains(name@),
            r is Err ==> r == Err::<(), SetCallbackError>(SetCallbackError::NoSuchCallback) && *final(store) == *old(store),
            r is Ok ==> final(store).handler_of(self.id_spec(), name@) == Some(handler),
            forall|n: Seq<char>| n != name@ ==> final(store).handler_of(self.id_spec(), n) == old(store).handler_of(self.id_spec(), n),
    {
        let id = self.id;
        match find_name(&store.slots[id].callbacks, name) {
            None => Err(SetCallbackError::NoSuchCallback),
            Some(i) => {
                let ghost names = store.callback_names_of(id as int);
                let ghost old_handlers = store.slots[id as int].handlers@;
                store.slots[id].handlers.set(i, Some(handler));
                proof {
                    assert(store.callback_names_of(id as int) == names);
                    assert(names.contains(name@)) by {
                        assert(names[i as int] == name@);
                    }
                    assert(first_name(names, name@, i as int));
                    let c = choose|c: int| first_name(names, name@, c);
                    lemma_first_name_unique(names, name@, c, i as int);
                    assert forall|n: Seq<char>| n != name@ implies store.handler_of(id as int, n) == old(store).handler_of(id as int, n) by {
                        if exists|k: int| first_name(names, n, k) {
                            let k = choose|k: int| first_name(names, n, k);
                            assert(k != i);
                        }
                    }
                    assert forall|x: int| 0 <= x < store.slots.len() implies (#[trigger] store.slots[x]).handlers.len() == store.slots[x].callbacks.len() && forall|j: int|
                        0 <= j < store.slots[x].handlers.len() && store.slots[x].handlers[j] is Some
                            ==> callable(store.slots[x].handlers[j]->Some_0) by {
                        if x != id {
                            assert(store.slots[x] == old(store).slots[x]);
                        }
                    }
                }
                Ok(())
            },
        }
    }

    /// Calls callback `name` with `args`. A set handler gets a snapshot of
    /// the properties; its property writes are then applied in order, each
    /// as `set_property` would, and its value is the result. With no handler
    /// nothing changes and the result is the empty value.
    pub fn invoke_callback<H: Fn(Struct, Vec<Value>) -> CallbackOutcome>(
        &self,
        store: &mut InstanceStore<H>,
        name: &str,
        args: Vec<Value>,
    ) -> (r: Result<Value, CallCallbackError>)
        requires
            self.held_in(old(store)),
        ensures
            self.held_in(final(store)),
            final(store).slot_count() == old(store).slot_count(),
            final(store).others_unchanged(old(store), self.id_spec()),
            final(store).strong_count(self.id_spec()) == old(store).strong_count(self.id_spec()),
            final(store).visible(self.id_spec()) == old(store).visible(self.id_spec()),
            final(store).callback_names_of(self.id_spec()) == old(store).callback_names_of(self.id_spec()),
            forall|n: Seq<char>| final(store).handler_of(self.id_spec(), n) == old(store).handler_of(self.id_spec(), n),
            r is Ok <==> old(store).callback_names_of(self.id_spec()).contains(name@),
            r is Err ==> r == Err::<Value, CallCallbackError>(CallCallbackError::NoSuchCallback)
                && *final(store) == *old(store),
            r is Ok ==> match old(store).handler_of(self.id_spec(), name@) {
                Some(h) => exists|p: Struct, o: CallbackOutcome|
                    {
                        &&& p@ == old(store).properties_of(self.id_spec())
                        &&& call_ensures(h, (p, args), o)
                        &&& r->Ok_0 == o.value
                        &&& final(store).properties_of(self.id_spec()) == apply_writes(
                            old(store).properties_of(self.id_spec()),
                            pair_models(o.writes@),
                        )
                    },
                None => r->Ok_0.model() == ValueModel::Void && *final(store) == *old(store),
            },
    {
        let id = self.id;
        match find_name(&store.slots[id].callbacks, name) {
            None => Err(CallCallbackError::NoSuchCallback),
            Some(i) => {
                let ghost names = store.callback_names_of(id as int);
                proof {
                    assert(names.contains(name@)) by {
                        assert(names[i as int] == name@);
                    }
                    let c = choose|c: int| first_name(names, name@, c);
                    lemma_first_name_unique(names, name@, c, i as int);
                    assert(store.slots[id as int].handlers.len() == store.slots[id as int].callbacks.len());
                }
                let ghost snap_view = store.slots[id as int].properties@;
                let ghost mut snap: Struct = arbitrary();
                let outcome: Option<CallbackOutcome> = match &store.slots[id].handlers[i] {
                    Some(h) => {
                        let snapshot = store.slots[id].properties.duplicate();
                        proof {
                            snap = snapshot;
                        }
                        Some(h(snapshot, args))
                    },
                    None => None,
                };
                match outcome {
                    None => Ok(Value::Void),
                    Some(o) => {
                        let mut props = store.slots[id].properties.duplicate();
                        apply_writes_to(&mut props, &o.writes);
                        let ghost old_slots = store.slots@;
                        store.slots[id].properties = props;
                        proof {
                            assert(store.slots_same_except(old(store), id as int));
                            store.lemma_others_frame(old(store), id as int);
                            assert forall|n: Seq<char>| store.handler_of(id as int, n) == old(store).handler_of(id as int, n) by {
                                assert(store.callback_names_of(id as int) == old(store).callback_names_of(id as int));
                            }
                            assert forall|x: int| 0 <= x < store.slots.len() implies (#[trigger] store.slots[x]).handlers.len() == store.slots[x].callbacks.len() && forall|j: int|
                                0 <= j < store.slots[x].handlers.len() && store.slots[x].handlers[j] is Some
                                    ==> callable(store.slots[x].handlers[j]->Some_0) by {
                                assert(old_slots[x].handlers == store.slots[x].handlers);
                            }
                        }
                        Ok(o.value)
                    },
                }
            },
        }
    }
}

impl WeakComponentInstance {
    pub closed spec fn id_spec(&self) -> int {
        self.id as int
    }

    /// A new strong handle to the instance if it is still live, else `None`.
    pub fn upgrade<H: Fn(Struct, Vec<Value>) -> CallbackOutcome>(&self, store: &mut InstanceStore<H>) -> (r: Option<
        ComponentInstance,
    >)
        requires
            old(store).wf(),
            old(store).strong_count(self.id_spec()) < usize::MAX,
        ensures
            r is Some <==> old(store).can_upgrade(self.id_spec()),
            r is None ==> *final(store) == *old(store),
            r is Some ==> {
                &&& r->Some_0.id_spec() == self.id_spec()
                &&& r->Some_0.held_in(final(store))
                &&& final(store).count_changed(old(store), self.id_spec())
                &&& final(store).strong_count(self.id_spec()) == old(store).strong_count(self.id_spec()) + 1
            },
    {
        if self.id >= store.slots.len() || store.slots[self.id].strong == 0 {
            None
        } else {
            let n = store.slots[self.id].strong;
            store.slots[self.id].strong = n + 1;
            proof {
                store.lemma_count_frame(old(store), self.id_spec());
            }
            Some(ComponentInstance { id: self.id })
        }
    }

    /// A new strong handle to an instance known to be live.
    pub fn unwrap<H: Fn(Struct, Vec<Value>) -> CallbackOutcome>(&self, store: &mut InstanceStore<H>) -> (r: ComponentInstance)
        requires
            old(store).wf(),
            old(store).can_upgrade(self.id_spec()),
            old(store).strong_count(self.id_spec()) < usize::MAX,
        ensures
            r.id_spec() == self.id_spec(),
            r.held_in(final(store)),
            final(store).count_changed(old(store), self.id_spec()),
            final(store).strong_count(self.id_spec()) == old(store).strong_count(self.id_spec()) + 1,
    {
        match self.upgrade(store) {
            Some(r) => r,
            None => ComponentInstance { id: self.id },
        }
    }
}

/// While the strong handles of an instance are given up one at a time, a weak
/// handle to it can be upgraded exactly until the last of them is gone.
pub proof fn lemma_upgrade_until_last_release<H: Fn(Struct, Vec<Value>) -> CallbackOutcome>(
    stores: Seq<InstanceStore<H>>,
    id: int,
)
    requires
        stores.len() > 0,
        forall|i: int| 0 < i < stores.len() ==> #[trigger] stores[i].released(&stores[i - 1], id),
    ensures
        forall|i: int| 0 <= i < stores.len() ==> #[trigger] stores[i].strong_count(id) == stores[0].strong_count(id) - i,
        forall|i: int|
            0 <= i < stores.len() ==> (#[trigger] stores[i].can_upgrade(id) <==> i < stores[0].strong_count(id)),
    decreases stores.len(),
{
    if stores.len() > 1 {
        let prefix = stores.drop_last();
        assert forall|i: int| 0 < i < prefix.len() implies #[trigger] prefix[i].released(&prefix[i - 1], id) by {
            assert(stores[i].released(&stores[i - 1], id));
        }
        lemma_upgrade_until_last_release(prefix, id);
        let last = stores.len() - 1;
        assert(stores[last].released(&stores[last - 1], id));
        assert(prefix[last - 1] == stores[last - 1]);
        assert forall|i: int| 0 <= i < stores.len() implies #[trigger] stores[i].strong_count(id) == stores[0].strong_count(id) - i by {
            if i < last {
                assert(prefix[i] == stores[i]);
            }
        }
    }
}

/// Two strong handles to one instance see the same properties and handlers:
/// what is set through one is read through the other.
pub proof fn lemma_handles_share_state<H: Fn(Struct, Vec<Value>) -> CallbackOutcome>(
    store: InstanceStore<H>,
    a: ComponentInstance,
    b: ComponentInstance,
)
    requires
        a.id_spec() == b.id_spec(),
    ensures
        store.properties_of(a.id_spec()) == store.properties_of(b.id_spec()),
        forall|n: Seq<char>| store.handler_of(a.id_spec(), n) == store.handler_of(b.id_spec(), n),
        store.strong_count(a.id_spec()) == store.strong_count(b.id_spec()),
{
}

/// The property types that a value can fill: its kind, except that an
/// array and a host model both fill a model-typed property.
pub open spec fn type_class(m: ValueModel) -> int {
    match m {
        ValueModel::Model(_) => kind_of(ValueModel::Array(Seq::empty())),
        _ => kind_of(m),
    }
}

fn same_type_class(a: &Value, b: &Value) -> (r: bool)
    ensures
        r == (type_class(a.model()) == type_class(b.model())),
{
    match (a, b) {
        (Value::Void, Value::Void) => true,
        (Value::Number(_), Value::Number(_)) => true,
        (Value::String(_), Value::String(_)) => true,
        (Value::Bool(_), Value::Bool(_)) => true,
        (Value::Image(_), Value::Image(_)) => true,
        (Value::Brush(_), Value::Brush(_)) => true,
        (Value::PathElements(_), Value::PathElements(_)) => true,
        (Value::EasingCurve(_), Value::EasingCurve(_)) => true,
        (Value::Array(_), Value::Array(_)) => true,
        (Value::Array(_), Value::Model(_)) => true,
        (Value::Model(_), Value::Array(_)) => true,
        (Value::Model(_), Value::Model(_)) => true,
        (Value::Struct(_), Value::Struct(_)) => true,
        (Value::EnumerationValue(_, _), Value::EnumerationValue(_, _)) => true,
        _ => false,
    }
}

} // verus!
