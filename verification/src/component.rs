//! Component identity, the type-erased component container and its
//! copy-on-write reference.
//!
//! A component travels in its serialized form: the container holds that
//! form behind a shared handle, together with the id of the component's
//! type, and hands out references that copy the value on their first write.

use std::sync::Arc;
use vstd::prelude::*;
use crate::entity_id::EntityId;
use crate::hashing::{string_hash, string_hash_spec};
use crate::text::{push_radix, upper_hex_text};

verus! {

/// Identifies a kind of component: the hash of the kind's canonical name.
#[derive(Eq, Hash, PartialEq, Copy, Clone, Debug, Structural)]
pub struct ComponentTypeId(u64);

/// Identifies one component of one entity: the key of cache entries, of
/// pending changes and of the backend's data records.
#[derive(Eq, Hash, PartialEq, Copy, Clone, Debug, Structural)]
pub struct ComponentInstanceId(EntityId, ComponentTypeId);

/// A kind of component. The kind's canonical name is what its type id is
/// derived from, so it must not change once components are stored.
pub trait ComponentType: Send + Sync + Clone {
    /// The canonical name of this kind.
    spec fn canonical_name() -> Seq<char>;

    /// Gives the canonical name.
    fn kind_name() -> (name: &'static str)
        ensures
            name@ == Self::canonical_name(),
    ;
}

/// The type id of the kind whose canonical name is `name`.
pub open spec fn type_id_of_name(name: Seq<char>) -> ComponentTypeId {
    ComponentTypeId::from_number(string_hash_spec(name))
}

/// The type id of the kind whose canonical name is `s`.
pub fn get_type_id_from_str(s: &str) -> (id: ComponentTypeId)
    ensures
        id == type_id_of_name(s@),
{
    ComponentTypeId(string_hash(s))
}

/// The type id of the kind `DataType`.
pub fn get_type_id<DataType: ComponentType>() -> (id: ComponentTypeId)
    ensures
        id == type_id_of_name(DataType::canonical_name()),
{
    get_type_id_from_str(DataType::kind_name())
}

impl ComponentTypeId {
    /// The number behind this identifier.
    pub closed spec fn number(self) -> u64 {
        self.0
    }

    /// The identifier with the given number.
    pub closed spec fn from_number(id: u64) -> Self {
        ComponentTypeId(id)
    }

    pub fn new_with_number(id: u64) -> (r: Self)
        ensures
            r == Self::from_number(id),
    {
        ComponentTypeId(id)
    }

    /// The type id of the kind `T`.
    pub fn new<T: ComponentType>() -> (id: Self)
        ensures
            id == type_id_of_name(T::canonical_name()),
    {
        let type_id = get_type_id::<T>();
        type_id
    }

    pub fn get_number(&self) -> (n: u64)
        ensures
            n == self.number(),
    {
        self.0
    }

    /// The printed form: `type<`, the number in upper-case hexadecimal, `>`.
    pub open spec fn display_text(self) -> Seq<char> {
        "type<"@ + upper_hex_text(self.number() as nat) + ">"@
    }

    pub fn to_string(&self) -> (s: String)
        ensures
            s@ == self.display_text(),
    {
        let mut s = String::from_str("type<");
        push_radix(&mut s, self.0, true);
        s.append(">");
        s
    }

    /// A type id is its number and nothing else.
    pub proof fn lemma_number_decides(a: Self, n: u64)
        ensures
            Self::from_number(n).number() == n,
            Self::from_number(a.number()) == a,
    {
    }
}

impl ComponentInstanceId {
    /// The entity of this instance.
    pub closed spec fn entity(self) -> EntityId {
        self.0
    }

    /// The component kind of this instance.
    pub closed spec fn component_type(self) -> ComponentTypeId {
        self.1
    }

    pub fn new_explicit(entity_id: EntityId, component_type_id: ComponentTypeId) -> (r: Self)
        ensures
            r.entity() == entity_id,
            r.component_type() == component_type_id,
    {
        ComponentInstanceId(entity_id, component_type_id)
    }

    /// The instance of the kind `T` on the given entity.
    pub fn new<T: ComponentType>(entity_id: EntityId) -> (r: Self)
        ensures
            r.entity() == entity_id,
            r.component_type() == type_id_of_name(T::canonical_name()),
    {
        ComponentInstanceId(entity_id, get_type_id::<T>())
    }

    pub fn get_component_type_id(&self) -> (t: ComponentTypeId)
        ensures
            t == self.component_type(),
    {
        self.1
    }

    pub fn get_entity_id(&self) -> (e: EntityId)
        ensures
            e == self.entity(),
    {
        self.0
    }

    /// Two instance ids with one entity and one kind are one instance id.
    pub proof fn lemma_parts_decide(a: Self, b: Self)
        requires
            a.entity() == b.entity(),
            a.component_type() == b.component_type(),
        ensures
            a == b,
    {
    }
}

/// A second handle to the value behind `handle` (`Arc::clone`): both
/// handles lead to one and the same value, which is not copied.
#[verifier::external_body]
fn share(handle: &Arc<String>) -> (r: Arc<String>)
    ensures
        r == *handle,
{
    Arc::clone(handle)
}

/// A component without its static type: the id of its kind and its value in
/// serialized form, behind a shared handle.
pub struct Component {
    type_id: ComponentTypeId,
    data: Arc<String>,
}

/// What a component is: its kind and its serialized value.
pub struct ComponentView {
    pub kind: ComponentTypeId,
    pub payload: Seq<char>,
}

/// A read/write view of a component's value. Reads see the shared value
/// until the first write; the first write copies the value into a private
/// slot, and from then on reads and writes go to that slot. The shared value
/// is never changed through a reference.
pub struct ComponentRef {
    data: Arc<String>,
    changed_data: Option<String>,
}

/// What a component reference is: the shared value it was made over, and the
/// private copy once a write has made one.
pub struct ComponentRefView {
    pub shared: Seq<char>,
    pub changed: Option<Seq<char>>,
}

impl ComponentRefView {
    /// What a read observes: the private copy if there is one, else the
    /// shared value.
    pub open spec fn value(self) -> Seq<char> {
        match self.changed {
            Some(d) => d,
            None => self.shared,
        }
    }

    /// The unchanged reference over `shared`.
    pub open spec fn fresh(shared: Seq<char>) -> Self {
        ComponentRefView { shared, changed: None }
    }

    /// This reference after `value` was written through it.
    pub open spec fn written(self, value: Seq<char>) -> Self {
        ComponentRefView { shared: self.shared, changed: Some(value) }
    }

    /// This reference after its private copy was discarded.
    pub open spec fn cleared(self) -> Self {
        ComponentRefView { shared: self.shared, changed: None }
    }
}

impl View for Component {
    type V = ComponentView;

    closed spec fn view(&self) -> ComponentView {
        ComponentView { kind: self.type_id, payload: (*self.data)@ }
    }
}

impl View for ComponentRef {
    type V = ComponentRefView;

    closed spec fn view(&self) -> ComponentRefView {
        ComponentRefView {
            shared: (*self.data)@,
            changed: match self.changed_data {
                Some(d) => Some(d@),
                None => None,
            },
        }
    }
}

impl ComponentView {
    /// What asking the component for a reference of the kind `type_id`
    /// gives: nothing if the component is of another kind, else a fresh
    /// reference over its value.
    pub open spec fn ref_of(self, type_id: ComponentTypeId) -> Option<ComponentRefView> {
        if self.kind == type_id {
            Some(ComponentRefView::fresh(self.payload))
        } else {
            None
        }
    }
}

impl Component {
    /// A component of the kind `T` with the given serialized value.
    pub fn new<T: ComponentType>(data: String) -> (c: Self)
        ensures
            c@ == (ComponentView { kind: type_id_of_name(T::canonical_name()), payload: data@ }),
    {
        Component::new_with_type_id(get_type_id::<T>(), data)
    }

    /// A component of the kind `type_id` with the given serialized value.
    pub fn new_with_type_id(type_id: ComponentTypeId, data: String) -> (c: Self)
        ensures
            c@ == (ComponentView { kind: type_id, payload: data@ }),
    {
        Component { type_id, data: Arc::new(data) }
    }

    pub fn get_type_id(&self) -> (t: ComponentTypeId)
        ensures
            t == self@.kind,
    {
        self.type_id
    }

    /// A reference to this component as a `T`: `None` if the component is of
    /// another kind, else a fresh reference that shares the value.
    pub fn get_ref<T: ComponentType>(&self) -> (r: Option<ComponentRef>)
        ensures
            match r {
                Some(x) => self@.ref_of(type_id_of_name(T::canonical_name())) == Some(x@),
                None => self@.ref_of(type_id_of_name(T::canonical_name())) is None,
            },
    {
        self.get_ref_with_type_id(get_type_id::<T>())
    }

    /// A reference to this component as the kind `type_id`: `None` if the
    /// component is of another kind, else a fresh reference that shares the
    /// value.
    pub fn get_ref_with_type_id(&self, type_id: ComponentTypeId) -> (r: Option<ComponentRef>)
        ensures
            match r {
                Some(x) => self@.ref_of(type_id) == Some(x@),
                None => self@.ref_of(type_id) is None,
            },
    {
        if self.type_id == type_id {
            Some(ComponentRef { data: share(&self.data), changed_data: None })
        } else {
            None
        }
    }

    /// The serialized form of this component.
    pub fn serialize(self) -> (s: String)
        ensures
            s@ == self@.payload,
    {
        let text: &String = &self.data;
        text.clone()
    }

    /// A second container for the same component; the value is shared, not
    /// copied.
    pub fn share(&self) -> (c: Self)
        ensures
            c@ == self@,
    {
        Component { type_id: self.type_id, data: share(&self.data) }
    }
}

impl ComponentRef {
    /// Reads the value: the private copy if there is one, else the shared
    /// value.
    pub fn get(&self) -> (v: &String)
        ensures
            v@ == self@.value(),
    {
        match &self.changed_data {
            Some(d) => d,
            None => &self.data,
        }
    }

    /// Whether a write has happened since the reference was made or cleared.
    pub fn is_changed(&self) -> (b: bool)
        ensures
            b == self@.changed.is_some(),
    {
        self.changed_data.is_some()
    }

    /// Opens the value for writing and hands out the slot to write to. The
    /// first call copies the shared value into the private slot; later calls
    /// hand out the same slot. The shared value stays as it is.
    pub fn get_mut(&mut self) -> (v: &mut String)
        ensures
            v@ == old(self)@.value(),
            final(self)@ == old(self)@.written(final(v)@),
    {
        if self.changed_data.is_none() {
            let text: &String = &self.data;
            self.changed_data = Some(text.clone());
        }
        match &mut self.changed_data {
            Some(d) => d,
            None => vstd::pervasive::unreached(),
        }
    }

    /// Discards the private copy: reads observe the shared value again.
    pub fn clear_changed_data(&mut self)
        ensures
            final(self)@ == old(self)@.cleared(),
    {
        self.changed_data = None;
    }
}

/// Copy-on-write isolation. Of two references made over one component, a
/// write through the second changes neither what the first reads nor the
/// value that both were made over; the second reads what was written, and
/// reads the untouched value again once its private copy is discarded.
pub proof fn lemma_copy_on_write_isolation(
    component: ComponentView,
    type_id: ComponentTypeId,
    value: Seq<char>,
)
    requires
        component.kind == type_id,
    ensures
        ({
            let first = component.ref_of(type_id).unwrap();
            let second = component.ref_of(type_id).unwrap().written(value);
            &&& first.value() == component.payload
            &&& second.value() == value
            &&& second.shared == component.payload
            &&& second.cleared().value() == component.payload
        }),
{
}

} // verus!
