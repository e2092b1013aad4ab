//! Records of uncommitted mutations: what changed, keyed by entity and
//! component kind.

use vstd::prelude::*;
use crate::component::{
    get_type_id, type_id_of_name, Component, ComponentType, ComponentTypeId, ComponentView,
};
use crate::entity_id::EntityId;

verus! {

/// A change of one kind of component, without the entity it belongs to.
pub struct Change(pub ChangeType, pub ComponentTypeId);

/// What happened to a component.
pub enum ChangeType {
    /// The component was attached, with this value.
    Add(Component),
    /// The component was taken away.
    Remove,
    /// The component's value was replaced by this one.
    Change(Component),
}

/// What a change is, with the component it carries seen by its view.
pub enum ChangeTypeView {
    Add(ComponentView),
    Remove,
    Change(ComponentView),
}

impl View for ChangeType {
    type V = ChangeTypeView;

    open spec fn view(&self) -> ChangeTypeView {
        match self {
            ChangeType::Add(c) => ChangeTypeView::Add(c@),
            ChangeType::Remove => ChangeTypeView::Remove,
            ChangeType::Change(c) => ChangeTypeView::Change(c@),
        }
    }
}

/// One dirty entry: a change and the instance it applies to.
pub struct ChangeTracker {
    change_type: ChangeType,
    key: (EntityId, ComponentTypeId),
}

/// What a dirty entry is.
pub struct ChangeTrackerView {
    pub change: ChangeTypeView,
    pub entity: EntityId,
    pub kind: ComponentTypeId,
}

impl View for ChangeTracker {
    type V = ChangeTrackerView;

    closed spec fn view(&self) -> ChangeTrackerView {
        ChangeTrackerView { change: self.change_type@, entity: self.key.0, kind: self.key.1 }
    }
}

impl ChangeTracker {
    /// The entry for a component of the kind `T`, with the serialized value
    /// `data`, newly attached to `entity_id`.
    pub fn new_add<T: ComponentType>(entity_id: EntityId, data: String) -> (r: Self)
        ensures
            r@ == Self::added(entity_id, type_id_of_name(T::canonical_name()), data@),
    {
        Self::new_add_with_type_id(entity_id, get_type_id::<T>(), data)
    }

    /// The entry for a component of the kind `component_type_id`, with the
    /// serialized value `data`, newly attached to `entity_id`.
    pub fn new_add_with_type_id(
        entity_id: EntityId,
        component_type_id: ComponentTypeId,
        data: String,
    ) -> (r: Self)
        ensures
            r@ == Self::added(entity_id, component_type_id, data@),
    {
        ChangeTracker {
            change_type: ChangeType::Add(Component::new_with_type_id(component_type_id, data)),
            key: (entity_id, component_type_id),
        }
    }

    /// The entry for the removal of the kind `component_type_id` from
    /// `entity_id`.
    pub fn new_remove(entity_id: EntityId, component_type_id: ComponentTypeId) -> (r: Self)
        ensures
            r@ == (ChangeTrackerView {
                change: ChangeTypeView::Remove,
                entity: entity_id,
                kind: component_type_id,
            }),
    {
        ChangeTracker { change_type: ChangeType::Remove, key: (entity_id, component_type_id) }
    }

    /// The entry for a new value `data` of the component of the kind `T` on
    /// `entity_id`.
    pub fn new_change<T: ComponentType>(entity_id: EntityId, data: String) -> (r: Self)
        ensures
            r@ == Self::changed(entity_id, type_id_of_name(T::canonical_name()), data@),
    {
        Self::new_change_with_type_id(entity_id, get_type_id::<T>(), data)
    }

    /// The entry for a new value `data` of the component of the kind
    /// `component_type_id` on `entity_id`.
    pub fn new_change_with_type_id(
        entity_id: EntityId,
        component_type_id: ComponentTypeId,
        data: String,
    ) -> (r: Self)
        ensures
            r@ == Self::changed(entity_id, component_type_id, data@),
    {
        ChangeTracker {
            change_type: ChangeType::Change(Component::new_with_type_id(component_type_id, data)),
            key: (entity_id, component_type_id),
        }
    }

    /// The entry that says: `kind` was attached to `entity` with `payload`.
    pub open spec fn added(
        entity: EntityId,
        kind: ComponentTypeId,
        payload: Seq<char>,
    ) -> ChangeTrackerView {
        ChangeTrackerView {
            change: ChangeTypeView::Add(ComponentView { kind, payload }),
            entity,
            kind,
        }
    }

    /// The entry that says: `kind` on `entity` now has the value `payload`.
    pub open spec fn changed(
        entity: EntityId,
        kind: ComponentTypeId,
        payload: Seq<char>,
    ) -> ChangeTrackerView {
        ChangeTrackerView {
            change: ChangeTypeView::Change(ComponentView { kind, payload }),
            entity,
            kind,
        }
    }

    pub fn get_entity_id(&self) -> (e: EntityId)
        ensures
            e == self@.entity,
    {
        self.key.0
    }

    pub fn get_component_type(&self) -> (t: ComponentTypeId)
        ensures
            t == self@.kind,
    {
        self.key.1
    }

    pub fn get_change_type(&self) -> (c: &ChangeType)
        ensures
            c@ == self@.change,
    {
        &self.change_type
    }

    pub fn get_key(&self) -> (k: (EntityId, ComponentTypeId))
        ensures
            k == (self@.entity, self@.kind),
    {
        self.key
    }
}

} // verus!
