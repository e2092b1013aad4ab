//! The records of what a tick changed, as the server tells its clients:
//! component updates and block updates.

use vstd::prelude::*;
use crate::block_type::BlockTypeId;
use crate::chunk::Position;
use crate::component::ComponentTypeId;
use crate::entity_id::EntityId;

verus! {

/// The encoding of a component's value in an update.
pub type EncodingType = serde_json::Value;

/// What happened to one component of one entity.
pub struct ComponentUpdate {
    entity_id: EntityId,
    component_type_id: ComponentTypeId,
    component_update_type: ComponentUpdateType,
}

/// The kind of a component update, with the component's encoded value
/// where there is one.
pub enum ComponentUpdateType {
    Removed,
    Added { packet: EncodingType },
    Changed { packet: EncodingType },
}

impl ComponentUpdate {
    /// The entity of the update.
    pub closed spec fn entity(self) -> EntityId {
        self.entity_id
    }

    /// The component type of the update.
    pub closed spec fn component_type(self) -> ComponentTypeId {
        self.component_type_id
    }

    /// What the update says happened.
    pub closed spec fn update(self) -> ComponentUpdateType {
        self.component_update_type
    }

    pub fn new(entity: EntityId, component_type: ComponentTypeId, ctype: ComponentUpdateType) -> (r:
        Self)
        ensures
            r.entity() == entity,
            r.component_type() == component_type,
            r.update() == ctype,
    {
        ComponentUpdate {
            entity_id: entity,
            component_type_id: component_type,
            component_update_type: ctype,
        }
    }

    pub fn get_entity_id(&self) -> (e: EntityId)
        ensures
            e == self.entity(),
    {
        self.entity_id
    }

    pub fn get_component_type_id(&self) -> (t: ComponentTypeId)
        ensures
            t == self.component_type(),
    {
        self.component_type_id
    }

    pub fn get_component_update_info(&self) -> (u: &ComponentUpdateType)
        ensures
            *u == self.update(),
    {
        &self.component_update_type
    }
}

/// The block at a position is now of this type.
pub struct BlockUpdate {
    pub block_pos: Position,
    pub block_type_id: BlockTypeId,
}

} // verus!
