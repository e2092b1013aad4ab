//! Block type definitions, as read from the descriptor files.

use vstd::prelude::*;
use crate::effect::Effect;
use crate::hashing::{string_hash, string_hash_spec};
use crate::resource::ResourceId;

verus! {

/// Identifies a block type: the hash of its canonical name.
pub type BlockTypeId = u64;

/// The layer that a block occupies.
#[derive(Clone, Debug)]
pub enum BlockLayer {
    Ground,
    Solid,
    Water,
    Pit,
    Effect(Effect),
}

/// The definition of one type of block.
#[derive(Debug)]
pub struct BlockType {
    canonical_name: String,
    descriptive_name: String,
    layer: BlockLayer,
    resource: ResourceId,
}

impl BlockType {
    /// The name that the block type's id is derived from.
    pub closed spec fn canonical_name(self) -> Seq<char> {
        self.canonical_name@
    }

    /// The name shown to players.
    pub closed spec fn descriptive_name(self) -> Seq<char> {
        self.descriptive_name@
    }

    /// The layer of blocks of this type.
    pub closed spec fn layer(self) -> BlockLayer {
        self.layer
    }

    /// The resource that blocks of this type are drawn with.
    pub closed spec fn resource(self) -> ResourceId {
        self.resource
    }

    /// The block type with the given fields.
    pub fn from_parts(
        canonical_name: String,
        descriptive_name: String,
        layer: BlockLayer,
        resource: ResourceId,
    ) -> (b: Self)
        ensures
            b.canonical_name() == canonical_name@,
            b.descriptive_name() == descriptive_name@,
            b.layer() == layer,
            b.resource() == resource,
    {
        BlockType { canonical_name, descriptive_name, layer, resource }
    }

    pub fn get_canonical_name(&self) -> (s: &str)
        ensures
            s@ == self.canonical_name(),
    {
        self.canonical_name.as_str()
    }

    /// The id of this block type: the hash of its canonical name, by the
    /// rule that component type ids follow too.
    pub fn get_id(&self) -> (id: BlockTypeId)
        ensures
            id == string_hash_spec(self.canonical_name()),
    {
        string_hash(self.canonical_name.as_str())
    }

    pub fn get_descriptive_name(&self) -> (s: &str)
        ensures
            s@ == self.descriptive_name(),
    {
        self.descriptive_name.as_str()
    }

    pub fn get_layer(&self) -> (l: BlockLayer)
        ensures
            l == self.layer(),
    {
        match &self.layer {
            BlockLayer::Ground => BlockLayer::Ground,
            BlockLayer::Solid => BlockLayer::Solid,
            BlockLayer::Water => BlockLayer::Water,
            BlockLayer::Pit => BlockLayer::Pit,
            BlockLayer::Effect(e) => BlockLayer::Effect(*e),
        }
    }

    pub fn get_resource(&self) -> (r: ResourceId)
        ensures
            r == self.resource(),
    {
        self.resource
    }
}

} // verus!
