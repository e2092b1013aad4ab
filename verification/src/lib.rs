//! World-state engine of a multiplayer game server.
//!
//! Entities and their components live in a remote key-value backend. This
//! crate holds everything that decides, and nothing that waits: the identity
//! layer, the type-erased component container with its copy-on-write
//! reference, the key space, the write-behind buffer, the read cache and the
//! query builder. The caller performs the backend round trips and hands the
//! replies back.
//!
//! - `entity_id`, `component`, `hashing`: identity, the component container
//!   and its reference.
//! - `keys`, `text`: the key space and the numbers in it.
//! - `backend`, `wire`: the commands, a model of what the backend does with
//!   them, and their form on the wire.
//! - `cache`, `server_world`, `change_tracker`: the world store.
//! - `query`: queries over the store.
//! - `consistency`: the laws that hold between store and backend.
//! - `raws`, `block_type`, `chunk`, `effect`, `resource`, `position` and the
//!   two message modules: descriptor records and plain game data.
//!
//! All of it is verified, but for the few functions that call into the
//! crates `redis`, `hashbrown`, `rand` and `serde_json`, or into the
//! standard library where it has no specification: none of those is public;
//! each holds nothing but the call that its doc comment names, or two such
//! calls in a row, and the doc comment says what is taken on trust.

pub mod backend;
pub mod block_type;
pub mod cache;
pub mod change_tracker;
pub mod chunk;
pub mod component;
pub mod consistency;
pub mod effect;
pub mod entity_id;
pub mod hashing;
pub mod keys;
pub mod position;
pub mod query;
pub mod raws;
pub mod resource;
pub mod server_request_type;
pub mod server_response_type;
pub mod server_world;
pub mod text;
pub mod wire;
