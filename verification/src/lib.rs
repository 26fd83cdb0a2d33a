//! Entities described in YAML: the document tree, the typed entity
//! descriptions decoded from it, and a table of entities with one slot per
//! component kind that the descriptions are spawned into.

pub mod components;
pub mod spawn;
pub mod systems;
pub mod table;
pub mod tree;
pub mod yaml;

pub use components::{Position, Scalar, Unit, Vehicle, Velocity};
pub use spawn::{spawn_from_yaml, spawn_yaml_entities};
pub use table::{ComponentKind, EntityId, EntityTable, Slots};
pub use yaml::{
    parse_entity_list, ParseError, ParseErrorKind, YamlComponent, YamlEntity, YamlEntityList,
};
