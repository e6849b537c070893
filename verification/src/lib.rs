//! Logic of a rendering engine's object model: entity identifiers, the
//! entity-component store, sortable entity groups, frame changes of entities, packed
//! texture locations, model instance bookkeeping, the assignment of shadow maps to lights,
//! std140 uniform-block layouts, generated shader interface text, the layout of recorded
//! play instances, the frames of a recorded play and the choice of the texture array that
//! wastes least space.

pub mod entity_id;
pub mod round_robin_indexer;
pub mod model_definitions;
pub mod collections;
pub mod component_storage;
pub mod components;
pub mod decimal;
pub mod type_identifier;
pub mod sorted_entities;
pub mod ecs;
pub mod entity_change_request;
pub mod uniform_layout;
pub mod shader_text;
pub mod shadow_flow;
pub mod model_storage;
pub mod logic_flow;
pub mod game_loader;
pub mod texture_choice;
pub mod playback;
