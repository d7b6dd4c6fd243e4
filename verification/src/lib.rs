use vstd::prelude::*;

pub mod agent_requests;
pub mod attachments;
pub mod chat_content;
pub mod chat_stream;
pub mod codecs;
pub mod data_urls;
pub mod editor_commit;
pub mod editor_input;
pub mod editor_operations;
pub mod editor_snapshot;
pub mod editor_state;
pub mod effect_model;
pub mod effect_rules;
pub mod effect_validator;
pub mod file_prep;
pub mod file_upload;
pub mod json;
pub mod log_format;
pub mod log_listing;
pub mod log_requests;
pub mod lore_selection;
pub mod log_query;
pub mod preset_merge;
pub mod preset_names;
pub mod provider_bodies;
pub mod provider_responses;
pub mod provider_routing;
pub mod quantity;
pub mod sampling;
pub mod sse;
pub mod stable_order;
pub mod temporal_validator;
pub mod text;
pub mod turn_model;
pub mod turn_rules;
pub mod turn_validator;
pub mod world_editor;
pub mod words;
pub mod world_ids;
pub mod world_model;
pub mod world_patch;
pub mod worldbook_refs;

verus! {

} // verus!
