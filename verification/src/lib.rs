//! Explains why a request failed to match each registered route: for every
//! (route, request) pair it builds a structured diff over method, path,
//! query and media type, and renders it as two highlighted lines.

mod builder;
mod classify;
mod media;
mod diff_record;
mod registry;
mod render;
mod model;
mod text_diff;

pub use builder::build;
pub use builder::lemma_build_deterministic;
pub use builder::spec_build;
pub use classify::path_diff;
pub use classify::query_diff;
pub use classify::spec_path_diff;
pub use classify::spec_query_diff;
pub use diff_record::DiffRecord;
pub use diff_record::MediaPartMatch;
pub use diff_record::MediaTypeDiff;
pub use diff_record::MethodDiff;
pub use diff_record::RecordV;
pub use diff_record::SegmentDiff;
pub use media::media_type_diff;
pub use media::spec_media_diff;
pub use model::MediaType;
pub use model::Method;
pub use model::QueryItem;
pub use model::Request;
pub use model::Route;
pub use model::RouteSeg;
pub use registry::RegistryBuilder;
pub use registry::RegistrySnapshot;
pub use registry::on_startup;
pub use registry::on_unmatched_request;
pub use render::Highlight;
pub use render::RenderedDiff;
pub use render::Span;
pub use render::lemma_full_match_renders_plain;
pub use render::render;
pub use render::spec_render;
pub use text_diff::EditOp;
pub use text_diff::EditOpV;
pub use text_diff::TEXT_CAP;
pub use text_diff::diff;
pub use text_diff::edit_distance;
pub use text_diff::lemma_diff_cost_is_distance;
pub use text_diff::lemma_diff_equal_strings;
pub use text_diff::lemma_diff_reconstructs;
pub use text_diff::script_cost;
pub use text_diff::spec_diff;
pub use text_diff::spec_distance;
