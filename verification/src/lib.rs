//! Structural parser and catalog for markdown-authored code templates.
//!
//! Markdown documents are classified, section by section, into single-file
//! templates, trees of files sharing a destination root, and collections;
//! every entity gets a deterministic identifier derived from its heading
//! path, and a catalog aggregates many documents while enforcing global
//! identifier uniqueness and tree membership.

pub mod args_list;
pub mod catalog;
pub mod chars;
pub mod extract;
pub mod genargs;
pub mod id;
pub mod location;
pub mod listing;
pub mod md;
pub mod node;
pub mod parse;
pub mod placeholder;
pub mod project;
pub mod section;
pub mod tool;
pub mod types;

pub use args_list::{TemplateArg, TemplateArgType, TemplateArgs};
pub use catalog::{CatalogError, CatalogTree, Document, FileRef, IdRegistry, TemplateCatalog};
pub use genargs::{build_context_map, extract_positional_out, parse_arg_pair, parse_value};
pub use id::EntityId;
pub use location::{FormattedLocation, Location, Span};
pub use node::{inline_text, Block, Inline, ListItem};
pub use parse::{parse_document, parse_path_text, parse_str, ParseError, ParsedMarkdown};
pub use placeholder::{
    discover_placeholders, normalize_placeholder_name, scan_template, Placeholder,
    PlaceholderOccurrence,
};
pub use listing::{clean_description, detect_language, format_argument, format_path, is_inline_path_marker, line_of_offset, spaces};
pub use project::{Config, ConfigUser, Project};
pub use section::{is_allowed, make_sections_range, matches_subhead, Section};
pub use tool::{
    args_schema, ensure_required_args, json_type, output_schema, JsonMember, JsonValue,
    TemplateTool,
};
pub use types::{
    Arg, ArgKind, ArgKindAny, ArgKindBoolean, ArgKindNumber, ArgKindString, Output, OutputFile,
    OutputTree, Template, TemplateCollection, TemplateFile, TemplateFileKindFile, TemplateTree,
    TemplateTreeKindTree,
};
