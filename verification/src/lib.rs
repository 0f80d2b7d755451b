//! Conversion of Markdown text into a forest of typed element/text
//! nodes, suitable for rendering by a JSX-like consumer.
//!
//! The conversion is a single pass over the structural event stream of a
//! Markdown parser: a tree builder maintains an explicit open-node stack
//! and emits the finished forest, delegating raw-HTML fragments to a
//! pure tag recognizer and an allow-list gate.

pub mod ast;
pub mod builder;
pub mod events;
pub mod recognizer;
pub mod text;

pub use ast::Node;
pub use ast::Prop;
pub use ast::PropValue;
pub use ast::SpecNode;
pub use ast::SpecPropValue;
pub use ast::TranspileOptions;
pub use builder::build_tree;
pub use builder::parse;
pub use events::Construct;
pub use events::MdEvent;
pub use recognizer::Recognized;
pub use recognizer::parse_html_tag;
