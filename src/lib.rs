//! A node-graph editor core: graph state, node layout, content composition
//! and pointer interaction, on fixed-point integer geometry.
pub mod audio_graph;
pub mod configuration;
pub mod content;
pub mod geometry;
pub mod layout_node;
pub mod node;
pub mod plugin;
pub mod ports;
pub mod state;

pub use audio_graph::{AudioGraph, DragEvent, Output};
pub use configuration::Configuration;
pub use content::{Content, ContentLayout, TitleBarArea};
pub use geometry::{Length, Limits, Point, Rectangle, Size, UNIT};
pub use layout_node::{LayoutNode, LayoutWord};
pub use node::Node;
pub use plugin::{crate_version_to_vst_format, AudioGraphStyle, Gui};
pub use ports::{Connectors, PortType, Ports};
pub use state::{Action, Internal, State};
