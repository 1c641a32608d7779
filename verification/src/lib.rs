//! A small virtual-DOM layer: requests describe the wanted tree, renders keep
//! what was built, and every update reports the changes as diffs.

pub mod change;
pub mod ast;
pub mod node;
pub mod render;
pub mod trial;
pub mod apply;
pub mod laws;
pub mod jade;
pub mod igloo;
pub mod codegen;

pub use change::{diff, ChildChange, Diffable, NodeChange, RenderResult, ToPlain, ToRender};
pub use node::compare_children;
pub use render::{
    compare_render_children, ComponentImpl, PreviousRender, RenderedComponent, Renderer,
    RequestedComponentImpl, UpdateResult,
};
