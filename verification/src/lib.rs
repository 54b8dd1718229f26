//! Reading of scene descriptions for an offline renderer.
//!
//! A scene description is a text of directives: camera, sampler and film
//! options, transforms, nested attribute scopes, materials, textures, lights
//! and shapes. This library turns such a text into a [`RenderOptions`] value
//! that a rendering engine can consume. Reading runs in three steps, each a
//! function with a contract of its own: the text is cut into tokens, the
//! tokens are grouped into directives, and the directives are interpreted one
//! by one against a transform stack and a graphics-state stack.
//!
//! Numbers are kept as the decimal literals that the text holds, and a
//! transform is kept as the chain of directives that built it, so that the
//! library needs no rounding arithmetic: a renderer evaluates both.

pub mod directive;
pub mod error;
pub mod grammar;
pub mod graphics;
pub mod interpreter;
pub mod laws;
pub mod number;
pub mod options;
pub mod params;
pub mod parser;
pub mod text;
pub mod token;
pub mod transform;

pub use directive::{Directive, ObjectKind, Statement, StubKind};
pub use error::SceneError;
pub use graphics::{Binding, GraphicsStack, GraphicsState};
pub use interpreter::{load_scene, Failure, Interpreter, Phase};
pub use number::Number;
pub use options::{Catalog, Light, Primitive, RenderOptions, TextureKind};
pub use params::{Param, ParamSet, ParamValue};
pub use parser::parse_scene;
pub use transform::{Factor, Transform, TransformKind, TransformSet, TransformStack};
