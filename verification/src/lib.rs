//! A toolchain for a web-application language: the engine that turns a
//! project directory into one compiled unit of source, and the rules of the
//! version manager around it.
//!
//! The engine works on texts. `discovery` names what the files of a project
//! are; `project_config` reads the project's settings; `component`, `page`
//! and `escape` compile markup into statements that build a string; and
//! `codegen` numbers the handlers and assembles the generated file. `text`
//! holds the operations on character sequences in which all of them are
//! specified.

pub mod text;
pub mod errors;
pub mod discovery;
pub mod escape;
pub mod component;
pub mod page;
pub mod project_config;
pub mod codegen;
pub mod version;
pub mod manager;
pub mod plugin;
pub mod scaffold;
