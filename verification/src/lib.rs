//! Bindings between Rust and Qt objects, generated from declarations.
//!
//! Objects are declared in a small language, inside `qobjects!` blocks
//! spread over the modules of a project:
//!
//! ```text
//! object Person {
//!     fields {
//!         qobject: QObject,
//!         name: String,
//!         age: u32,
//!     }
//! }
//! ```
//!
//! - [`parse`] turns such a text into tokens, then into objects as
//!   written, then into checked metadata ([`model`]), with [`check`] and
//!   [`types`] deciding what is accepted and [`diagnostic`] carrying what
//!   is not.
//! - [`crawl`] walks the modules of a project and collects the objects of
//!   all of them.
//! - [`gen`] and [`glue`] write the C++ and the Rust side of the bindings.
//! - [`install`], [`locate`] and [`builder`] describe the Qt installation
//!   that the bindings are built against, find it and plan the build.
//!
//! Nothing here reads a file, runs a program or prints: a caller hands
//! texts in and takes texts out.

pub mod builder;
pub mod check;
pub mod crawl;
pub mod diagnostic;
pub mod ext;
pub mod gen;
pub mod glue;
pub mod install;
pub mod locate;
pub mod model;
pub mod parse;
pub mod syntax;
pub mod text;
pub mod types;
