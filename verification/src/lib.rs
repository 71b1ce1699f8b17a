//! A personal timetable: a registry of named classes, a sparse grid that
//! assigns classes to (day, period) slots, the text grid that shows it, the
//! line-oriented session that fills it, and the document that stores it.

pub mod text;
pub mod registry;
pub mod grid;
pub mod timetable;
pub mod render;
pub mod document;
pub mod request;
pub mod session;

pub use crate::document::Document;
pub use crate::grid::{BoundingBox, ScheduleGrid, Span};
pub use crate::registry::{Class, ClassRegistry, NameRepeated, NameTaken};
pub use crate::render::Rendering;
pub use crate::request::{Placement, Refusal, Slot};
pub use crate::session::{mass_add, step, Notice, SessionState, Step};
pub use crate::timetable::Timetable;
