//! BevyForge editor core: the wire vocabulary shared by editor and engine,
//! message framing, the undo history, the cargo diagnostics model, the
//! offline scene hierarchy, the runtime supervisor's decisions and the
//! project model.

pub mod text;
pub mod ipc;
pub mod names;
pub mod undo;
pub mod frame;
pub mod diagnostics;
pub mod scene;
pub mod paths;
pub mod project;
pub mod runtime;
pub mod lifecycle;
pub mod clock;
pub mod report;
pub mod ui;
pub mod args;
pub mod inspector;
pub mod editor;
pub mod assets;
