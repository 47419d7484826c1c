//! The decisions of an on-screen display window: what it shows for each kind
//! of event, and how it slides in, stays, and slides out.
pub mod content;
pub mod slide;
pub mod text;
pub mod window;
pub mod laws;
pub mod cubic;
