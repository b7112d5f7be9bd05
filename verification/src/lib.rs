//! Interaction core of an HTML/CSS user-interface engine: text fields,
//! selects, focus order, reactive state, resource bookkeeping and the event
//! routing rules that sit between a windowing host and a document.

pub mod bridge;
pub mod clock;
pub mod effects;
pub mod entry;
pub mod errors;
pub mod events;
pub mod focus;
pub mod fonts;
pub mod hit;
pub mod img;
pub mod input;
pub mod inputs;
pub mod instance;
pub mod json;
pub mod keyboard;
pub mod net;
pub mod outbox;
pub mod painting;
pub mod pointer;
pub mod popup;
pub mod registry;
pub mod scene;
pub mod scrollbar;
pub mod select;
pub mod selects;
pub mod spinner;
pub mod state;
pub mod stylesheets;
pub mod table;
pub mod text;
pub mod touch;
pub mod urls;
pub mod winit_integration;
pub mod workflow;
