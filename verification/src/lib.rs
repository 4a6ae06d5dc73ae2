//! A clipboard history: what is kept, what is shown and what is decided.
//!
//! - [`store`] is the history with its settings; [`clip`], [`history`],
//!   [`search`], [`settings`] and [`schema`] say what it holds and what its
//!   operations mean; [`laws`] says what holds over several of them.
//! - [`image`] and [`digest`] handle the contents of clips, [`icon`] the icons.
//! - [`hotkey`] reads hotkeys, [`recorder`] records them, and [`hotkey_laws`]
//!   ties the two together.
//! - [`picker`], [`ui`] and [`session`] say what the program shows and decides
//!   while it runs, [`picker_laws`] what holds of what it shows, [`native`]
//!   what it decides on the side of the window system, and [`updater`] how it is
//!   updated.
//! - [`text`] and [`number`] are the ground on which the rest stands.
//!
//! The library does no input or output: it takes plain values, returns plain
//! values, and says what is to be done.

pub mod clip;
pub mod digest;
pub mod history;
pub mod hotkey;
pub mod hotkey_laws;
pub mod icon;
pub mod image;
pub mod laws;
pub mod native;
pub mod number;
pub mod picker;
pub mod picker_laws;
pub mod recorder;
pub mod schema;
pub mod search;
pub mod session;
pub mod settings;
pub mod store;
pub mod text;
pub mod ui;
pub mod updater;
