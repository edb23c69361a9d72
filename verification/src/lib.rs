//! Core logic of a tray dictionary popup for Japanese words: the model of a
//! dictionary search reply, the extraction of its entries, the lookup request,
//! the decisions taken on window messages, and the layout of the popup.

pub mod wide;
pub mod document;
pub mod dictionary;
pub mod layout;
pub mod popup;
pub mod messages;
pub mod tray;
pub mod resource_header;
