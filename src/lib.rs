//! A tracker of completed hikes: tracker documents that own an ordered list
//! of hikes, kept in a store where names are unique, and the HTML fragments
//! that display and edit them, each naming its next legal transition.
pub mod html;
pub mod model;
pub mod store;
pub mod view;
