//! The application layer of the desktop client: the server-driven UI state
//! machine.
//!
//! The frontend is a thin renderer. It asks for a view to draw and sends
//! [`action::Action`]s back. [`state::AppState`] reduces those actions: a
//! navigation action changes the selection, a data action becomes a
//! [`action::Request`] for the tasks daemon, and the rendered screen is derived
//! from the selection plus what the daemon reports.

pub mod action;
pub mod route;
pub mod state;
pub mod view;
