//! The verified core of the Tunnelhunt desktop client.
//!
//! Everything that the client decides is decided here, on plain values: what a line of output
//! means, when a tunnel is set up again and when it is given up, what is shown of it, and who is
//! asked to stop. The caller runs processes, reads files and draws windows.
pub mod life;
pub mod monitor;
pub mod notice;
pub mod number;
pub mod paths;
pub mod preset;
pub mod registry;
pub mod session;
pub mod ssh;
pub mod text;
pub mod tray;
pub mod tunnel;
pub mod url;
