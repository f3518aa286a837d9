//! The data exchanged between the kernel and its clients, and the server-side
//! decisions on sessions and subscriptions.
pub mod subscription;
pub mod messages;
pub mod session;
pub mod server;
