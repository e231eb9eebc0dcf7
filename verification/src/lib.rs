pub mod flags;
pub mod laws;
pub mod params;
pub mod replies;
pub mod session;
pub mod tool_laws;
