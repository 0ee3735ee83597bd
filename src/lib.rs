pub mod text;
pub mod model;
pub mod ics;
pub mod dom;
pub mod session;
