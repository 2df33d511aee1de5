pub mod addr;
pub mod ctrl_msg;
pub mod engine;
pub mod laws;
pub mod model;
pub mod retry;
pub mod text;
pub mod wire;
