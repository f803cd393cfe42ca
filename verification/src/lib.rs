pub mod index;
pub mod index_order;
pub mod record;
pub mod traits;
pub mod mem;
pub mod actor;
pub mod run;
pub mod bridge;
pub mod handler;
pub mod consumer;
