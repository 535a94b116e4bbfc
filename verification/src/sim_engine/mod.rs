pub mod request_router;
pub mod engine_alloc;
pub mod engine;
pub mod sim;
pub mod timing_harness;
pub mod tick_shards;
pub mod sim_state;
pub mod host_pool;
pub mod cgo_commands;
