pub mod mem_portal;
pub mod AGU_unit;
pub mod flat_memory;
pub mod dram_tracker;
