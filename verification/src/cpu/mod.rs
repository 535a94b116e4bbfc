pub mod pimcpu_types;
pub mod RF;
pub mod imem;
pub mod signal_scoreboard;
pub mod IF;
pub mod ID;
pub mod EX;
pub mod AGU;
pub mod MEM;
pub mod WB;
pub mod pipeline;
pub mod pipeline_util;
pub mod boot_fsm;
pub mod tick_check;
