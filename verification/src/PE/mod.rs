pub mod types;
pub mod ALU;
pub mod RF;
pub mod ISSUE;
pub mod PE_utils;
pub mod EX;
pub mod pe_top;
