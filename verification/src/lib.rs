pub mod rating;
pub mod topbops;
pub mod topbops_wasm;
pub mod zeroflops;
pub mod text;
pub mod zeroflops_wasm;
pub mod sql;
pub mod zeroflops_web;
pub mod topbops_web;
pub mod smashsort;
pub mod spotify;
