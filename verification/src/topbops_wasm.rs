pub mod base;
pub mod bootstrap;
pub mod random;
pub mod tournament;
pub mod tournament_page;
