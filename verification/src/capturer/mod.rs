pub mod included;
pub mod object;
