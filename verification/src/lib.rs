pub mod ascii;
pub mod client;
pub mod clock;
pub mod currency;
pub mod date;
pub mod history;
pub mod json;
pub mod state;
