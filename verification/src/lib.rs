pub mod alert;
pub mod battery;
pub mod clock;
pub mod errors;
pub mod health;
pub mod history;
pub mod optimize;
pub mod parse;
pub mod power;
pub mod text;
