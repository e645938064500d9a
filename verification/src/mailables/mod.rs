//! Common mailable types.
pub mod order_shipped;
pub mod password_reset;
pub mod welcome;
