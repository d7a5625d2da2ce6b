//! Market-making core: order book snapshots and their updates, request kinds,
//! the triggers that wait for the request limit to recover, the start of a
//! strategy's trading decision, and the description of Serum markets read from
//! their accounts.

pub mod common;
pub mod request_type;
pub mod time;

pub mod order_book_data;
pub mod order_book_event;

pub mod trading_context;
pub mod trigger_scheduler;

pub mod decimal;
pub mod serum_market;
pub mod serum_support;
pub mod symbol;
pub mod text;
