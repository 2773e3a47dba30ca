//! An unbounded multi-producer, single-consumer channel, with small verified
//! data structures and algorithms around it.

pub mod channel;
pub mod stack;
pub mod deque;
pub mod queue;
pub mod art;
pub mod fibonacci;
pub mod mode;
pub mod quota;
pub mod blog;
pub mod hello;
pub mod sort;
pub mod pig_latin;
pub mod text;
pub mod life;
pub mod split;
pub mod gui;
pub mod grep;
pub mod borrow;
