//! Small verified exercises: a line-search tool with its argument
//! resolver, Fibonacci numbers, a cumulative song, a quota tracker and a
//! guessing game.

pub mod arg;
pub mod casefold;
pub mod config;
pub mod fib;
pub mod fib_iterator;
pub mod guessing;
pub mod lines;
pub mod ownership;
pub mod quota;
pub mod scale;
pub mod search;
pub mod slicing;
pub mod song;
pub mod text;
