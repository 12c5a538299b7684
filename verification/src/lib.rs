//! Small verified building blocks: a shared counter with worker fan-out and
//! join synchronisation, and a set of elementary data types and functions,
//! each with a machine-checked contract.

pub mod adder;
pub mod aggregator;
pub mod borrowing;
pub mod coins;
pub mod counter;
pub mod dice;
pub mod functions;
pub mod garden;
pub mod generics;
pub mod guess;
pub mod guessing_game;
pub mod gui;
pub mod inventory;
pub mod lifetimes;
pub mod lines;
pub mod minigrep;
pub mod numbers;
pub mod ownership;
pub mod race;
pub mod restaurant;
pub mod shoes;
pub mod slices;
pub mod smart_pointers;
pub mod text;
pub mod users;
pub mod web;
