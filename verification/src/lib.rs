//! A bill-splitting service core: users, groups and payments behind an
//! authorization-aware use-case layer, over a pluggable storage contract.

pub mod controllers;
pub mod entities;
pub mod memory;
pub mod repositories;
pub mod usecases;
