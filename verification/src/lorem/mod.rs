//! A stand-in for an agent that answers every prompt with Lorem Ipsum text
//! instead of calling a real model, so that what is built on an agent can be
//! tried without one.

pub mod agent;
pub mod plan;
pub mod turn;
pub mod words;
