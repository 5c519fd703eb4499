//! An engine for evolving agents: genetic operators on gene vectors,
//! feed-forward neural inference, and agents that decide, remember, connect
//! and interact within a society. The library is generic over the scalar
//! type of genes, weights and cognition; shapes, validation, selection and
//! bookkeeping are verified here, while the arithmetic on the scalars is
//! supplied by the caller.

pub mod activation;
pub mod agent;
pub mod error;
pub mod genetic;
pub mod neural;
pub mod sys;
pub mod text;
pub mod vecs;
