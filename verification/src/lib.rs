//! A small feed-forward neural-network engine: dense tensors of rank one to
//! three, a perceptron with one hidden layer and sigmoid activations, and
//! online gradient-descent training.
//!
//! The engine is generic over its scalar type. Every contract relates the
//! values a function returns to the scalar operations that produced them, so
//! what is proved holds for any scalar, rounding and all.
pub mod activatio;
pub mod alea;
pub mod erratum;
pub mod magister;
pub mod neuronatus;
pub mod numerus;
pub mod tensor;
