//! One local typed mailbox and the environment that an actor runs in.

pub mod admission;
pub mod environment;
pub mod ingress;
pub mod reference;
pub mod residual;
