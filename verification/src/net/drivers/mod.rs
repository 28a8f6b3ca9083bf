//! Network interface card drivers

pub mod intel;
