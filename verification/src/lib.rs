//! Inventory allocation: order lines are allocated against batches of stock,
//! in-stock batches before shipments and earlier shipments before later ones.
//!
//! Every function of this crate is verified against the contract it states.
//! Contracts are written over the mathematical views of the data types:
//! an order line is a triple, a batch holds a finite set of order lines,
//! a product holds a sequence of batches and a repository is a map from
//! SKU to product.

pub mod date;
pub mod allocate;
pub mod domain;
pub mod repo;
pub mod services;
