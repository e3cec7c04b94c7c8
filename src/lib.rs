//! Entity management and relationship integrity for a small transit-booking
//! domain: administrators define routes, passengers register, book routes,
//! propose changes and vote on proposals.

pub mod error;
pub mod validation;
pub mod entities;
pub mod model;
pub mod store;
pub mod operations;
pub mod laws;
