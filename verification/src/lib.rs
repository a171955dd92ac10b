//! Black-Scholes-Merton pricing of European vanilla options over a
//! fixed-point number representation, together with a Newton-Raphson
//! implied-volatility solver.
//!
//! A quantity `x: i64` stands for the real number `x / SCALE`, giving nine
//! decimal digits after the point. All arithmetic truncates toward zero, and
//! every public pricing method reports exactly when a result is returned and
//! which error comes back otherwise.

pub mod fixed;
pub mod laws;
pub mod normal;
pub mod pricer;

pub use fixed::SCALE;
pub use pricer::EuropeanOption;
pub use pricer::PriceError;
