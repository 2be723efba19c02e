//! Unsigned integers of widths between the native ones (24, 40, 48, 56, 72,
//! 80, 88, 96, 104, 112 and 120 bits), stored in exactly as many bytes as
//! they need.
pub mod encoding;
pub mod arith;
pub mod bitcount;
pub mod convert;
pub mod host;
pub mod radix;
pub mod laws;
mod uint24;
mod uint40;
mod uint48;
mod uint56;
mod uint72;
mod uint80;
mod uint88;
mod uint96;
mod uint104;
mod uint112;
mod uint120;
pub use uint24::u24;
pub use uint40::u40;
pub use uint48::u48;
pub use uint56::u56;
pub use uint72::u72;
pub use uint80::u80;
pub use uint88::u88;
pub use uint96::u96;
pub use uint104::u104;
pub use uint112::u112;
pub use uint120::u120;
