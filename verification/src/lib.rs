//! A binary search tree that is built once from a sorted sequence and then
//! shared without copying, in two forms: `node` owns its values, `ref_node`
//! refers to values that the caller owns. `laws` and `search_laws` prove what
//! holds of both. Around it stand a few plain record containers: an address
//! book, a thread of messages and its members, a list of user names, and
//! money in a currency.

pub mod address_book;
pub mod amount;
pub mod currency;
pub mod error;
pub mod gcd;
pub mod laws;
pub mod money;
pub mod node;
pub mod order;
pub mod ref_node;
pub mod search_laws;
pub mod thread;
pub mod user_names;
pub mod value;
