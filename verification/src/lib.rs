//! Turns the blocks of a Notion page into an HTML fragment.
//!
//! The work is done in two steps. [`intermediary::parse_blocks`] maps the
//! block records of the Notion API ([`notion`]) onto a small vocabulary of
//! blocks and inline runs ([`intermediary`]). [`html::from_blocks`] folds
//! neighbouring blocks of that vocabulary together ([`coalesce`]) and writes
//! the markup ([`html`]).
//!
//! Every type has a view over sequences, and every function says over these
//! views what it returns. Fetching a page and decoding it are left to the
//! caller, and so is what to do with the markup.
pub mod coalesce;
pub mod html;
pub mod intermediary;
pub mod notion;
