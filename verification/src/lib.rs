//! Linking and resolution of a game's power tables.
//!
//! The tables of a game (character classes, power categories, power sets,
//! powers, villain definitions, enhancement sets) are read independently of
//! one another, and their records refer to each other by name. This library
//! merges them into one dictionary:
//!
//! - archetypes are matched to the power categories that they name
//!   ([`matcher`]);
//! - the categories at the top level are chosen, power sets are left out by
//!   pattern, and categories, power sets and powers are linked
//!   ([`assemble`]);
//! - what the top-level categories hold is included in the output
//!   ([`cascade`]);
//! - redirects and entity grants are followed from included powers until
//!   nothing new is reached ([`resolve`], [`grants`], [`load`]);
//! - the powers of some categories are set right ([`fixups`]).
//!
//! Every table is a [`keyed::Keyed`] table: the records stand in one list, in
//! the order in which they were inserted, and are found by a name key that
//! ignores case ([`namekey`]). A record refers to another by the position of
//! that record in its table, so no record is shared and none is ever moved.
//!
//! The records are those of [`structs`], and [`config`] holds what the user
//! configures. What resolution does is stated over the marks that it writes
//! (see [`marks`]); [`laws`], [`monotone`], [`closure`], [`reasons`],
//! [`ranges`] and [`linked`] prove what holds of the result whatever the
//! input, and [`pending`] counts what is left to resolve. The rest of the library names what the tables hold
//! ([`enums`], [`attribs`], [`flags`]) and prepares the documents that are
//! put out ([`output`], [`output_sets`], [`requirements`], [`icons`],
//! [`text`]).

pub mod assemble;
pub mod attribs;
pub mod cascade;
pub mod closure;
pub mod config;
pub mod enums;
pub mod fixups;
pub mod flags;
pub mod grants;
pub mod icons;
pub mod keyed;
pub mod laws;
pub mod linked;
pub mod load;
pub mod marks;
pub mod matcher;
pub mod monotone;
pub mod namekey;
pub mod output;
pub mod output_sets;
pub mod pending;
pub mod ranges;
pub mod reasons;
pub mod requirements;
pub mod resolve;
pub mod structs;
pub mod text;
