//! Browsing an object store one level at a time, down to a console link.
//!
//! An operator picks a bucket, then descends through its folders by choosing
//! among the entries of one level after another, until the choice names an
//! object or an empty folder. The run ends with the link that opens it in
//! the web console.
//!
//! The library holds every decision of such a run and performs none of its
//! effects: [`navigation`] says what to ask of the store or of the operator
//! and what follows from the answer, [`listing`] turns the store's replies
//! into candidates, [`uri`] writes the link, [`path`] knows the delimiter and
//! [`config`] settles the region.

pub mod config;
pub mod listing;
pub mod navigation;
pub mod path;
pub mod uri;
