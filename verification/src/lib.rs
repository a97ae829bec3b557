//! Token matching for search-time scoring.
//!
//! A search query is turned into a set of match predicates: exact terms,
//! and patterns in which a wildcard stands for any run of characters. The
//! set is compiled once into a matcher. Each token of a document is then
//! looked up in the matcher, and a token that satisfies a predicate is
//! given a weight: the reciprocal of the number of documents it occurs in,
//! so that rare tokens weigh more.
//!
//! - [`pattern`] and [`predicate`] hold the predicates and the ordered set
//!   of them; [`order`] holds the order that the set is kept in.
//! - [`regex_util`] puts the predicates of a set in groups by where their
//!   wildcards stand, and [`expression`] holds what an expression is made
//!   of. [`shapes`] states the expression of each shape of predicate.
//! - [`regex_matcher`], [`automaton_matcher`] and [`hash_matcher`] are the
//!   three matchers. The first two write out the expression of a set and
//!   hand it to an engine; the third looks terms up in a table.
//! - [`score`] holds the weight, the source of document frequencies, and
//!   what a lookup promises whichever matcher answers it; [`term`] holds
//!   the term that the source is asked about.
//! - [`test_util`] builds predicate sets from plain strings, and
//!   [`perf_timer`] is a stopwatch.

pub mod automaton_matcher;
pub mod expression;
pub mod hash_matcher;
pub mod order;
pub mod pattern;
pub mod perf_timer;
pub mod predicate;
pub mod regex_matcher;
pub mod regex_util;
pub mod score;
pub mod shapes;
pub mod term;
pub mod test_util;
