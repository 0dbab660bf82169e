//! Retrieval and ranking engine for bibliographic records.
//!
//! The engine does two things. It ranks the records of a local index, by
//! fusing the ranking of a lexical index with that of a vector store, and it
//! merges what independent providers return for one query into a single
//! list without duplicates. Both end in a ranked list of [`apis::PaperResult`].
//!
//! Everything here works on plain values and is proved against its contract.
//! Reading and writing the stores and talking to providers is left to the
//! caller, who hands over what came back:
//!
//! - [`search`] merges provider answers: deduplication and ranking.
//! - [`index::hybrid`] fuses rankings by reciprocal rank fusion.
//! - [`index`] orders the steps that keep the two stores consistent, and
//!   [`index::fulltext`] and [`index::vectordb`] say what each store holds.
//! - [`ranking`] is the stable ordering that both rankings are built on.
//! - [`apis`] reads provider answers as records and builds the requests.
//! - [`config`] and [`tools`] decide what follows from settings and requests.
//! - [`text`] holds the text primitives, and [`embed`] the text that is
//!   embedded.

pub mod apis;
pub mod config;
pub mod embed;
pub mod index;
pub mod ranking;
pub mod search;
pub mod text;
pub mod tools;
