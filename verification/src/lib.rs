//! Deterministic call auctions.
//!
//! The crate is layered. [`auction`], [`discovery`] and [`allocation`] compute
//! clearing prices and fills. [`auction_book`] and the `book_` modules hold
//! collected orders and uncross them. [`auction_engine`] and the `engine_`
//! modules sequence commands through an explicit phase and cycle authority.
//! [`auction_risk`] and the `risk_` modules couple an engine to pre-trade risk.
//! The `market_data_` modules publish depth, rebuild it in replicas and replay
//! it. Modules that end in `_laws` state what holds across operations.

pub mod allocation;
pub mod allocation_laws;
pub mod auction;
pub mod auction_book;
pub mod auction_engine;
pub mod auction_risk;
pub mod audit_laws;
pub mod book_agreement;
pub mod book_audit;
pub mod book_interest;
pub mod book_laws;
pub mod book_lemmas;
pub mod book_links;
pub mod book_queries;
pub mod book_restore;
pub mod book_state;
pub mod book_types;
pub mod book_uncross;
pub mod chain;
pub mod checkpoint_laws;
pub mod clearing_laws;
pub mod collection_laws;
pub mod command_laws;
pub mod discovery;
pub mod discovery_laws;
pub mod domain;
pub mod engine_audit;
pub mod engine_checkpoint;
pub mod engine_commands;
pub mod engine_grammar;
pub mod engine_laws;
pub mod engine_projection;
pub mod engine_replay;
pub mod engine_types;
pub mod feed_laws;
pub mod instrument;
pub mod limit_laws;
pub mod market_data_laws;
pub mod market_data_publication;
pub mod market_data_publisher;
pub mod market_data_replay;
pub mod market_data_replica;
pub mod market_data_state;
pub mod market_data_types;
pub mod messages;
pub mod ordered_map;
pub mod phase_audit;
pub mod projection_laws;
pub mod publication_laws;
pub mod publisher_model;
pub mod publisher_refusals;
pub mod query_laws;
pub mod replica_batches;
pub mod restore_laws;
pub mod risk;
pub mod risk_apply;
pub mod risk_audit;
pub mod risk_checkpoint;
pub mod risk_checkpoint_laws;
pub mod risk_conditional;
pub mod risk_laws;
pub mod risk_ledger;
pub mod risk_managed;
pub mod risk_replay;
pub mod storage;
pub mod uncross_laws;
