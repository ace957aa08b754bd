//! Control plane of a node-graph execution runtime.
//!
//! An editor compiles the graph that the user edits into a program and
//! evaluates it again and again while the user works. This library decides
//! when the program must be rebuilt ([`cache`]), carries requests to the
//! engine and results back ([`runtime_io`], [`messages`]), keeps account of
//! the evaluations in flight so that a result that arrives late never
//! replaces a newer one ([`ledger`], [`routing`], [`executor`]), turns each
//! result into what the editor is to do with it ([`router`], [`export`],
//! [`raster`], [`ascii`]), and rewrites a graph with recording taps so that
//! the value at every input can be inspected ([`network`], [`instrument`]),
//! with the proofs that the taps leave the outputs alone ([`evaluation`]) and
//! miss no input ([`coverage`]).
//!
//! Beside the runtime stand the rules of two parts of the editor that talk
//! to it: the torch tool ([`torch_tool`], [`shadow`]) and the properties
//! panel ([`properties_panel`]), and the alignments of set type
//! ([`typesetting`]).
//!
//! Real numbers pass through the library as bit patterns ([`render`]); it
//! never computes with them.

pub mod ascii;
pub mod cache;
pub mod coverage;
pub mod document;
pub mod evaluation;
pub mod executor;
pub mod export;
pub mod instrument;
pub mod ledger;
pub mod messages;
pub mod network;
pub mod properties_panel;
pub mod raster;
pub mod render;
pub mod router;
pub mod routing;
pub mod runtime_io;
pub mod shadow;
pub mod state;
pub mod text;
pub mod torch_tool;
pub mod typesetting;
