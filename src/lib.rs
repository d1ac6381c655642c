//! Streaming quality-control statistics over FASTQ records.
//!
//! Records are read four lines at a time and handed, in order, to a registry of
//! statistics (per-position and per-read quality means, nucleotide composition, GC
//! content, read lengths). Each statistic is characterized by the sequence of records
//! it has seen: its accumulators and its finalized result are stated as functions of
//! that sequence and proved to match it.
pub mod phred;
pub mod record;
pub mod statistics;
pub mod runner;
pub mod getinfo;
pub mod quantity;
