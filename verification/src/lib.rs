//! A verified core of a text-tokenization pipeline: pre-tokenizers that
//! split text into words with character offsets, sub-word models (BPE and
//! WordPiece) that map words to vocabulary ids, post-processors that
//! insert special tokens, decoders that reconstruct text, the `Encoding`
//! result record with its truncate/pad bookkeeping, batch-level truncation
//! and padding utilities, and the orchestrator composing them into
//! `encode` and `decode`.

pub mod chars;
pub mod tokenizer;
pub mod normalized;
pub mod encoding;
pub mod utils;
pub mod pre_tokenizers;
pub mod models;
pub mod processors;
pub mod decoders;
