//! A verified Riichi Mahjong hand evaluator.
//!
//! The library models tiles and melds, enumerates every decomposition of a
//! hand into winning shapes, measures the distance to a ready hand with its
//! acceptance tiles, classifies waits, detects scoring patterns, and turns
//! han and fu into the final payment split. Each public function carries a
//! contract that states what it computes; the decomposer is proved to
//! return exactly the legal decompositions of its input.

pub mod context;
pub mod display;
pub mod evaluate;
pub mod hand;
pub mod parse;
pub mod scoring;
pub mod shanten;
pub mod tile;
pub mod wait;
pub mod yaku;
