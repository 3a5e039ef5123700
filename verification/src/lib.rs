//! Core state engine for an interactive terminal viewer of streaming
//! structured (JSON) log lines: a bounded ingestion buffer, a regular
//! expression filter over the records, selection and viewport
//! synchronization, a dynamic column registry, and a nested-field explorer.

pub mod columns;
pub mod cursor;
pub mod display;
pub mod editor;
pub mod field_view;
pub mod json;
pub mod keys;
pub mod model;
pub mod pattern;
pub mod state;
pub mod text;

use vstd::prelude::*;

verus! {

/// True when `s` is strictly increasing.
pub open spec fn strictly_increasing(s: Seq<usize>) -> bool {
    forall|i: int, j: int| 0 <= i < j < s.len() ==> s[i] < s[j]
}

} // verus!
