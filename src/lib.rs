//! Checks that a directory of saved files holds byte-identical copies of a
//! directory of originals: entry selection, per-file comparison and the
//! pass/fail tally and the report lines, each with a contract proved by
//! Verus.
pub mod compare;
pub mod entries;
pub mod summary;
pub mod report;
