//! Invoice-text processing: vendor classification, pattern-based field
//! extraction with per-field alerts, total panic-free sorting by date,
//! amount or client, and tabular / CSV export.

pub mod clasificar;
pub mod claves;
pub mod extraer;
pub mod ordenar;
pub mod patrones;
pub mod tabla;
pub mod texto;
