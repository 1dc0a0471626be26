//! A record-query layer over a declarative data-description language:
//! a registry of named records split into two namespaces ("classes" and
//! "defs"), with name-based lookup, ordered bulk enumeration, and a
//! streaming query for all definitions derived from a named class.

mod names;
mod record;
mod record_keeper;

pub use names::name_seq;
pub use names::nul_free;
pub use names::str_nul_free;
pub use record::record_names;
pub use record::Record;
pub use record::RecordIterator;
pub use record::RecordMap;
pub use record_keeper::derived_names;
pub use record_keeper::derives_from;
pub use record_keeper::lemma_absent_name_not_found;
pub use record_keeper::lemma_derived_names_exact;
pub use record_keeper::lemma_enumeration_repeatable;
pub use record_keeper::lemma_no_derived_definitions;
pub use record_keeper::names_a_deriving_def;
pub use record_keeper::DefView;
pub use record_keeper::InvalidName;
pub use record_keeper::RecordKeeper;
pub use record_keeper::Registry;
