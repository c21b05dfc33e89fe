//! Names that the schema and the import agree on.

use vstd::prelude::*;

verus! {

/// Name of the table which contains all the elements.
pub const ELEMENTS_TABLE: &'static str = "elements";

/// Name of the table which contains all element to element relations.
pub const RELATIONS_TABLE: &'static str = "relations";

/// Name of the table which contains other 1:n properties of an element.
pub const EXTENDED_TABLE: &'static str = "extended_properties";

/// Name of the column which contains the primary key.
pub const ELEMENT_PK_COL: &'static str = "@id";

/// The one property that may hold either a literal or a reference.
pub const POLYMORPHIC_PROP: &'static str = "value";

/// Minimum time between two status reports, in milliseconds.
pub const TIME_BETWEEN_STATUS_REPORTS_MS: u64 = 5000;

/// Time between two looks at the progress of a retrieval, in milliseconds.
pub const MONITOR_POLL_MS: u64 = 500;

/// How many pages may wait between the one who fetches them and the one who
/// decodes them.
pub const PAGE_CHANNEL_CAPACITY: usize = 32;

/// Whether a property name is one of the known polymorphic properties.
pub open spec fn is_polymorphic(name: Seq<char>) -> bool {
    name == POLYMORPHIC_PROP@
}

/// Tells whether a property is known to be polymorphic.
pub fn is_polymorphic_prop(name: &str) -> (r: bool)
    ensures
        r == is_polymorphic(name@),
{
    *name == *POLYMORPHIC_PROP
}

} // verus!
