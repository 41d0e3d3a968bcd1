use vstd::prelude::*;

verus! {

/// Where a row of the table is read from: a local index into the primary container, or into
/// the secondary (body) container.
#[derive(Debug, Clone, Copy, PartialEq, Eq, Structural)]
pub enum RowLocation {
    Primary(usize),
    Secondary(usize),
}

/// The rows of the primary container come first, then those of the secondary one.
pub open spec fn location_of(index: nat, primary_rows: nat) -> RowLocation {
    if index < primary_rows {
        RowLocation::Primary(index as usize)
    } else {
        RowLocation::Secondary((index - primary_rows) as usize)
    }
}

/// The container and local index that the table's row `index` (0-based) is read from.
pub fn locate_row(index: usize, primary_rows: usize) -> (r: RowLocation)
    ensures
        r == location_of(index as nat, primary_rows as nat),
{
    if index < primary_rows {
        RowLocation::Primary(index)
    } else {
        RowLocation::Secondary(index - primary_rows)
    }
}

/// A secondary container is read only when its id is given and not empty.
pub fn uses_secondary(id: &Option<String>) -> (r: bool)
    ensures
        r == (id matches Some(s) && s@.len() > 0),
{
    match id {
        Some(s) => !s.as_str().is_empty(),
        None => false,
    }
}

} // verus!
