use crate::util::text::same_text;
use vstd::prelude::*;

verus! {

/// The drivers that there are.
#[derive(Debug, Clone, Copy, PartialEq, Eq, Hash, Structural)]
pub enum DriverKind {
    Nct6775,
}

/// The driver that is registered under `name`.
pub open spec fn registered(name: Seq<char>) -> Option<DriverKind> {
    if name == "nct6775"@ {
        Some(DriverKind::Nct6775)
    } else {
        None
    }
}

/// The driver that is registered under `name`, if there is one.
pub fn driver_registry_find(name: &str) -> (driver: Option<DriverKind>)
    ensures
        driver == registered(name@),
{
    if same_text(name, "nct6775") {
        Some(DriverKind::Nct6775)
    } else {
        None
    }
}

} // verus!
