//! The rule as a whole: collect the whitelists, find the mutation sites, and
//! report each site that its field's whitelist does not permit.

use crate::extract::{collect_whitelists, whitelists_of};
use crate::report::{report, violation_views, violations, Violation, ViolationView};
use crate::scan::{scan, sites_of};
use crate::syntax::CompilationUnit;
use vstd::prelude::*;

verus! {

/// The diagnostics of a compilation unit: its mutation sites held against
/// its whitelists.
pub open spec fn diagnostics_of(unit: CompilationUnit) -> Seq<ViolationView> {
    violations(whitelists_of(unit), sites_of(unit))
}

/// Checks a compilation unit. Every whitelist is collected before any
/// function body is looked at; then every body is walked, and every mutation
/// site is judged. The violations come in the order of the sites.
pub fn check_crate(unit: &CompilationUnit) -> (found: Vec<Violation>)
    ensures
        violation_views(found@) == diagnostics_of(*unit),
{
    let registry = collect_whitelists(unit);
    let sites = scan(unit);
    report(&registry, &sites)
}

} // verus!
