//! Holding mutation sites against the registry.
//!
//! A site is a violation when its field has a whitelist and the function
//! around it is not on it. A field without a whitelist is unrestricted.

use crate::registry::{FieldId, FieldKey, WhitelistRegistry, Whitelists};
use crate::scan::{site_views, MutationSite, SiteView};
use crate::syntax::Span;
use crate::whitelist::texts;
use vstd::prelude::*;
use vstd::string::StringExecFns;

verus! {

/// Whether the rule is on unless asked for. It is not: it restricts what
/// code is accepted, so a project opts in.
pub const ENABLED_BY_DEFAULT: bool = false;

/// How grave a diagnostic is.
#[derive(Clone, Copy, Debug, PartialEq, Eq, Structural)]
pub enum Severity {
    Note,
    Warning,
    Error,
}

/// A mutation of a field by a function that its whitelist does not permit.
#[derive(Debug, PartialEq, Eq)]
pub struct Violation {
    /// The mutated field.
    pub key: FieldKey,
    /// The function that mutates it.
    pub function: String,
    /// What the field's whitelist permits, in the order of declaration.
    pub permitted: Vec<String>,
    /// Where the mutation stands.
    pub span: Span,
}

/// A violation in contracts.
pub struct ViolationView {
    pub key: FieldId,
    pub function: Seq<char>,
    pub permitted: Seq<Seq<char>>,
    pub span: Span,
}

impl View for Violation {
    type V = ViolationView;

    open spec fn view(&self) -> ViolationView {
        ViolationView {
            key: self.key@,
            function: self.function@,
            permitted: texts(self.permitted@),
            span: self.span,
        }
    }
}

/// The views of a list of violations, in order.
pub open spec fn violation_views(violations: Seq<Violation>) -> Seq<ViolationView> {
    violations.map_values(|v: Violation| v@)
}

/// Whether `site` breaks the whitelists `lists`: its field has a whitelist,
/// and the function around it is not on it.
pub open spec fn violates(lists: Whitelists, site: SiteView) -> bool {
    lists.contains_key(site.key) && !lists[site.key].contains(site.function)
}

/// The violation that `site` is, if it is one.
pub open spec fn verdict(lists: Whitelists, site: SiteView) -> Option<ViolationView> {
    if violates(lists, site) {
        Some(
            ViolationView {
                key: site.key,
                function: site.function,
                permitted: lists[site.key],
                span: site.span,
            },
        )
    } else {
        None
    }
}

/// The violations among `sites`, one for each site that is one, in the
/// order of the sites.
pub open spec fn violations(lists: Whitelists, sites: Seq<SiteView>) -> Seq<ViolationView> {
    sites.filter_map(|s: SiteView| verdict(lists, s))
}

/// `names`, separated by a comma and a space.
pub open spec fn listing(names: Seq<Seq<char>>) -> Seq<char>
    decreases names.len(),
{
    if names.len() == 0 {
        Seq::empty()
    } else if names.len() == 1 {
        names[0]
    } else {
        listing(names.drop_last()) + ", "@ + names.last()
    }
}

/// The text of the diagnostic for a violation.
pub open spec fn message_text(v: ViolationView) -> Seq<char> {
    "field `"@ + v.key.0 + "."@ + v.key.1 + "` is mutated in `"@ + v.function
        + "`, which its whitelist does not permit; permitted: ["@ + listing(v.permitted) + "]"@
}

/// A copy of `names`.
fn copy_names(names: &Vec<String>) -> (copy: Vec<String>)
    ensures
        texts(copy@) == texts(names@),
{
    let mut copy: Vec<String> = Vec::new();
    let mut i: usize = 0;
    assert(texts(copy@) =~= texts(names@).take(0));
    while i < names.len()
        invariant
            i <= names.len(),
            texts(copy@) == texts(names@).take(i as int),
        decreases names.len() - i,
    {
        let ghost so_far = copy@;
        copy.push(names[i].clone());
        assert(texts(copy@) =~= texts(so_far).push(names@[i as int]@));
        assert(texts(names@).take(i + 1) =~= texts(names@).take(i as int).push(names@[i as int]@));
        i += 1;
    }
    assert(texts(names@).take(i as int) =~= texts(names@));
    copy
}

impl Violation {
    /// The severity at which a violation is reported: always a warning.
    pub fn severity(&self) -> (s: Severity)
        ensures
            s == Severity::Warning,
    {
        Severity::Warning
    }

    /// The text of the diagnostic: it names the field, the function that
    /// mutates it, and what the whitelist permits.
    pub fn message(&self) -> (text: String)
        ensures
            text@ == message_text(self@),
    {
        let mut names = String::new();
        let mut i: usize = 0;
        assert(texts(self.permitted@).take(0) =~= Seq::<Seq<char>>::empty());
        while i < self.permitted.len()
            invariant
                i <= self.permitted.len(),
                names@ == listing(texts(self.permitted@).take(i as int)),
            decreases self.permitted.len() - i,
        {
            if i > 0 {
                names.append(", ");
            }
            names.append(self.permitted[i].as_str());
            proof {
                let upto = texts(self.permitted@).take(i + 1);
                assert(upto.drop_last() =~= texts(self.permitted@).take(i as int));
                assert(upto.last() == self.permitted@[i as int]@);
                if i == 0 {
                    assert(names@ =~= upto[0]);
                }
            }
            i += 1;
        }
        assert(texts(self.permitted@).take(i as int) =~= texts(self.permitted@));
        let mut text = String::new();
        text.append("field `");
        text.append(self.key.owner());
        text.append(".");
        text.append(self.key.field());
        text.append("` is mutated in `");
        text.append(self.function.as_str());
        text.append("`, which its whitelist does not permit; permitted: [");
        text.append(names.as_str());
        text.append("]");
        assert(text@ =~= message_text(self@));
        text
    }
}

/// Holds one site against the registry.
pub fn judge(registry: &WhitelistRegistry, site: &MutationSite) -> (found: Option<Violation>)
    requires
        registry.wf(),
    ensures
        match found {
            Some(v) => verdict(registry@, site@) == Some(v@),
            None => verdict(registry@, site@) is None,
        },
{
    match registry.lookup(&site.key) {
        None => None,
        Some(whitelist) => {
            if whitelist.allows(site.function.as_str()) {
                None
            } else {
                Some(
                    Violation {
                        key: site.key.clone(),
                        function: site.function.clone(),
                        permitted: copy_names(whitelist.functions()),
                        span: site.span,
                    },
                )
            }
        },
    }
}

/// Holds every site against the registry. Each site is judged, whatever
/// the sites before it were found to be.
pub fn report(registry: &WhitelistRegistry, sites: &Vec<MutationSite>) -> (found: Vec<Violation>)
    requires
        registry.wf(),
    ensures
        violation_views(found@) == violations(registry@, site_views(sites@)),
{
    let mut found: Vec<Violation> = Vec::new();
    let mut i: usize = 0;
    assert(violation_views(found@) =~= violations(registry@, site_views(sites@).take(0)));
    while i < sites.len()
        invariant
            i <= sites.len(),
            registry.wf(),
            violation_views(found@) == violations(registry@, site_views(sites@).take(i as int)),
        decreases sites.len() - i,
    {
        let ghost upto = site_views(sites@).take(i + 1);
        assert(upto.drop_last() =~= site_views(sites@).take(i as int));
        assert(upto.last() == sites@[i as int]@);
        match judge(registry, &sites[i]) {
            Some(v) => {
                found.push(v);
            },
            None => {},
        }
        assert(violation_views(found@) =~= violations(registry@, upto));
        i += 1;
    }
    assert(site_views(sites@).take(i as int) =~= site_views(sites@));
    found
}

} // verus!
