//! What holds of the rule for every registry, every list of sites and every
//! compilation unit.

use crate::extract::{
    annotated, annotation_lists, any_lists, is_whitelist, lemma_names_in_concat,
    lemma_whitelists_are_the_annotations, lemma_with_annotation, lemma_with_annotations, names_in,
    permits, whitelisted, whitelists_of, with_annotation, with_annotations,
};
use crate::lint::diagnostics_of;
use crate::registry::{names_for, FieldId, Whitelists};
use crate::report::{message_text, verdict, violates, violations, ViolationView};
use crate::scan::{sites_of, SiteView};
use crate::syntax::{Annotation, CompilationUnit};
use crate::whitelist::lemma_with_names_concat;
use vstd::prelude::*;

verus! {

/// Every violation was found at one of the sites, and that site breaks the
/// whitelists: its field has a whitelist, the function is not on it, and
/// the violation carries that whitelist and the site's span.
pub proof fn lemma_violation_has_its_site(lists: Whitelists, sites: Seq<SiteView>, i: int)
    requires
        0 <= i < violations(lists, sites).len(),
    ensures
        exists|j: int|
            0 <= j < sites.len() && violates(lists, #[trigger] sites[j]) && verdict(lists, sites[j])
                == Some(violations(lists, sites)[i]),
        lists.contains_key(violations(lists, sites)[i].key),
        !lists[violations(lists, sites)[i].key].contains(violations(lists, sites)[i].function),
        violations(lists, sites)[i].permitted == lists[violations(lists, sites)[i].key],
{
    let f = |s: SiteView| verdict(lists, s);
    let v = violations(lists, sites)[i];
    assert(sites.filter_map(f).contains(v));
    sites.lemma_filter_map_contains(f, v);
    let s = choose|s: SiteView| #[trigger] sites.contains(s) && f(s) == Some(v);
    let j = choose|j: int| 0 <= j < sites.len() && sites[j] == s;
    assert(violates(lists, sites[j]));
}

/// A field without a whitelist is never reported, however often and
/// wherever it is mutated.
pub proof fn lemma_unrestricted_field_is_silent(
    lists: Whitelists,
    sites: Seq<SiteView>,
    field: FieldId,
)
    requires
        !lists.contains_key(field),
    ensures
        forall|i: int|
            0 <= i < violations(lists, sites).len() ==> (#[trigger] violations(lists, sites)[i]).key
                != field,
{
    assert forall|i: int| 0 <= i < violations(lists, sites).len() implies (#[trigger] violations(
        lists,
        sites,
    )[i]).key != field by {
        lemma_violation_has_its_site(lists, sites, i);
    }
}

/// A mutation inside a function that the field's whitelist permits is never
/// reported.
pub proof fn lemma_permitted_function_is_silent(
    lists: Whitelists,
    sites: Seq<SiteView>,
    field: FieldId,
    function: Seq<char>,
)
    requires
        lists.contains_key(field),
        lists[field].contains(function),
    ensures
        forall|i: int|
            0 <= i < violations(lists, sites).len() ==> !({
                &&& (#[trigger] violations(lists, sites)[i]).key == field
                &&& violations(lists, sites)[i].function == function
            }),
{
    assert forall|i: int| 0 <= i < violations(lists, sites).len() implies !({
        &&& (#[trigger] violations(lists, sites)[i]).key == field
        &&& violations(lists, sites)[i].function == function
    }) by {
        lemma_violation_has_its_site(lists, sites, i);
    }
}

/// The sites are judged one by one: the violations of two lists of sites,
/// one after the other, are those of the first followed by those of the
/// second. No site changes what is found at another.
pub proof fn lemma_sites_are_judged_alone(lists: Whitelists, a: Seq<SiteView>, b: Seq<SiteView>)
    ensures
        violations(lists, a + b) == violations(lists, a) + violations(lists, b),
    decreases b.len(),
{
    if b.len() == 0 {
        assert(a + b =~= a);
        assert(violations(lists, a) + violations(lists, b) =~= violations(lists, a));
    } else {
        lemma_sites_are_judged_alone(lists, a, b.drop_last());
        assert((a + b).drop_last() =~= a + b.drop_last());
        assert((a + b).last() == b.last());
        assert(violations(lists, a + b) =~= violations(lists, a) + violations(lists, b));
    }
}

/// The sites among `sites` that break the whitelists, in order.
pub open spec fn offending(lists: Whitelists, sites: Seq<SiteView>) -> Seq<SiteView> {
    sites.filter(|s: SiteView| violates(lists, s))
}

/// Each site that breaks the whitelists is reported exactly once: there are
/// as many violations as such sites, and the violation at each position is
/// that of the site at the same position among them, with its span, its
/// field, its function and the field's whitelist.
pub proof fn lemma_one_violation_per_offending_site(lists: Whitelists, sites: Seq<SiteView>)
    ensures
        violations(lists, sites).len() == offending(lists, sites).len(),
        forall|i: int|
            0 <= i < offending(lists, sites).len() ==> {
                &&& violates(lists, #[trigger] offending(lists, sites)[i])
                &&& violations(lists, sites)[i].span == offending(lists, sites)[i].span
                &&& violations(lists, sites)[i].key == offending(lists, sites)[i].key
                &&& violations(lists, sites)[i].function == offending(lists, sites)[i].function
                &&& violations(lists, sites)[i].permitted == lists[offending(lists, sites)[i].key]
            },
    decreases sites.len(),
{
    reveal(Seq::filter);
    if sites.len() > 0 {
        lemma_one_violation_per_offending_site(lists, sites.drop_last());
    }
}

/// A single site that breaks the whitelists yields exactly one violation,
/// at that site's span; any other single site yields none.
pub proof fn lemma_single_site(lists: Whitelists, site: SiteView)
    ensures
        violates(lists, site) ==> violations(lists, seq![site]).len() == 1 && violations(
            lists,
            seq![site],
        )[0].span == site.span,
        !violates(lists, site) ==> violations(lists, seq![site]).len() == 0,
{
    Seq::lemma_filter_map_singleton(site, |s: SiteView| verdict(lists, s));
}

/// Two runs over the same compilation unit give the same diagnostics: as
/// many, in the same order, each with the same content and the same text.
pub proof fn lemma_runs_agree(
    unit: CompilationUnit,
    first: Seq<ViolationView>,
    second: Seq<ViolationView>,
)
    requires
        first == diagnostics_of(unit),
        second == diagnostics_of(unit),
    ensures
        first.len() == second.len(),
        forall|i: int| 0 <= i < first.len() ==> first[i] == second[i],
        forall|i: int| 0 <= i < first.len() ==> message_text(first[i]) == message_text(second[i]),
{
}

/// Two whitelist annotations on one field are worth one annotation that
/// lists the names of the first followed by the names of the second: the
/// registry that results is the same.
pub proof fn lemma_two_annotations_as_one(
    lists: Whitelists,
    field: FieldId,
    first: Annotation,
    second: Annotation,
    merged: Annotation,
)
    requires
        is_whitelist(first),
        is_whitelist(second),
        is_whitelist(merged),
        merged.args@ == first.args@ + second.args@,
    ensures
        with_annotations(lists, field, seq![first, second]) == with_annotation(lists, field, merged),
{
    let both = seq![first, second];
    assert(both.drop_last() =~= seq![first]);
    assert(both.drop_last().drop_last() =~= Seq::<Annotation>::empty());
    reveal_with_fuel(with_annotations, 3);
    let after_first = with_annotation(lists, field, first);
    assert(with_annotations(lists, field, both) == with_annotation(after_first, field, second));
    lemma_names_in_concat(first.args@, second.args@);
    lemma_with_names_concat(names_for(lists, field), names_in(first.args@), names_in(second.args@));
    assert(with_annotation(after_first, field, second) =~= with_annotation(lists, field, merged));
}

/// One whitelist annotation that lists, in whatever order, the names that
/// two annotations on the same field list between them, is worth those two:
/// the same fields have a whitelist, and the same functions are permitted.
pub proof fn lemma_annotations_count_as_their_union(
    lists: Whitelists,
    field: FieldId,
    first: Annotation,
    second: Annotation,
    merged: Annotation,
    two: Whitelists,
    one: Whitelists,
)
    requires
        is_whitelist(first),
        is_whitelist(second),
        is_whitelist(merged),
        names_in(merged.args@).to_set() == names_in(first.args@).to_set().union(
            names_in(second.args@).to_set(),
        ),
        two == with_annotations(lists, field, seq![first, second]),
        one == with_annotation(lists, field, merged),
    ensures
        forall|k: FieldId| #[trigger] two.contains_key(k) <==> one.contains_key(k),
        forall|k: FieldId, function: Seq<char>| #[trigger]
            permits(two, k, function) <==> permits(one, k, function),
{
    let both = seq![first, second];
    assert(is_whitelist(both[0]));
    assert forall|k: FieldId| #[trigger] two.contains_key(k) <==> one.contains_key(k) by {
        lemma_with_annotations(lists, field, both, k, Seq::empty());
        lemma_with_annotation(lists, field, merged, k, Seq::empty());
    }
    assert forall|k: FieldId, function: Seq<char>| #[trigger]
        permits(two, k, function) <==> permits(one, k, function) by {
        lemma_with_annotations(lists, field, both, k, function);
        lemma_with_annotation(lists, field, merged, k, function);
        let in_first = names_in(first.args@).contains(function);
        let in_second = names_in(second.args@).contains(function);
        assert(any_lists(both, function) <==> in_first || in_second) by {
            if in_first {
                assert(annotation_lists(both[0], function));
            }
            if in_second {
                assert(annotation_lists(both[1], function));
            }
        }
        assert(names_in(merged.args@).contains(function) <==> in_first || in_second) by {
            assert(names_in(merged.args@).to_set().contains(function) <==> names_in(
                first.args@,
            ).to_set().contains(function) || names_in(second.args@).to_set().contains(function));
        }
    }
}

/// Whitelists that cover the same fields and permit the same functions make
/// the same findings: as many violations, at the same sites, and each with
/// the same permitted names, whatever their order.
pub proof fn lemma_same_permissions_same_findings(
    first: Whitelists,
    second: Whitelists,
    sites: Seq<SiteView>,
)
    requires
        forall|k: FieldId| #[trigger] first.contains_key(k) <==> second.contains_key(k),
        forall|k: FieldId, function: Seq<char>| #[trigger]
            permits(first, k, function) <==> permits(second, k, function),
    ensures
        violations(first, sites).len() == violations(second, sites).len(),
        forall|i: int|
            0 <= i < violations(first, sites).len() ==> {
                &&& (#[trigger] violations(first, sites)[i]).key == violations(second, sites)[i].key
                &&& violations(first, sites)[i].function == violations(second, sites)[i].function
                &&& violations(first, sites)[i].span == violations(second, sites)[i].span
                &&& violations(first, sites)[i].permitted.to_set() == violations(
                    second,
                    sites,
                )[i].permitted.to_set()
            },
    decreases sites.len(),
{
    if sites.len() > 0 {
        let last = sites.last();
        lemma_same_permissions_same_findings(first, second, sites.drop_last());
        assert(violates(first, last) <==> violates(second, last)) by {
            assert(permits(first, last.key, last.function) <==> permits(
                second,
                last.key,
                last.function,
            ));
        }
        if violates(first, last) {
            assert forall|function: Seq<char>|
                first[last.key].to_set().contains(function) <==> second[last.key].to_set().contains(
                    function,
                ) by {
                assert(permits(first, last.key, function) <==> permits(second, last.key, function));
            }
            assert(first[last.key].to_set() =~= second[last.key].to_set());
        }
    }
}

/// The mutation sites of `unit` that its annotations forbid: the field is
/// annotated, and no whitelist annotation on it lists the function.
pub open spec fn forbidden_sites(unit: CompilationUnit) -> Seq<SiteView> {
    sites_of(unit).filter(
        |s: SiteView| annotated(unit, s.key) && !whitelisted(unit, s.key, s.function),
    )
}

/// A field that carries no whitelist annotation is never diagnosed, however
/// often and wherever the unit mutates it.
pub proof fn lemma_unannotated_field_is_never_diagnosed(unit: CompilationUnit, field: FieldId)
    requires
        !annotated(unit, field),
    ensures
        forall|i: int|
            0 <= i < diagnostics_of(unit).len() ==> (#[trigger] diagnostics_of(unit)[i]).key
                != field,
{
    lemma_whitelists_are_the_annotations(unit, field, Seq::empty());
    lemma_unrestricted_field_is_silent(whitelists_of(unit), sites_of(unit), field);
}

/// A mutation inside a function that some whitelist annotation on the field
/// lists is never diagnosed.
pub proof fn lemma_whitelisted_function_is_never_diagnosed(
    unit: CompilationUnit,
    field: FieldId,
    function: Seq<char>,
)
    requires
        whitelisted(unit, field, function),
    ensures
        forall|i: int|
            0 <= i < diagnostics_of(unit).len() ==> !({
                &&& (#[trigger] diagnostics_of(unit)[i]).key == field
                &&& diagnostics_of(unit)[i].function == function
            }),
{
    lemma_whitelists_are_the_annotations(unit, field, function);
    lemma_permitted_function_is_silent(whitelists_of(unit), sites_of(unit), field, function);
}

/// Filtering by two conditions that agree on every element gives the same.
proof fn lemma_filter_agrees<A>(s: Seq<A>, p: spec_fn(A) -> bool, q: spec_fn(A) -> bool)
    requires
        forall|x: A| #[trigger] p(x) == q(x),
    ensures
        s.filter(p) == s.filter(q),
    decreases s.len(),
{
    reveal(Seq::filter);
    if s.len() > 0 {
        lemma_filter_agrees(s.drop_last(), p, q);
    }
}

/// Each mutation that the annotations forbid is diagnosed exactly once: the
/// diagnostics are as many as the forbidden sites, and the diagnostic at
/// each position is that of the forbidden site at the same position.
pub proof fn lemma_each_forbidden_mutation_is_diagnosed_once(unit: CompilationUnit)
    ensures
        diagnostics_of(unit).len() == forbidden_sites(unit).len(),
        forall|i: int|
            0 <= i < forbidden_sites(unit).len() ==> {
                &&& (#[trigger] diagnostics_of(unit)[i]).span == forbidden_sites(unit)[i].span
                &&& diagnostics_of(unit)[i].key == forbidden_sites(unit)[i].key
                &&& diagnostics_of(unit)[i].function == forbidden_sites(unit)[i].function
            },
{
    let lists = whitelists_of(unit);
    let p = |s: SiteView| violates(lists, s);
    let q = |s: SiteView| annotated(unit, s.key) && !whitelisted(unit, s.key, s.function);
    assert forall|s: SiteView| #[trigger] p(s) == q(s) by {
        lemma_whitelists_are_the_annotations(unit, s.key, s.function);
    }
    lemma_filter_agrees(sites_of(unit), p, q);
    lemma_one_violation_per_offending_site(lists, sites_of(unit));
    assert(offending(lists, sites_of(unit)) == forbidden_sites(unit));
    assert forall|i: int| 0 <= i < forbidden_sites(unit).len() implies {
        &&& (#[trigger] diagnostics_of(unit)[i]).span == forbidden_sites(unit)[i].span
        &&& diagnostics_of(unit)[i].key == forbidden_sites(unit)[i].key
        &&& diagnostics_of(unit)[i].function == forbidden_sites(unit)[i].function
    } by {
        assert(violates(lists, offending(lists, sites_of(unit))[i]));
    }
}

} // verus!
