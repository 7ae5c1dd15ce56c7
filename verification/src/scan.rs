//! Finding the places where a field is mutated.
//!
//! A field is mutated where it is the target of an assignment or of a
//! compound assignment, and where a mutable borrow of it is an argument of a
//! call. Each such place is laid to the innermost function around it. A
//! place whose owner has no resolved type is passed over.

use crate::registry::{FieldId, FieldKey};
use crate::syntax::{CompilationUnit, Expr, Function, Item, Span};
use vstd::prelude::*;

verus! {

/// A place where a field is mutated.
#[derive(Debug, PartialEq, Eq)]
pub struct MutationSite {
    /// The mutated field.
    pub key: FieldKey,
    /// The innermost function around the mutation.
    pub function: String,
    /// Where the mutation stands: the assignment, or the borrow.
    pub span: Span,
}

/// A mutation site in contracts.
pub struct SiteView {
    pub key: FieldId,
    pub function: Seq<char>,
    pub span: Span,
}

impl View for MutationSite {
    type V = SiteView;

    open spec fn view(&self) -> SiteView {
        SiteView { key: self.key@, function: self.function@, span: self.span }
    }
}

/// The views of a list of sites, in order.
pub open spec fn site_views(sites: Seq<MutationSite>) -> Seq<SiteView> {
    sites.map_values(|s: MutationSite| s@)
}

/// The site that a write to `place` at `span` makes inside `function`: one
/// if `place` is a field of an owner of known type, none otherwise.
pub open spec fn write_to(place: Expr, function: Seq<char>, span: Span) -> Seq<SiteView> {
    match place {
        Expr::Field { owner_type: Some(owner), field, .. } => seq![
            SiteView { key: (owner@, field@), function, span },
        ],
        _ => Seq::empty(),
    }
}

/// The site that handing `arg` to a call makes inside `function`: that of a
/// write to the borrowed place if `arg` is a mutable borrow, none otherwise.
pub open spec fn lend(arg: Expr, function: Seq<char>) -> Seq<SiteView> {
    match arg {
        Expr::MutBorrow { place, span } => write_to(*place, function, span),
        _ => Seq::empty(),
    }
}

/// The mutation sites in `e`, which stands directly in `function`: that of
/// `e` itself first, then those of its parts in source order. What is inside
/// a nested function is laid to that function.
pub open spec fn sites_in(e: Expr, function: Seq<char>) -> Seq<SiteView>
    decreases e,
{
    match e {
        Expr::Assign { target, value, span } => write_to(*target, function, span) + sites_in(
            *target,
            function,
        ) + sites_in(*value, function),
        Expr::AssignOp { target, value, span } => write_to(*target, function, span) + sites_in(
            *target,
            function,
        ) + sites_in(*value, function),
        Expr::Field { owner, .. } => sites_in(*owner, function),
        Expr::MutBorrow { place, .. } => sites_in(*place, function),
        Expr::Call { callee, args } => sites_in(*callee, function) + sites_in_args(args@, function),
        Expr::Nested { name, body } => sites_in(*body, name@),
        Expr::Other { children } => sites_in_all(children@, function),
    }
}

/// The mutation sites in the arguments of a call: for each argument in
/// order, the site it makes by being lent, then the sites inside it.
pub open spec fn sites_in_args(args: Seq<Expr>, function: Seq<char>) -> Seq<SiteView>
    decreases args,
{
    if args.len() == 0 {
        Seq::empty()
    } else {
        sites_in_args(args.drop_last(), function) + lend(args.last(), function) + sites_in(
            args.last(),
            function,
        )
    }
}

/// The mutation sites in a list of expressions, in order.
pub open spec fn sites_in_all(es: Seq<Expr>, function: Seq<char>) -> Seq<SiteView>
    decreases es,
{
    if es.len() == 0 {
        Seq::empty()
    } else {
        sites_in_all(es.drop_last(), function) + sites_in(es.last(), function)
    }
}

/// The mutation sites in the body of `f`.
pub open spec fn sites_of_function(f: Function) -> Seq<SiteView> {
    sites_in(f.body, f.name@)
}

/// The mutation sites in a list of functions, in order.
pub open spec fn sites_of_functions(fs: Seq<Function>) -> Seq<SiteView>
    decreases fs.len(),
{
    if fs.len() == 0 {
        Seq::empty()
    } else {
        sites_of_functions(fs.drop_last()) + sites_of_function(fs.last())
    }
}

/// The mutation sites in one item: those of a function, or of the methods
/// of a block.
pub open spec fn sites_of_item(item: Item) -> Seq<SiteView> {
    match item {
        Item::Function(f) => sites_of_function(f),
        Item::Impl { methods } => sites_of_functions(methods@),
        _ => Seq::empty(),
    }
}

/// The mutation sites in a list of items, in order.
pub open spec fn sites_of_items(items: Seq<Item>) -> Seq<SiteView>
    decreases items.len(),
{
    if items.len() == 0 {
        Seq::empty()
    } else {
        sites_of_items(items.drop_last()) + sites_of_item(items.last())
    }
}

/// The mutation sites of a compilation unit, in the order of its items.
pub open spec fn sites_of(unit: CompilationUnit) -> Seq<SiteView> {
    sites_of_items(unit.items@)
}

/// Adds to `out` the site that a write to `place` at `span` makes.
fn note_write(place: &Expr, function: &String, span: Span, out: &mut Vec<MutationSite>)
    ensures
        site_views(final(out)@) == site_views(old(out)@) + write_to(*place, function@, span),
{
    match place {
        Expr::Field { owner_type: Some(owner), field, .. } => {
            let key = FieldKey::new(owner.as_str(), field.as_str());
            out.push(MutationSite { key, function: function.clone(), span });
        },
        _ => {},
    }
    assert(site_views(out@) =~= site_views(old(out)@) + write_to(*place, function@, span));
}

/// Adds to `out` the site that handing `arg` to a call makes.
fn note_lend(arg: &Expr, function: &String, out: &mut Vec<MutationSite>)
    ensures
        site_views(final(out)@) == site_views(old(out)@) + lend(*arg, function@),
{
    match arg {
        Expr::MutBorrow { place, span } => {
            note_write(place, function, *span, out);
        },
        _ => {
            assert(site_views(out@) =~= site_views(old(out)@) + lend(*arg, function@));
        },
    }
}

/// Adds to `out` the mutation sites in `e`, which stands directly in
/// `function`.
pub fn scan_expr(e: &Expr, function: &String, out: &mut Vec<MutationSite>)
    ensures
        site_views(final(out)@) == site_views(old(out)@) + sites_in(*e, function@),
    decreases *e,
{
    match e {
        Expr::Assign { target, value, span } => {
            note_write(target, function, *span, out);
            scan_expr(target, function, out);
            scan_expr(value, function, out);
        },
        Expr::AssignOp { target, value, span } => {
            note_write(target, function, *span, out);
            scan_expr(target, function, out);
            scan_expr(value, function, out);
        },
        Expr::Field { owner, .. } => {
            scan_expr(owner, function, out);
        },
        Expr::MutBorrow { place, .. } => {
            scan_expr(place, function, out);
        },
        Expr::Call { callee, args } => {
            scan_expr(callee, function, out);
            scan_args(args, function, out);
        },
        Expr::Nested { name, body } => {
            scan_expr(body, name, out);
        },
        Expr::Other { children } => {
            scan_all(children, function, out);
        },
    }
    assert(site_views(out@) =~= site_views(old(out)@) + sites_in(*e, function@));
}

/// Adds to `out` the mutation sites in the arguments of a call.
fn scan_args(args: &Vec<Expr>, function: &String, out: &mut Vec<MutationSite>)
    ensures
        site_views(final(out)@) == site_views(old(out)@) + sites_in_args(args@, function@),
    decreases args@,
{
    let mut i: usize = 0;
    assert(site_views(out@) =~= site_views(old(out)@) + sites_in_args(args@.take(0), function@));
    while i < args.len()
        invariant
            i <= args.len(),
            site_views(out@) == site_views(old(out)@) + sites_in_args(
                args@.take(i as int),
                function@,
            ),
        decreases args.len() - i,
    {
        note_lend(&args[i], function, out);
        scan_expr(&args[i], function, out);
        assert(args@.take(i + 1).drop_last() =~= args@.take(i as int));
        assert(site_views(out@) =~= site_views(old(out)@) + sites_in_args(
            args@.take(i + 1),
            function@,
        ));
        i += 1;
    }
    assert(args@.take(i as int) =~= args@);
}

/// Adds to `out` the mutation sites in a list of expressions.
fn scan_all(es: &Vec<Expr>, function: &String, out: &mut Vec<MutationSite>)
    ensures
        site_views(final(out)@) == site_views(old(out)@) + sites_in_all(es@, function@),
    decreases es@,
{
    let mut i: usize = 0;
    assert(site_views(out@) =~= site_views(old(out)@) + sites_in_all(es@.take(0), function@));
    while i < es.len()
        invariant
            i <= es.len(),
            site_views(out@) == site_views(old(out)@) + sites_in_all(es@.take(i as int), function@),
        decreases es.len() - i,
    {
        scan_expr(&es[i], function, out);
        assert(es@.take(i + 1).drop_last() =~= es@.take(i as int));
        assert(site_views(out@) =~= site_views(old(out)@) + sites_in_all(
            es@.take(i + 1),
            function@,
        ));
        i += 1;
    }
    assert(es@.take(i as int) =~= es@);
}

/// Adds to `out` the mutation sites in the body of `f`.
pub fn scan_function(f: &Function, out: &mut Vec<MutationSite>)
    ensures
        site_views(final(out)@) == site_views(old(out)@) + sites_of_function(*f),
{
    scan_expr(&f.body, &f.name, out);
}

/// Adds to `out` the mutation sites in a list of functions.
fn scan_functions(fs: &Vec<Function>, out: &mut Vec<MutationSite>)
    ensures
        site_views(final(out)@) == site_views(old(out)@) + sites_of_functions(fs@),
{
    let mut i: usize = 0;
    assert(site_views(out@) =~= site_views(old(out)@) + sites_of_functions(fs@.take(0)));
    while i < fs.len()
        invariant
            i <= fs.len(),
            site_views(out@) == site_views(old(out)@) + sites_of_functions(fs@.take(i as int)),
        decreases fs.len() - i,
    {
        scan_function(&fs[i], out);
        assert(fs@.take(i + 1).drop_last() =~= fs@.take(i as int));
        assert(site_views(out@) =~= site_views(old(out)@) + sites_of_functions(fs@.take(i + 1)));
        i += 1;
    }
    assert(fs@.take(i as int) =~= fs@);
}

/// Adds to `out` the mutation sites in one item.
pub fn scan_item(item: &Item, out: &mut Vec<MutationSite>)
    ensures
        site_views(final(out)@) == site_views(old(out)@) + sites_of_item(*item),
{
    match item {
        Item::Function(f) => {
            scan_function(f, out);
        },
        Item::Impl { methods } => {
            scan_functions(methods, out);
        },
        _ => {
            assert(site_views(out@) =~= site_views(old(out)@) + sites_of_item(*item));
        },
    }
}

/// The mutation sites of a compilation unit: every function body is walked
/// once, in the order of the items.
pub fn scan(unit: &CompilationUnit) -> (sites: Vec<MutationSite>)
    ensures
        site_views(sites@) == sites_of(*unit),
{
    let mut sites: Vec<MutationSite> = Vec::new();
    let mut i: usize = 0;
    assert(site_views(sites@) =~= sites_of_items(unit.items@.take(0)));
    while i < unit.items.len()
        invariant
            i <= unit.items.len(),
            site_views(sites@) == sites_of_items(unit.items@.take(i as int)),
        decreases unit.items.len() - i,
    {
        scan_item(&unit.items[i], &mut sites);
        assert(unit.items@.take(i + 1).drop_last() =~= unit.items@.take(i as int));
        i += 1;
    }
    assert(unit.items@.take(i as int) =~= unit.items@);
    sites
}

} // verus!
