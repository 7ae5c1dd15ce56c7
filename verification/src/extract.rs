//! Reading whitelists off the annotations of type declarations.

use crate::registry::{names_for, FieldId, FieldKey, WhitelistRegistry, Whitelists};
use crate::syntax::{Annotation, CompilationUnit, FieldDecl, Item, Token, TypeDecl};
use crate::whitelist::{lemma_with_names_contains, texts, with_names};
use vstd::prelude::*;

verus! {

/// The name of the annotation that declares a whitelist.
pub open spec fn marker() -> Seq<char> {
    "mutatedby"@
}

/// Whether `annotation` declares a whitelist.
pub open spec fn is_whitelist(annotation: Annotation) -> bool {
    annotation.name@ == marker()
}

/// The function name that a token stands for, if it stands for one.
pub open spec fn token_name(token: Token) -> Option<Seq<char>> {
    match token {
        Token::Ident(name) => Some(name@),
        Token::Str(name) => Some(name@),
        Token::Other => None,
    }
}

/// The function names among `args`, in order.
pub open spec fn names_in(args: Seq<Token>) -> Seq<Seq<char>> {
    args.filter_map(|t: Token| token_name(t))
}

/// `lists` after one annotation on `field` has been read: a whitelist
/// annotation declares the field and permits each name it lists; any other
/// annotation changes nothing.
pub open spec fn with_annotation(lists: Whitelists, field: FieldId, annotation: Annotation) -> Whitelists {
    if is_whitelist(annotation) {
        lists.insert(field, with_names(names_for(lists, field), names_in(annotation.args@)))
    } else {
        lists
    }
}

/// `lists` after the annotations of one field have been read in order.
pub open spec fn with_annotations(
    lists: Whitelists,
    field: FieldId,
    annotations: Seq<Annotation>,
) -> Whitelists
    decreases annotations.len(),
{
    if annotations.len() == 0 {
        lists
    } else {
        with_annotation(
            with_annotations(lists, field, annotations.drop_last()),
            field,
            annotations.last(),
        )
    }
}

/// `lists` after the fields of a type named `owner` have been read in order.
pub open spec fn with_fields(lists: Whitelists, owner: Seq<char>, fields: Seq<FieldDecl>) -> Whitelists
    decreases fields.len(),
{
    if fields.len() == 0 {
        lists
    } else {
        with_annotations(
            with_fields(lists, owner, fields.drop_last()),
            (owner, fields.last().name@),
            fields.last().annotations@,
        )
    }
}

/// `lists` after one item has been read. Only type declarations count.
pub open spec fn with_item(lists: Whitelists, item: Item) -> Whitelists {
    match item {
        Item::Type(decl) => with_fields(lists, decl.name@, decl.fields@),
        _ => lists,
    }
}

/// `lists` after `items` have been read in order.
pub open spec fn with_items(lists: Whitelists, items: Seq<Item>) -> Whitelists
    decreases items.len(),
{
    if items.len() == 0 {
        lists
    } else {
        with_item(with_items(lists, items.drop_last()), items.last())
    }
}

/// The whitelists that a compilation unit declares.
pub open spec fn whitelists_of(unit: CompilationUnit) -> Whitelists {
    with_items(Map::empty(), unit.items@)
}

/// Whether `lists` permits `function` for `field`.
pub open spec fn permits(lists: Whitelists, field: FieldId, function: Seq<char>) -> bool {
    lists.contains_key(field) && lists[field].contains(function)
}

/// Whether `annotation` is a whitelist annotation that lists `function`.
pub open spec fn annotation_lists(annotation: Annotation, function: Seq<char>) -> bool {
    is_whitelist(annotation) && names_in(annotation.args@).contains(function)
}

/// Whether one of `annotations` is a whitelist annotation.
pub open spec fn any_declares(annotations: Seq<Annotation>) -> bool {
    exists|a: int| 0 <= a < annotations.len() && is_whitelist(#[trigger] annotations[a])
}

/// Whether one of `annotations` is a whitelist annotation that lists
/// `function`.
pub open spec fn any_lists(annotations: Seq<Annotation>, function: Seq<char>) -> bool {
    exists|a: int|
        0 <= a < annotations.len() && annotation_lists(#[trigger] annotations[a], function)
}

/// Whether one of `fields`, taken as fields of a type named `owner`, is
/// `field` and carries a whitelist annotation.
pub open spec fn fields_declare(owner: Seq<char>, fields: Seq<FieldDecl>, field: FieldId) -> bool {
    field.0 == owner && exists|j: int|
        0 <= j < fields.len() && (#[trigger] fields[j]).name@ == field.1 && any_declares(
            fields[j].annotations@,
        )
}

/// Whether one of `fields`, taken as fields of a type named `owner`, is
/// `field` and carries a whitelist annotation that lists `function`.
pub open spec fn fields_list(
    owner: Seq<char>,
    fields: Seq<FieldDecl>,
    field: FieldId,
    function: Seq<char>,
) -> bool {
    field.0 == owner && exists|j: int|
        0 <= j < fields.len() && (#[trigger] fields[j]).name@ == field.1 && any_lists(
            fields[j].annotations@,
            function,
        )
}

/// Whether `item` declares a whitelist for `field`.
pub open spec fn item_declares(item: Item, field: FieldId) -> bool {
    match item {
        Item::Type(decl) => fields_declare(decl.name@, decl.fields@, field),
        _ => false,
    }
}

/// Whether `item` lists `function` in a whitelist for `field`.
pub open spec fn item_lists(item: Item, field: FieldId, function: Seq<char>) -> bool {
    match item {
        Item::Type(decl) => fields_list(decl.name@, decl.fields@, field, function),
        _ => false,
    }
}

/// Whether one of `items` declares a whitelist for `field`.
pub open spec fn items_declare(items: Seq<Item>, field: FieldId) -> bool {
    exists|i: int| 0 <= i < items.len() && item_declares(#[trigger] items[i], field)
}

/// Whether one of `items` lists `function` in a whitelist for `field`.
pub open spec fn items_list(items: Seq<Item>, field: FieldId, function: Seq<char>) -> bool {
    exists|i: int| 0 <= i < items.len() && item_lists(#[trigger] items[i], field, function)
}

/// Whether `field` is annotated in `unit`: some type declaration of the
/// owner's name has a field of that name with a whitelist annotation.
pub open spec fn annotated(unit: CompilationUnit, field: FieldId) -> bool {
    items_declare(unit.items@, field)
}

/// Whether some whitelist annotation on `field` in `unit` lists `function`.
pub open spec fn whitelisted(unit: CompilationUnit, field: FieldId, function: Seq<char>) -> bool {
    items_list(unit.items@, field, function)
}

/// The names among the tokens of two argument lists, one after the other,
/// are those of the first followed by those of the second.
pub proof fn lemma_names_in_concat(a: Seq<Token>, b: Seq<Token>)
    ensures
        names_in(a + b) == names_in(a) + names_in(b),
    decreases b.len(),
{
    if b.len() == 0 {
        assert(a + b =~= a);
        assert(names_in(a) + names_in(b) =~= names_in(a));
    } else {
        lemma_names_in_concat(a, b.drop_last());
        assert((a + b).drop_last() =~= a + b.drop_last());
        assert((a + b).last() == b.last());
        assert(names_in(a + b) =~= names_in(a) + names_in(b));
    }
}

/// What one annotation adds: it declares its field if it is a whitelist
/// annotation, and permits for it the names it lists.
pub proof fn lemma_with_annotation(
    lists: Whitelists,
    at: FieldId,
    annotation: Annotation,
    field: FieldId,
    function: Seq<char>,
)
    ensures
        with_annotation(lists, at, annotation).contains_key(field) <==> lists.contains_key(field)
            || (field == at && is_whitelist(annotation)),
        permits(with_annotation(lists, at, annotation), field, function) <==> permits(
            lists,
            field,
            function,
        ) || (field == at && annotation_lists(annotation, function)),
{
    if is_whitelist(annotation) {
        lemma_with_names_contains(names_for(lists, at), names_in(annotation.args@), function);
    }
}

/// What the annotations of one field add.
pub proof fn lemma_with_annotations(
    lists: Whitelists,
    at: FieldId,
    annotations: Seq<Annotation>,
    field: FieldId,
    function: Seq<char>,
)
    ensures
        with_annotations(lists, at, annotations).contains_key(field) <==> lists.contains_key(field)
            || (field == at && any_declares(annotations)),
        permits(with_annotations(lists, at, annotations), field, function) <==> permits(
            lists,
            field,
            function,
        ) || (field == at && any_lists(annotations, function)),
    decreases annotations.len(),
{
    if annotations.len() > 0 {
        let rest = annotations.drop_last();
        let last = annotations.last();
        lemma_with_annotations(lists, at, rest, field, function);
        lemma_with_annotation(with_annotations(lists, at, rest), at, last, field, function);
        assert(any_declares(annotations) <==> any_declares(rest) || is_whitelist(last)) by {
            if any_declares(rest) {
                let a = choose|a: int| 0 <= a < rest.len() && is_whitelist(#[trigger] rest[a]);
                assert(is_whitelist(annotations[a]));
            }
            if is_whitelist(last) {
                assert(is_whitelist(annotations[annotations.len() - 1]));
            }
            if any_declares(annotations) {
                let a = choose|a: int|
                    0 <= a < annotations.len() && is_whitelist(#[trigger] annotations[a]);
                if a < rest.len() {
                    assert(is_whitelist(rest[a]));
                }
            }
        }
        assert(any_lists(annotations, function) <==> any_lists(rest, function) || annotation_lists(
            last,
            function,
        )) by {
            if any_lists(rest, function) {
                let a = choose|a: int|
                    0 <= a < rest.len() && annotation_lists(#[trigger] rest[a], function);
                assert(annotation_lists(annotations[a], function));
            }
            if annotation_lists(last, function) {
                assert(annotation_lists(annotations[annotations.len() - 1], function));
            }
            if any_lists(annotations, function) {
                let a = choose|a: int|
                    0 <= a < annotations.len() && annotation_lists(
                        #[trigger] annotations[a],
                        function,
                    );
                if a < rest.len() {
                    assert(annotation_lists(rest[a], function));
                }
            }
        }
    }
}

/// What the fields of one type declaration add.
pub proof fn lemma_with_fields(
    lists: Whitelists,
    owner: Seq<char>,
    fields: Seq<FieldDecl>,
    field: FieldId,
    function: Seq<char>,
)
    ensures
        with_fields(lists, owner, fields).contains_key(field) <==> lists.contains_key(field)
            || fields_declare(owner, fields, field),
        permits(with_fields(lists, owner, fields), field, function) <==> permits(
            lists,
            field,
            function,
        ) || fields_list(owner, fields, field, function),
    decreases fields.len(),
{
    if fields.len() > 0 {
        let rest = fields.drop_last();
        let last = fields.last();
        let at = (owner, last.name@);
        lemma_with_fields(lists, owner, rest, field, function);
        lemma_with_annotations(
            with_fields(lists, owner, rest),
            at,
            last.annotations@,
            field,
            function,
        );
        assert(fields_declare(owner, fields, field) <==> fields_declare(owner, rest, field) || (
        field == at && any_declares(last.annotations@))) by {
            if fields_declare(owner, rest, field) {
                let j = choose|j: int|
                    0 <= j < rest.len() && (#[trigger] rest[j]).name@ == field.1 && any_declares(
                        rest[j].annotations@,
                    );
                assert(fields[j].name@ == field.1);
            }
            if field == at && any_declares(last.annotations@) {
                assert(fields[fields.len() - 1].name@ == field.1);
            }
            if fields_declare(owner, fields, field) {
                let j = choose|j: int|
                    0 <= j < fields.len() && (#[trigger] fields[j]).name@ == field.1
                        && any_declares(fields[j].annotations@);
                if j < rest.len() {
                    assert(rest[j].name@ == field.1);
                }
            }
        }
        assert(fields_list(owner, fields, field, function) <==> fields_list(
            owner,
            rest,
            field,
            function,
        ) || (field == at && any_lists(last.annotations@, function))) by {
            if fields_list(owner, rest, field, function) {
                let j = choose|j: int|
                    0 <= j < rest.len() && (#[trigger] rest[j]).name@ == field.1 && any_lists(
                        rest[j].annotations@,
                        function,
                    );
                assert(fields[j].name@ == field.1);
            }
            if field == at && any_lists(last.annotations@, function) {
                assert(fields[fields.len() - 1].name@ == field.1);
            }
            if fields_list(owner, fields, field, function) {
                let j = choose|j: int|
                    0 <= j < fields.len() && (#[trigger] fields[j]).name@ == field.1 && any_lists(
                        fields[j].annotations@,
                        function,
                    );
                if j < rest.len() {
                    assert(rest[j].name@ == field.1);
                }
            }
        }
    }
}

/// What a list of items adds.
pub proof fn lemma_with_items(
    lists: Whitelists,
    items: Seq<Item>,
    field: FieldId,
    function: Seq<char>,
)
    ensures
        with_items(lists, items).contains_key(field) <==> lists.contains_key(field)
            || items_declare(items, field),
        permits(with_items(lists, items), field, function) <==> permits(lists, field, function)
            || items_list(items, field, function),
    decreases items.len(),
{
    if items.len() > 0 {
        let rest = items.drop_last();
        let last = items.last();
        lemma_with_items(lists, rest, field, function);
        match last {
            Item::Type(decl) => {
                lemma_with_fields(
                    with_items(lists, rest),
                    decl.name@,
                    decl.fields@,
                    field,
                    function,
                );
            },
            _ => {},
        }
        assert(items_declare(items, field) <==> items_declare(rest, field) || item_declares(
            last,
            field,
        )) by {
            if items_declare(rest, field) {
                let i = choose|i: int| 0 <= i < rest.len() && item_declares(#[trigger] rest[i], field);
                assert(item_declares(items[i], field));
            }
            if item_declares(last, field) {
                assert(item_declares(items[items.len() - 1], field));
            }
            if items_declare(items, field) {
                let i = choose|i: int|
                    0 <= i < items.len() && item_declares(#[trigger] items[i], field);
                if i < rest.len() {
                    assert(item_declares(rest[i], field));
                }
            }
        }
        assert(items_list(items, field, function) <==> items_list(rest, field, function)
            || item_lists(last, field, function)) by {
            if items_list(rest, field, function) {
                let i = choose|i: int|
                    0 <= i < rest.len() && item_lists(#[trigger] rest[i], field, function);
                assert(item_lists(items[i], field, function));
            }
            if item_lists(last, field, function) {
                assert(item_lists(items[items.len() - 1], field, function));
            }
            if items_list(items, field, function) {
                let i = choose|i: int|
                    0 <= i < items.len() && item_lists(#[trigger] items[i], field, function);
                if i < rest.len() {
                    assert(item_lists(rest[i], field, function));
                }
            }
        }
    }
}

/// The registry of a unit says what its annotations say: a field has a
/// whitelist exactly when it is annotated, and the whitelist permits a
/// function exactly when some whitelist annotation on the field lists it.
pub proof fn lemma_whitelists_are_the_annotations(
    unit: CompilationUnit,
    field: FieldId,
    function: Seq<char>,
)
    ensures
        whitelists_of(unit).contains_key(field) <==> annotated(unit, field),
        permits(whitelists_of(unit), field, function) <==> whitelisted(unit, field, function),
{
    lemma_with_items(Map::empty(), unit.items@, field, function);
}

/// The function names among the tokens of an argument list, in order.
/// Tokens that are neither identifiers nor string literals are passed over.
pub fn function_names(args: &Vec<Token>) -> (names: Vec<String>)
    ensures
        texts(names@) == names_in(args@),
{
    let mut names: Vec<String> = Vec::new();
    let mut i: usize = 0;
    assert(texts(names@) =~= names_in(args@.take(0)));
    while i < args.len()
        invariant
            i <= args.len(),
            texts(names@) == names_in(args@.take(i as int)),
        decreases args.len() - i,
    {
        assert(args@.take(i + 1).drop_last() =~= args@.take(i as int));
        match &args[i] {
            Token::Ident(name) => {
                names.push(name.clone());
            },
            Token::Str(name) => {
                names.push(name.clone());
            },
            Token::Other => {},
        }
        assert(texts(names@) =~= names_in(args@.take(i + 1)));
        i += 1;
    }
    assert(args@.take(i as int) =~= args@);
    names
}

/// Permits each of `names` for `key`, in order.
fn insert_all(registry: &mut WhitelistRegistry, key: &FieldKey, names: &Vec<String>)
    requires
        old(registry).wf(),
        old(registry)@.contains_key(key@),
    ensures
        final(registry).wf(),
        final(registry)@ == old(registry)@.insert(
            key@,
            with_names(old(registry)@[key@], texts(names@)),
        ),
{
    let mut i: usize = 0;
    assert(texts(names@).take(0) =~= Seq::<Seq<char>>::empty());
    assert(registry@ =~= old(registry)@.insert(key@, old(registry)@[key@]));
    while i < names.len()
        invariant
            i <= names.len(),
            registry.wf(),
            old(registry)@.contains_key(key@),
            registry@ == old(registry)@.insert(
                key@,
                with_names(old(registry)@[key@], texts(names@).take(i as int)),
            ),
        decreases names.len() - i,
    {
        registry.insert(key, names[i].as_str());
        proof {
            assert(texts(names@).take(i + 1).drop_last() =~= texts(names@).take(i as int));
            assert(texts(names@).take(i + 1).last() == names@[i as int]@);
            assert(registry@ =~= old(registry)@.insert(
                key@,
                with_names(old(registry)@[key@], texts(names@).take(i + 1)),
            ));
        }
        i += 1;
    }
    assert(texts(names@).take(i as int) =~= texts(names@));
}

/// Reads one annotation on the field `key`.
pub fn read_annotation(registry: &mut WhitelistRegistry, key: &FieldKey, annotation: &Annotation)
    requires
        old(registry).wf(),
    ensures
        final(registry).wf(),
        final(registry)@ == with_annotation(old(registry)@, key@, *annotation),
{
    let wanted = "mutatedby".to_owned();
    if annotation.name == wanted {
        let names = function_names(&annotation.args);
        registry.declare(key);
        insert_all(registry, key, &names);
        assert(registry@ =~= with_annotation(old(registry)@, key@, *annotation));
    }
}

/// Reads the annotations on the fields of a type declaration into
/// `registry`: every field that carries a whitelist annotation is declared,
/// and every function name in such an annotation is permitted for it.
pub fn check_struct_fields(registry: &mut WhitelistRegistry, decl: &TypeDecl)
    requires
        old(registry).wf(),
    ensures
        final(registry).wf(),
        final(registry)@ == with_fields(old(registry)@, decl.name@, decl.fields@),
{
    let mut i: usize = 0;
    while i < decl.fields.len()
        invariant
            i <= decl.fields.len(),
            registry.wf(),
            registry@ == with_fields(old(registry)@, decl.name@, decl.fields@.take(i as int)),
        decreases decl.fields.len() - i,
    {
        let field = &decl.fields[i];
        let key = FieldKey::new(decl.name.as_str(), field.name.as_str());
        let ghost start = registry@;
        let mut j: usize = 0;
        while j < field.annotations.len()
            invariant
                j <= field.annotations.len(),
                registry.wf(),
                registry@ == with_annotations(start, key@, field.annotations@.take(j as int)),
            decreases field.annotations.len() - j,
        {
            read_annotation(registry, &key, &field.annotations[j]);
            assert(field.annotations@.take(j + 1).drop_last() =~= field.annotations@.take(j as int));
            j += 1;
        }
        assert(field.annotations@.take(j as int) =~= field.annotations@);
        assert(decl.fields@.take(i + 1).drop_last() =~= decl.fields@.take(i as int));
        i += 1;
    }
    assert(decl.fields@.take(i as int) =~= decl.fields@);
}

/// Reads one item into `registry`.
pub fn visit_item(registry: &mut WhitelistRegistry, item: &Item)
    requires
        old(registry).wf(),
    ensures
        final(registry).wf(),
        final(registry)@ == with_item(old(registry)@, *item),
{
    match item {
        Item::Type(decl) => {
            check_struct_fields(registry, decl);
        },
        _ => {},
    }
}

/// The registry of a compilation unit: all its whitelists, collected before
/// any function body is looked at.
pub fn collect_whitelists(unit: &CompilationUnit) -> (registry: WhitelistRegistry)
    ensures
        registry.wf(),
        registry@ == whitelists_of(*unit),
        forall|field: FieldId| #[trigger]
            registry@.contains_key(field) <==> annotated(*unit, field),
        forall|field: FieldId, function: Seq<char>| #[trigger]
            permits(registry@, field, function) <==> whitelisted(*unit, field, function),
{
    let mut registry = WhitelistRegistry::new();
    let mut i: usize = 0;
    while i < unit.items.len()
        invariant
            i <= unit.items.len(),
            registry.wf(),
            registry@ == with_items(Map::empty(), unit.items@.take(i as int)),
        decreases unit.items.len() - i,
    {
        visit_item(&mut registry, &unit.items[i]);
        assert(unit.items@.take(i + 1).drop_last() =~= unit.items@.take(i as int));
        i += 1;
    }
    assert(unit.items@.take(i as int) =~= unit.items@);
    proof {
        assert forall|field: FieldId| #[trigger]
            registry@.contains_key(field) <==> annotated(*unit, field) by {
            lemma_whitelists_are_the_annotations(*unit, field, Seq::empty());
        }
        assert forall|field: FieldId, function: Seq<char>| #[trigger]
            permits(registry@, field, function) <==> whitelisted(*unit, field, function) by {
            lemma_whitelists_are_the_annotations(*unit, field, function);
        }
    }
    registry
}

} // verus!
