use whitelist_mutation::lint::check_crate;
use whitelist_mutation::registry::FieldKey;
use whitelist_mutation::report::Violation;
use whitelist_mutation::syntax::{
    Annotation, CompilationUnit, Expr, FieldDecl, Function, Item, Span, Token, TypeDecl,
};

fn at(lo: u32, hi: u32) -> Span {
    Span { lo, hi }
}

fn leaf() -> Expr {
    Expr::Other { children: vec![] }
}

fn own(owner: &str, field: &str) -> Expr {
    Expr::Field {
        owner: Box::new(leaf()),
        owner_type: Some(owner.to_string()),
        field: field.to_string(),
    }
}

fn assign(target: Expr, span: Span) -> Expr {
    Expr::Assign { target: Box::new(target), value: Box::new(leaf()), span }
}

fn assign_op(target: Expr, span: Span) -> Expr {
    Expr::AssignOp { target: Box::new(target), value: Box::new(leaf()), span }
}

fn lend(place: Expr, span: Span) -> Expr {
    Expr::Call {
        callee: Box::new(leaf()),
        args: vec![Expr::MutBorrow { place: Box::new(place), span }],
    }
}

fn function(name: &str, body: Vec<Expr>) -> Function {
    Function { name: name.to_string(), body: Expr::Other { children: body } }
}

fn mutatedby(listed: &[&str]) -> Annotation {
    Annotation {
        name: "mutatedby".to_string(),
        args: listed.iter().map(|n| Token::Str(n.to_string())).collect(),
    }
}

fn field(name: &str, annotations: Vec<Annotation>) -> FieldDecl {
    FieldDecl { name: name.to_string(), annotations }
}

fn ty(name: &str, fields: Vec<FieldDecl>) -> Item {
    Item::Type(TypeDecl { name: name.to_string(), fields })
}

fn names(all: &[&str]) -> Vec<String> {
    all.iter().map(|n| n.to_string()).collect()
}

fn violation(owner: &str, field: &str, function: &str, permitted: &[&str], span: Span) -> Violation {
    Violation {
        key: FieldKey::new(owner, field),
        function: function.to_string(),
        permitted: names(permitted),
        span,
    }
}

/// Three ways to mutate `owner.field`, at spans that start at `base`.
fn mutations(owner: &str, field: &str, base: u32) -> Vec<Expr> {
    vec![
        assign(own(owner, field), at(base, base + 1)),
        assign_op(own(owner, field), at(base + 2, base + 3)),
        lend(own(owner, field), at(base + 4, base + 5)),
    ]
}

#[test]
fn unannotated_field_is_never_diagnosed() {
    let mut items = vec![ty(
        "T",
        vec![field("free", vec![]), field("kept", vec![mutatedby(&["keeper"])])],
    )];
    for i in 0..10u32 {
        items.push(Item::Function(function(&format!("f{}", i), mutations("T", "free", 10 * i))));
        items.push(Item::Impl {
            methods: vec![function(&format!("m{}", i), mutations("T", "free", 1000 + 10 * i))],
        });
    }
    let found = check_crate(&CompilationUnit { items });
    assert_eq!(found, vec![]);
}

#[test]
fn annotation_of_another_name_does_not_restrict() {
    let unit = CompilationUnit {
        items: vec![
            ty("T", vec![field("f", vec![Annotation { name: "serde".to_string(), args: vec![] }])]),
            Item::Function(function("anyone", mutations("T", "f", 0))),
        ],
    };
    assert_eq!(check_crate(&unit), vec![]);
}

#[test]
fn whitelisted_function_is_never_diagnosed() {
    let unit = CompilationUnit {
        items: vec![
            ty("T", vec![field("f", vec![mutatedby(&["a", "b"]), mutatedby(&["c"])])]),
            Item::Function(function("a", mutations("T", "f", 0))),
            Item::Impl {
                methods: vec![function("b", mutations("T", "f", 10)), function("c", mutations("T", "f", 20))],
            },
            Item::Function(function("a", mutations("T", "f", 30))),
        ],
    };
    assert_eq!(check_crate(&unit), vec![]);
}

#[test]
fn each_forbidden_mutation_is_diagnosed_once() {
    let unit = CompilationUnit {
        items: vec![
            Item::Function(function("early", mutations("T", "f", 0))),
            ty("T", vec![field("f", vec![mutatedby(&["a"])]), field("g", vec![])]),
            Item::Impl {
                methods: vec![
                    function("a", mutations("T", "f", 10)),
                    function("b", mutations("T", "f", 20)),
                    function("b", mutations("T", "g", 30)),
                ],
            },
        ],
    };
    assert_eq!(
        check_crate(&unit),
        vec![
            violation("T", "f", "early", &["a"], at(0, 1)),
            violation("T", "f", "early", &["a"], at(2, 3)),
            violation("T", "f", "early", &["a"], at(4, 5)),
            violation("T", "f", "b", &["a"], at(20, 21)),
            violation("T", "f", "b", &["a"], at(22, 23)),
            violation("T", "f", "b", &["a"], at(24, 25)),
        ]
    );
}

#[test]
fn whitelist_declared_after_the_mutation_still_counts() {
    let unit = CompilationUnit {
        items: vec![
            Item::Function(function("b", vec![assign(own("T", "f"), at(1, 2))])),
            ty("T", vec![field("f", vec![mutatedby(&["a"])])]),
        ],
    };
    assert_eq!(check_crate(&unit), vec![violation("T", "f", "b", &["a"], at(1, 2))]);
}

#[test]
fn field_of_the_same_name_in_another_type_is_another_field() {
    let unit = CompilationUnit {
        items: vec![
            ty("T", vec![field("f", vec![mutatedby(&["a"])])]),
            ty("U", vec![field("f", vec![])]),
            Item::Function(function(
                "b",
                vec![assign(own("U", "f"), at(1, 2)), assign(own("T", "f"), at(3, 4))],
            )),
        ],
    };
    assert_eq!(check_crate(&unit), vec![violation("T", "f", "b", &["a"], at(3, 4))]);
}

#[test]
fn mutation_in_a_closure_inside_a_permitted_function_is_diagnosed() {
    let unit = CompilationUnit {
        items: vec![
            ty("T", vec![field("f", vec![mutatedby(&["a"])])]),
            Item::Function(function(
                "a",
                vec![
                    assign(own("T", "f"), at(1, 2)),
                    Expr::Nested {
                        name: "{closure}".to_string(),
                        body: Box::new(assign(own("T", "f"), at(3, 4))),
                    },
                ],
            )),
        ],
    };
    assert_eq!(check_crate(&unit), vec![violation("T", "f", "{closure}", &["a"], at(3, 4))]);
}

#[test]
fn mutation_through_an_owner_of_unknown_type_is_not_diagnosed() {
    let unknown = Expr::Field { owner: Box::new(leaf()), owner_type: None, field: "f".to_string() };
    let unit = CompilationUnit {
        items: vec![
            ty("T", vec![field("f", vec![mutatedby(&[])])]),
            Item::Function(function("b", vec![assign(unknown, at(1, 2))])),
        ],
    };
    assert_eq!(check_crate(&unit), vec![]);
}

#[test]
fn annotated_field_that_is_never_mutated_gives_no_diagnostic() {
    let unit = CompilationUnit {
        items: vec![
            ty("T", vec![field("f", vec![mutatedby(&["a"])]), field("g", vec![mutatedby(&[])])]),
            Item::Function(function("b", vec![own("T", "f"), own("T", "g")])),
        ],
    };
    assert_eq!(check_crate(&unit), vec![]);
}

fn busy_unit() -> CompilationUnit {
    CompilationUnit {
        items: vec![
            ty(
                "T",
                vec![
                    field("f", vec![mutatedby(&["z", "a", "m"])]),
                    field("g", vec![mutatedby(&[])]),
                    field("h", vec![]),
                ],
            ),
            Item::Impl {
                methods: vec![
                    function("a", mutations("T", "f", 0)),
                    function("b", mutations("T", "f", 10)),
                    function("c", mutations("T", "g", 20)),
                    function("d", mutations("T", "h", 30)),
                ],
            },
            Item::Function(function("e", mutations("T", "f", 40))),
        ],
    }
}

#[test]
fn two_runs_give_the_same_diagnostics() {
    let first = check_crate(&busy_unit());
    let second = check_crate(&busy_unit());
    assert_eq!(first.len(), 9);
    assert_eq!(first, second);
    let first_texts: Vec<String> = first.iter().map(|v| v.message()).collect();
    let second_texts: Vec<String> = second.iter().map(|v| v.message()).collect();
    assert_eq!(first_texts, second_texts);
    assert_eq!(
        first_texts[0],
        "field `T.f` is mutated in `b`, which its whitelist does not permit; permitted: [z, a, m]"
    );
    let unit = busy_unit();
    assert_eq!(check_crate(&unit), check_crate(&unit));
}

fn unit_with(annotations: Vec<Annotation>) -> CompilationUnit {
    CompilationUnit {
        items: vec![
            ty("T", vec![field("f", annotations)]),
            Item::Impl {
                methods: vec![
                    function("a", mutations("T", "f", 0)),
                    function("b", mutations("T", "f", 10)),
                    function("c", mutations("T", "f", 20)),
                    function("d", mutations("T", "f", 30)),
                ],
            },
        ],
    }
}

#[test]
fn two_annotations_behave_as_their_union() {
    let split = check_crate(&unit_with(vec![mutatedby(&["a", "b"]), mutatedby(&["b", "c"])]));
    let joined = check_crate(&unit_with(vec![mutatedby(&["a", "b", "b", "c"])]));
    assert_eq!(split, joined);
    assert_eq!(
        split,
        vec![
            violation("T", "f", "d", &["a", "b", "c"], at(30, 31)),
            violation("T", "f", "d", &["a", "b", "c"], at(32, 33)),
            violation("T", "f", "d", &["a", "b", "c"], at(34, 35)),
        ]
    );
}

#[test]
fn second_annotation_does_not_replace_the_first() {
    let found = check_crate(&unit_with(vec![mutatedby(&["a"]), mutatedby(&["b"])]));
    let functions: Vec<&str> = found.iter().map(|v| v.function.as_str()).collect();
    assert_eq!(functions, vec!["c", "c", "c", "d", "d", "d"]);
}

#[test]
fn empty_unit_gives_no_diagnostic() {
    assert_eq!(check_crate(&CompilationUnit { items: vec![] }), vec![]);
}
