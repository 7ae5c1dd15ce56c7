use whitelist_mutation::lint::check_crate;
use whitelist_mutation::registry::FieldKey;
use whitelist_mutation::report::{Severity, Violation};
use whitelist_mutation::syntax::{
    Annotation, CompilationUnit, Expr, FieldDecl, Function, Item, Span, Token, TypeDecl,
};

fn at(lo: u32, hi: u32) -> Span {
    Span { lo, hi }
}

fn leaf() -> Expr {
    Expr::Other { children: vec![] }
}

fn own(owner: &str, field: &str) -> Expr {
    Expr::Field {
        owner: Box::new(leaf()),
        owner_type: Some(owner.to_string()),
        field: field.to_string(),
    }
}

fn assign(target: Expr, span: Span) -> Expr {
    Expr::Assign { target: Box::new(target), value: Box::new(leaf()), span }
}

fn assign_op(target: Expr, span: Span) -> Expr {
    Expr::AssignOp { target: Box::new(target), value: Box::new(leaf()), span }
}

fn function(name: &str, body: Vec<Expr>) -> Function {
    Function { name: name.to_string(), body: Expr::Other { children: body } }
}

fn mutatedby(args: Vec<Token>) -> Annotation {
    Annotation { name: "mutatedby".to_string(), args }
}

fn lit(name: &str) -> Token {
    Token::Str(name.to_string())
}

fn field(name: &str, annotations: Vec<Annotation>) -> FieldDecl {
    FieldDecl { name: name.to_string(), annotations }
}

fn ty(name: &str, fields: Vec<FieldDecl>) -> Item {
    Item::Type(TypeDecl { name: name.to_string(), fields })
}

fn names(all: &[&str]) -> Vec<String> {
    all.iter().map(|n| n.to_string()).collect()
}

#[test]
fn permitted_function_is_silent_and_other_function_is_reported() {
    let unit = CompilationUnit {
        items: vec![
            ty("T", vec![field("f", vec![mutatedby(vec![lit("a")])])]),
            Item::Impl {
                methods: vec![
                    function("a", vec![assign(own("T", "f"), at(10, 21))]),
                    function("b", vec![assign_op(own("T", "f"), at(40, 51))]),
                ],
            },
        ],
    };
    let found = check_crate(&unit);
    assert_eq!(
        found,
        vec![Violation {
            key: FieldKey::new("T", "f"),
            function: "b".to_string(),
            permitted: names(&["a"]),
            span: at(40, 51),
        }]
    );
    assert_eq!(found[0].severity(), Severity::Warning);
    assert_eq!(
        found[0].message(),
        "field `T.f` is mutated in `b`, which its whitelist does not permit; permitted: [a]"
    );
}

#[test]
fn permitted_function_alone_gives_no_diagnostic() {
    let unit = CompilationUnit {
        items: vec![
            ty("T", vec![field("f", vec![mutatedby(vec![lit("a")])])]),
            Item::Impl { methods: vec![function("a", vec![assign(own("T", "f"), at(10, 21))])] },
        ],
    };
    assert_eq!(check_crate(&unit), vec![]);
}

#[test]
fn unannotated_field_is_assigned_freely() {
    let mut methods = Vec::new();
    for i in 0..5u32 {
        methods.push(function(
            &format!("f{}", i),
            vec![
                assign(own("T", "g"), at(100 * i, 100 * i + 9)),
                assign_op(own("T", "g"), at(100 * i + 20, 100 * i + 29)),
            ],
        ));
    }
    let unit = CompilationUnit {
        items: vec![ty("T", vec![field("g", vec![])]), Item::Impl { methods }],
    };
    assert_eq!(check_crate(&unit), vec![]);
}

#[test]
fn empty_argument_list_denies_every_function() {
    let unit = CompilationUnit {
        items: vec![
            ty("T", vec![field("f", vec![mutatedby(vec![])])]),
            Item::Function(function("reset", vec![assign(own("T", "f"), at(1, 2))])),
            Item::Impl {
                methods: vec![
                    function("a", vec![assign(own("T", "f"), at(3, 4))]),
                    function(
                        "b",
                        vec![assign_op(own("T", "f"), at(5, 6)), assign(own("T", "f"), at(7, 8))],
                    ),
                ],
            },
        ],
    };
    let found = check_crate(&unit);
    assert_eq!(found.len(), 4);
    let spans: Vec<Span> = found.iter().map(|v| v.span).collect();
    assert_eq!(spans, vec![at(1, 2), at(3, 4), at(5, 6), at(7, 8)]);
    let functions: Vec<&str> = found.iter().map(|v| v.function.as_str()).collect();
    assert_eq!(functions, vec!["reset", "a", "b", "b"]);
    for v in &found {
        assert_eq!(v.key, FieldKey::new("T", "f"));
        assert!(v.permitted.is_empty());
        assert_eq!(
            v.message(),
            format!(
                "field `T.f` is mutated in `{}`, which its whitelist does not permit; permitted: []",
                v.function
            )
        );
    }
}

#[test]
fn allowed_function_and_disallowed_function() {
    let unit = CompilationUnit {
        items: vec![
            ty("TestStruct", vec![field("field", vec![mutatedby(vec![lit("allowed_function")])])]),
            Item::Impl {
                methods: vec![
                    function("allowed_function", vec![assign(own("TestStruct", "field"), at(9, 10))]),
                    function(
                        "disallowed_function",
                        vec![
                            assign_op(own("TestStruct", "field"), at(14, 15)),
                            Expr::Call { callee: Box::new(leaf()), args: vec![leaf()] },
                        ],
                    ),
                ],
            },
            Item::Function(function(
                "main",
                vec![
                    Expr::Call { callee: Box::new(leaf()), args: vec![leaf()] },
                    Expr::Call { callee: Box::new(leaf()), args: vec![leaf()] },
                ],
            )),
        ],
    };
    let found = check_crate(&unit);
    assert_eq!(found.len(), 1);
    assert_eq!(found[0].key, FieldKey::new("TestStruct", "field"));
    assert_eq!(found[0].function, "disallowed_function");
    assert_eq!(found[0].permitted, names(&["allowed_function"]));
    assert_eq!(found[0].span, at(14, 15));
}
