use walkabout::gen::{gen_visit, gen_visit_element, gen_visit_mut, gen_visit_root};
use walkabout::ir::{Field, Ir, Item, ItemGeneric, Record, Sum, Type, Variant};
use walkabout::names::VisitConfig;
use walkabout::script::{Emit, Script};

fn text(s: &str) -> String {
    String::from(s)
}

fn local(name: &str) -> Type {
    Type::Local(text(name))
}

fn named(name: &str, ty: Type) -> Field {
    Field { name: Some(text(name)), ty }
}

fn unnamed(ty: Type) -> Field {
    Field { name: None, ty }
}

fn open(header: &str) -> Emit {
    Emit::StartBlock(text(header))
}

fn reopen(header: &str) -> Emit {
    Emit::RestartBlock(text(header))
}

fn line(content: &str) -> Emit {
    Emit::WriteLine(text(content))
}

fn element(mutable: bool, binding: &str, ty: &Type) -> Vec<Emit> {
    let mut buf = Script::new();
    gen_visit_element(&VisitConfig { mutable }, &mut buf, binding, ty);
    buf.ops
}

fn count_openings(ops: &[Emit]) -> usize {
    ops.iter().filter(|op| matches!(op, Emit::StartBlock(_) | Emit::RestartBlock(_))).count()
}

fn count_closings(ops: &[Emit]) -> usize {
    ops.iter().filter(|op| matches!(op, Emit::EndBlock | Emit::RestartBlock(_))).count()
}

fn pair_model() -> Ir {
    Ir {
        items: vec![
            (
                text("Pair"),
                Item::Record(Record {
                    fields: vec![named("left", local("Leaf")), named("right", local("Leaf"))],
                    generics: vec![],
                }),
            ),
            (text("Leaf"), Item::Opaque),
        ],
        generics: vec![],
    }
}

fn rich_model() -> Ir {
    Ir {
        items: vec![
            (
                text("Query"),
                Item::Record(Record {
                    fields: vec![
                        named("body", Type::Indirection(Box::new(local("Expr")))),
                        named("limit", Type::Optional(Box::new(local("Expr")))),
                        named("order_by", Type::Sequence(Box::new(local("Expr")))),
                        named("distinct", Type::Primitive),
                        named("table", Type::Abstract(text("T::Table"))),
                    ],
                    generics: vec![ItemGeneric { name: text("T"), bounds: vec![text("AstInfo")] }],
                }),
            ),
            (
                text("Expr"),
                Item::Sum(Sum {
                    variants: vec![
                        Variant {
                            name: text("Binary"),
                            fields: vec![
                                named("left", Type::Indirection(Box::new(local("Expr")))),
                                named("op", Type::Primitive),
                                named("right", Type::Indirection(Box::new(local("Expr")))),
                            ],
                        },
                        Variant {
                            name: text("Nested"),
                            fields: vec![unnamed(Type::Sequence(Box::new(Type::Optional(
                                Box::new(local("Query")),
                            ))))],
                        },
                        Variant { name: text("Null"), fields: vec![] },
                    ],
                    generics: vec![ItemGeneric { name: text("T"), bounds: vec![text("AstInfo")] }],
                }),
            ),
            (text("Ident"), Item::Opaque),
            (
                text("Point"),
                Item::Record(Record {
                    fields: vec![unnamed(local("Ident")), unnamed(Type::Primitive), unnamed(local("Ident"))],
                    generics: vec![],
                }),
            ),
        ],
        generics: vec![(text("T"), vec![text("AstInfo"), text("Clone")]), (text("U"), vec![])],
    }
}

#[test]
fn primitive_emits_nothing() {
    assert_eq!(element(false, "x", &Type::Primitive), vec![]);
    assert_eq!(element(true, "x", &Type::Primitive), vec![]);
}

#[test]
fn local_emits_one_call() {
    assert_eq!(element(false, "x", &local("Expr")), vec![line("visitor.visit_expr(x);")]);
    assert_eq!(element(true, "x", &local("Expr")), vec![line("visitor.visit_expr_mut(x);")]);
}

#[test]
fn abstract_emits_one_call_on_the_final_component() {
    let ty = Type::Abstract(text("T::TableName"));
    assert_eq!(element(false, "x", &ty), vec![line("visitor.visit_table_name(x);")]);
    assert_eq!(element(true, "x", &ty), vec![line("visitor.visit_table_name_mut(x);")]);
}

#[test]
fn optional_wraps_one_call_in_a_presence_check() {
    let ty = Type::Optional(Box::new(local("Expr")));
    assert_eq!(
        element(false, "x", &ty),
        vec![open("if let Some(v) = x"), line("visitor.visit_expr(v);"), Emit::EndBlock]
    );
    assert_eq!(
        element(true, "x", &ty),
        vec![open("if let Some(v) = x"), line("visitor.visit_expr_mut(v);"), Emit::EndBlock]
    );
}

#[test]
fn sequence_wraps_one_call_in_an_iteration() {
    let ty = Type::Sequence(Box::new(local("Expr")));
    assert_eq!(
        element(false, "x", &ty),
        vec![open("for v in x"), line("visitor.visit_expr(v);"), Emit::EndBlock]
    );
    assert_eq!(
        element(true, "&mut node.items", &ty),
        vec![open("for v in &mut node.items"), line("visitor.visit_expr_mut(v);"), Emit::EndBlock]
    );
}

#[test]
fn indirection_dereferences_and_is_otherwise_transparent() {
    let ty = Type::Indirection(Box::new(local("Expr")));
    assert_eq!(element(false, "x", &ty), vec![line("visitor.visit_expr(&*x);")]);
    assert_eq!(element(true, "x", &ty), vec![line("visitor.visit_expr_mut(&mut *x);")]);
    assert_eq!(element(false, "x", &ty), element(false, "&*x", &local("Expr")));
    assert_eq!(element(true, "x", &ty), element(true, "&mut *x", &local("Expr")));
}

#[test]
fn indirection_around_primitive_emits_nothing() {
    let ty = Type::Indirection(Box::new(Type::Indirection(Box::new(Type::Primitive))));
    assert_eq!(element(false, "x", &ty), vec![]);
}

#[test]
fn wrappers_nest_to_any_depth() {
    let ty = Type::Optional(Box::new(Type::Sequence(Box::new(Type::Indirection(Box::new(
        Type::Optional(Box::new(local("Expr"))),
    ))))));
    assert_eq!(
        element(true, "&mut node.0", &ty),
        vec![
            open("if let Some(v) = &mut node.0"),
            open("for v in v"),
            open("if let Some(v) = &mut *v"),
            line("visitor.visit_expr_mut(v);"),
            Emit::EndBlock,
            Emit::EndBlock,
            Emit::EndBlock,
        ]
    );
}

#[test]
fn element_appends_to_what_the_script_holds() {
    let mut buf = Script::new();
    buf.start_block("fn f()");
    gen_visit_element(&VisitConfig { mutable: false }, &mut buf, "a", &local("A"));
    gen_visit_element(&VisitConfig { mutable: false }, &mut buf, "b", &Type::Primitive);
    gen_visit_element(&VisitConfig { mutable: false }, &mut buf, "c", &local("C"));
    assert_eq!(
        buf.ops,
        vec![open("fn f()"), line("visitor.visit_a(a);"), line("visitor.visit_c(c);")]
    );
}

#[test]
fn pair_and_leaf_read_only() {
    let script = gen_visit(&pair_model());
    assert_eq!(
        script.ops,
        vec![
            open("pub trait Visit<'ast, >"),
            open("fn visit_pair(&mut self, node: &'ast Pair)"),
            line("visit_pair(self, node)"),
            Emit::EndBlock,
            open("fn visit_leaf(&mut self, node: &'ast Leaf)"),
            line("visit_leaf(self, node)"),
            Emit::EndBlock,
            Emit::EndBlock,
            line("pub fn visit_pair<'ast, V, >(visitor: &mut V, node: &'ast Pair)"),
            line("where"),
            line("    V: Visit<'ast, > + ?Sized,"),
            open(""),
            line("visitor.visit_leaf(&node.left);"),
            line("visitor.visit_leaf(&node.right);"),
            Emit::EndBlock,
            line("pub fn visit_leaf<'ast, V, >(visitor: &mut V, node: &'ast Leaf)"),
            line("where"),
            line("    V: Visit<'ast, > + ?Sized,"),
            open(""),
            Emit::EndBlock,
        ]
    );
}

#[test]
fn pair_and_leaf_mutating() {
    let script = gen_visit_mut(&pair_model());
    assert_eq!(
        script.ops,
        vec![
            open("pub trait VisitMut<'ast, >"),
            open("fn visit_pair_mut(&mut self, node: &'ast mut Pair)"),
            line("visit_pair_mut(self, node)"),
            Emit::EndBlock,
            open("fn visit_leaf_mut(&mut self, node: &'ast mut Leaf)"),
            line("visit_leaf_mut(self, node)"),
            Emit::EndBlock,
            Emit::EndBlock,
            line("pub fn visit_pair_mut<'ast, V, >(visitor: &mut V, node: &'ast mut Pair)"),
            line("where"),
            line("    V: VisitMut<'ast, > + ?Sized,"),
            open(""),
            line("visitor.visit_leaf_mut(&mut node.left);"),
            line("visitor.visit_leaf_mut(&mut node.right);"),
            Emit::EndBlock,
            line("pub fn visit_leaf_mut<'ast, V, >(visitor: &mut V, node: &'ast mut Leaf)"),
            line("where"),
            line("    V: VisitMut<'ast, > + ?Sized,"),
            open(""),
            Emit::EndBlock,
        ]
    );
}

#[test]
fn empty_model_gives_an_empty_trait() {
    let ir = Ir { items: vec![], generics: vec![] };
    assert_eq!(gen_visit(&ir).ops, vec![open("pub trait Visit<'ast, >"), Emit::EndBlock]);
    assert_eq!(gen_visit_mut(&ir).ops, vec![open("pub trait VisitMut<'ast, >"), Emit::EndBlock]);
}

#[test]
fn opaque_item_has_method_and_empty_function() {
    let ir = Ir { items: vec![(text("Ident"), Item::Opaque)], generics: vec![] };
    assert_eq!(
        gen_visit(&ir).ops,
        vec![
            open("pub trait Visit<'ast, >"),
            open("fn visit_ident(&mut self, node: &'ast Ident)"),
            line("visit_ident(self, node)"),
            Emit::EndBlock,
            Emit::EndBlock,
            line("pub fn visit_ident<'ast, V, >(visitor: &mut V, node: &'ast Ident)"),
            line("where"),
            line("    V: Visit<'ast, > + ?Sized,"),
            open(""),
            Emit::EndBlock,
        ]
    );
}

#[test]
fn sum_variant_binds_every_field_and_recurses_into_local_only() {
    let ir = Ir {
        items: vec![(
            text("Shape"),
            Item::Sum(Sum {
                variants: vec![Variant {
                    name: text("Dot"),
                    fields: vec![named("a", local("X")), unnamed(Type::Primitive)],
                }],
                generics: vec![],
            }),
        )],
        generics: vec![],
    };
    assert_eq!(
        gen_visit(&ir).ops,
        vec![
            open("pub trait Visit<'ast, >"),
            open("fn visit_shape(&mut self, node: &'ast Shape)"),
            line("visit_shape(self, node)"),
            Emit::EndBlock,
            Emit::EndBlock,
            line("pub fn visit_shape<'ast, V, >(visitor: &mut V, node: &'ast Shape)"),
            line("where"),
            line("    V: Visit<'ast, > + ?Sized,"),
            open(""),
            open("match node"),
            open("Shape::Dot"),
            line("a: binding0,"),
            line("1: binding1,"),
            reopen("=>"),
            line("visitor.visit_x(binding0);"),
            Emit::EndBlock,
            Emit::EndBlock,
            Emit::EndBlock,
        ]
    );
}

#[test]
fn sum_without_variants_is_an_empty_match() {
    let ir = Ir {
        items: vec![(text("Never"), Item::Sum(Sum { variants: vec![], generics: vec![] }))],
        generics: vec![],
    };
    let ops = gen_visit_mut(&ir).ops;
    assert_eq!(&ops[8..], &[open(""), open("match node"), Emit::EndBlock, Emit::EndBlock]);
}

#[test]
fn unnamed_record_fields_are_reached_by_position() {
    let ir = Ir {
        items: vec![(
            text("Point"),
            Item::Record(Record {
                fields: vec![unnamed(local("X")), unnamed(Type::Primitive), unnamed(local("Y"))],
                generics: vec![],
            }),
        )],
        generics: vec![],
    };
    let ops = gen_visit(&ir).ops;
    assert_eq!(
        &ops[8..],
        &[
            open(""),
            line("visitor.visit_x(&node.0);"),
            line("visitor.visit_y(&node.2);"),
            Emit::EndBlock,
        ]
    );
    let ops = gen_visit_mut(&ir).ops;
    assert_eq!(
        &ops[8..],
        &[
            open(""),
            line("visitor.visit_x_mut(&mut node.0);"),
            line("visitor.visit_y_mut(&mut node.2);"),
            Emit::EndBlock,
        ]
    );
}

#[test]
fn rich_model_read_only() {
    let ops = gen_visit(&rich_model()).ops;
    let expected = vec![
        open("pub trait Visit<'ast, T: AstInfo+Clone, U, >"),
        open("fn visit_query(&mut self, node: &'ast Query<T>)"),
        line("visit_query(self, node)"),
        Emit::EndBlock,
        open("fn visit_expr(&mut self, node: &'ast Expr<T>)"),
        line("visit_expr(self, node)"),
        Emit::EndBlock,
        open("fn visit_ident(&mut self, node: &'ast Ident)"),
        line("visit_ident(self, node)"),
        Emit::EndBlock,
        open("fn visit_point(&mut self, node: &'ast Point)"),
        line("visit_point(self, node)"),
        Emit::EndBlock,
        Emit::EndBlock,
        line("pub fn visit_query<'ast, V, T: AstInfo+Clone, U, >(visitor: &mut V, node: &'ast Query<T>)"),
        line("where"),
        line("    V: Visit<'ast, T, U, > + ?Sized,"),
        open(""),
        line("visitor.visit_expr(&*&node.body);"),
        open("if let Some(v) = &node.limit"),
        line("visitor.visit_expr(v);"),
        Emit::EndBlock,
        open("for v in &node.order_by"),
        line("visitor.visit_expr(v);"),
        Emit::EndBlock,
        line("visitor.visit_table(&node.table);"),
        Emit::EndBlock,
        line("pub fn visit_expr<'ast, V, T: AstInfo+Clone, U, >(visitor: &mut V, node: &'ast Expr<T>)"),
        line("where"),
        line("    V: Visit<'ast, T, U, > + ?Sized,"),
        open(""),
        open("match node"),
        open("Expr::Binary"),
        line("left: binding0,"),
        line("op: binding1,"),
        line("right: binding2,"),
        reopen("=>"),
        line("visitor.visit_expr(&*binding0);"),
        line("visitor.visit_expr(&*binding2);"),
        Emit::EndBlock,
        open("Expr::Nested"),
        line("0: binding0,"),
        reopen("=>"),
        open("for v in binding0"),
        open("if let Some(v) = v"),
        line("visitor.visit_query(v);"),
        Emit::EndBlock,
        Emit::EndBlock,
        Emit::EndBlock,
        open("Expr::Null"),
        reopen("=>"),
        Emit::EndBlock,
        Emit::EndBlock,
        Emit::EndBlock,
        line("pub fn visit_ident<'ast, V, T: AstInfo+Clone, U, >(visitor: &mut V, node: &'ast Ident)"),
        line("where"),
        line("    V: Visit<'ast, T, U, > + ?Sized,"),
        open(""),
        Emit::EndBlock,
        line("pub fn visit_point<'ast, V, T: AstInfo+Clone, U, >(visitor: &mut V, node: &'ast Point)"),
        line("where"),
        line("    V: Visit<'ast, T, U, > + ?Sized,"),
        open(""),
        line("visitor.visit_ident(&node.0);"),
        line("visitor.visit_ident(&node.2);"),
        Emit::EndBlock,
    ];
    assert_eq!(ops, expected);
}

#[test]
fn rich_model_mutating_function_of_query() {
    let ops = gen_visit_mut(&rich_model()).ops;
    assert_eq!(
        &ops[14..27],
        &[
            line("pub fn visit_query_mut<'ast, V, T: AstInfo+Clone, U, >(visitor: &mut V, node: &'ast mut Query<T>)"),
            line("where"),
            line("    V: VisitMut<'ast, T, U, > + ?Sized,"),
            open(""),
            line("visitor.visit_expr_mut(&mut *&mut node.body);"),
            open("if let Some(v) = &mut node.limit"),
            line("visitor.visit_expr_mut(v);"),
            Emit::EndBlock,
            open("for v in &mut node.order_by"),
            line("visitor.visit_expr_mut(v);"),
            Emit::EndBlock,
            line("visitor.visit_table_mut(&mut node.table);"),
            Emit::EndBlock,
        ]
    );
}

#[test]
fn openings_equal_closings_in_both_kinds() {
    for ir in [pair_model(), rich_model(), Ir { items: vec![], generics: vec![] }] {
        for script in [gen_visit(&ir), gen_visit_mut(&ir)] {
            assert_eq!(count_openings(&script.ops), count_closings(&script.ops));
            assert!(script.is_well_nested());
        }
    }
}

#[test]
fn generation_twice_gives_the_same_script() {
    let ir = rich_model();
    assert_eq!(gen_visit(&ir), gen_visit(&ir));
    assert_eq!(gen_visit_mut(&ir), gen_visit_mut(&ir));
    assert_eq!(gen_visit(&ir), gen_visit(&rich_model()));
    assert_ne!(gen_visit(&ir), gen_visit_mut(&ir));
}

#[test]
fn root_with_either_kind_is_what_the_two_entry_points_give() {
    let ir = rich_model();
    assert_eq!(gen_visit_root(&VisitConfig { mutable: false }, &ir), gen_visit(&ir));
    assert_eq!(gen_visit_root(&VisitConfig { mutable: true }, &ir), gen_visit_mut(&ir));
}

#[test]
fn statements_follow_declared_field_order() {
    let names = ["zeta", "alpha", "mid", "beta", "omega"];
    let fields: Vec<Field> = names.iter().map(|n| named(n, local(n))).collect();
    let ir = Ir {
        items: vec![(text("Bag"), Item::Record(Record { fields, generics: vec![] }))],
        generics: vec![],
    };
    let ops = gen_visit(&ir).ops;
    let body: Vec<Emit> = names
        .iter()
        .map(|n| line(&format!("visitor.visit{}(&node.{});", n, n)))
        .collect();
    assert_eq!(&ops[9..14], body.as_slice());
}

#[test]
fn items_keep_declaration_order() {
    let ir = Ir {
        items: vec![
            (text("Zebra"), Item::Opaque),
            (text("Apple"), Item::Opaque),
            (text("Mango"), Item::Opaque),
        ],
        generics: vec![],
    };
    let ops = gen_visit(&ir).ops;
    assert_eq!(ops[1], open("fn visit_zebra(&mut self, node: &'ast Zebra)"));
    assert_eq!(ops[4], open("fn visit_apple(&mut self, node: &'ast Apple)"));
    assert_eq!(ops[7], open("fn visit_mango(&mut self, node: &'ast Mango)"));
    assert_eq!(ops[11], line("pub fn visit_zebra<'ast, V, >(visitor: &mut V, node: &'ast Zebra)"));
    assert_eq!(ops[16], line("pub fn visit_apple<'ast, V, >(visitor: &mut V, node: &'ast Apple)"));
    assert_eq!(ops[21], line("pub fn visit_mango<'ast, V, >(visitor: &mut V, node: &'ast Mango)"));
}

#[test]
fn binding_numbers_go_past_nine() {
    let fields: Vec<Field> = (0..12).map(|_| unnamed(Type::Primitive)).collect();
    let ir = Ir {
        items: vec![(
            text("Wide"),
            Item::Sum(Sum {
                variants: vec![Variant { name: text("All"), fields }],
                generics: vec![],
            }),
        )],
        generics: vec![],
    };
    let ops = gen_visit(&ir).ops;
    assert_eq!(ops[11], line("0: binding0,"));
    assert_eq!(ops[20], line("9: binding9,"));
    assert_eq!(ops[21], line("10: binding10,"));
    assert_eq!(ops[22], line("11: binding11,"));
    assert_eq!(ops[23], reopen("=>"));
}
