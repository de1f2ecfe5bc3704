//! Generation of the two traversals: the trait with one dispatch method per
//! item, and one free function per item that descends into the item's
//! fields.

use vstd::prelude::*;
use vstd::string::*;
use crate::generics::{
    bare_params, bounded_params, item_generics, item_params, trait_generics,
    trait_generics_and_bounds,
};
use crate::ir::{
    entry_views, field_views, variant_views, Field, FieldView, Ir, IrView, Item, ItemView,
    ParamView, Type, TypeView, Variant, VariantView,
};
use crate::names::{method_name, visit_fn_name, VisitConfig};
use crate::script::{block, split_block, Script, Step};
use crate::text::{decimal, decimal_text};

verus! {

/// The name of the generated trait.
pub open spec fn trait_name(mutable: bool) -> Seq<char> {
    if mutable {
        "VisitMut"@
    } else {
        "Visit"@
    }
}

/// The word that marks a reference as mutable, where it is.
pub open spec fn mut_word(mutable: bool) -> Seq<char> {
    if mutable {
        "mut "@
    } else {
        ""@
    }
}

/// The statement that hands the value reached by `binding` to the dispatch
/// method of the type called `name`.
pub open spec fn dispatch_call(mutable: bool, name: Seq<char>, binding: Seq<char>) -> Seq<char> {
    "visitor."@ + method_name(mutable, name) + "("@ + binding + ");"@
}

/// The expression that looks through a heap wrapper reached by `binding`.
pub open spec fn deref_access(mutable: bool, binding: Seq<char>) -> Seq<char> {
    if mutable {
        "&mut *"@ + binding
    } else {
        "&*"@ + binding
    }
}

/// What is emitted for one value of type `ty` reached by `binding`.
pub open spec fn element_steps(mutable: bool, binding: Seq<char>, ty: TypeView) -> Seq<Step>
    decreases ty,
{
    match ty {
        TypeView::Primitive => Seq::empty(),
        TypeView::Abstract(name) => seq![Step::Line(dispatch_call(mutable, name, binding))],
        TypeView::Local(name) => seq![Step::Line(dispatch_call(mutable, name, binding))],
        TypeView::Optional(inner) => block(
            "if let Some(v) = "@ + binding,
            element_steps(mutable, "v"@, *inner),
        ),
        TypeView::Sequence(inner) => block(
            "for v in "@ + binding,
            element_steps(mutable, "v"@, *inner),
        ),
        TypeView::Indirection(inner) => element_steps(
            mutable,
            deref_access(mutable, binding),
            *inner,
        ),
    }
}

/// How field `i` of a record is named behind `node.`: by its own name, or
/// by its position where it has none.
pub open spec fn field_label(i: int, f: FieldView) -> Seq<char> {
    match f.name {
        Some(name) => name,
        None => decimal(i as nat),
    }
}

/// The expression that reaches field `i` of the record `node`.
pub open spec fn field_access(mutable: bool, i: int, f: FieldView) -> Seq<char> {
    "&"@ + mut_word(mutable) + "node."@ + field_label(i, f)
}

/// What is emitted for field `i` of a record.
pub open spec fn record_field_steps(mutable: bool, i: int, f: FieldView) -> Seq<Step> {
    element_steps(mutable, field_access(mutable, i, f), f.ty)
}

/// The body of a record's function: the fields one after another.
pub open spec fn record_body(mutable: bool, fields: Seq<FieldView>) -> Seq<Step>
    decreases fields.len(),
{
    if fields.len() == 0 {
        Seq::empty()
    } else {
        record_body(mutable, fields.drop_last()) + record_field_steps(
            mutable,
            fields.len() - 1,
            fields.last(),
        )
    }
}

/// The identifier that field `i` of a matched variant is bound to.
pub open spec fn binding_name(i: int) -> Seq<char> {
    "binding"@ + decimal(i as nat)
}

/// The line of a variant's pattern that binds field `i`.
pub open spec fn pattern_line(i: int, f: FieldView) -> Seq<char> {
    field_label(i, f) + ": "@ + binding_name(i) + ","@
}

/// The pattern of a variant: one binding line per field.
pub open spec fn pattern_lines(fields: Seq<FieldView>) -> Seq<Step>
    decreases fields.len(),
{
    if fields.len() == 0 {
        Seq::empty()
    } else {
        pattern_lines(fields.drop_last()).push(
            Step::Line(pattern_line(fields.len() - 1, fields.last())),
        )
    }
}

/// What is emitted for field `i` of a matched variant.
pub open spec fn arm_field_steps(mutable: bool, i: int, f: FieldView) -> Seq<Step> {
    element_steps(mutable, binding_name(i), f.ty)
}

/// The body of a variant's branch: the bound fields one after another.
pub open spec fn arm_body(mutable: bool, fields: Seq<FieldView>) -> Seq<Step>
    decreases fields.len(),
{
    if fields.len() == 0 {
        Seq::empty()
    } else {
        arm_body(mutable, fields.drop_last()) + arm_field_steps(
            mutable,
            fields.len() - 1,
            fields.last(),
        )
    }
}

/// The branch for one variant of the item called `item_name`.
pub open spec fn arm_steps(mutable: bool, item_name: Seq<char>, v: VariantView) -> Seq<Step> {
    split_block(
        item_name + "::"@ + v.name,
        pattern_lines(v.fields),
        "=>"@,
        arm_body(mutable, v.fields),
    )
}

/// The branches for the variants of a sum item, in declaration order.
pub open spec fn arms(mutable: bool, item_name: Seq<char>, variants: Seq<VariantView>) -> Seq<
    Step,
>
    decreases variants.len(),
{
    if variants.len() == 0 {
        Seq::empty()
    } else {
        arms(mutable, item_name, variants.drop_last()) + arm_steps(
            mutable,
            item_name,
            variants.last(),
        )
    }
}

/// The body of the function that descends into an item.
pub open spec fn item_body(mutable: bool, name: Seq<char>, item: ItemView) -> Seq<Step> {
    match item {
        ItemView::Record { fields, .. } => record_body(mutable, fields),
        ItemView::Sum { variants, .. } => block("match node"@, arms(mutable, name, variants)),
        ItemView::Opaque => Seq::empty(),
    }
}

/// The type of the node that the code for an item receives.
pub open spec fn node_type(mutable: bool, name: Seq<char>, item: ItemView) -> Seq<char> {
    "&'ast "@ + mut_word(mutable) + name + item_params(item.generics())
}

/// The header of an item's dispatch method.
pub open spec fn method_header(mutable: bool, name: Seq<char>, item: ItemView) -> Seq<char> {
    "fn "@ + method_name(mutable, name) + "(&mut self, node: "@ + node_type(mutable, name, item)
        + ")"@
}

/// The statement by which a dispatch method hands on to the item's
/// function.
pub open spec fn forward_call(mutable: bool, name: Seq<char>) -> Seq<char> {
    method_name(mutable, name) + "(self, node)"@
}

/// The dispatch method of one item.
pub open spec fn method_steps(mutable: bool, name: Seq<char>, item: ItemView) -> Seq<Step> {
    block(method_header(mutable, name, item), seq![Step::Line(forward_call(mutable, name))])
}

/// The dispatch methods of all items, in declaration order.
pub open spec fn methods(mutable: bool, items: Seq<(Seq<char>, ItemView)>) -> Seq<Step>
    decreases items.len(),
{
    if items.len() == 0 {
        Seq::empty()
    } else {
        methods(mutable, items.drop_last()) + method_steps(
            mutable,
            items.last().0,
            items.last().1,
        )
    }
}

/// The header of the trait.
pub open spec fn trait_header(mutable: bool, params: Seq<ParamView>) -> Seq<char> {
    "pub trait "@ + trait_name(mutable) + "<'ast, "@ + bounded_params(params) + ">"@
}

/// The trait: one dispatch method per item.
pub open spec fn trait_steps(mutable: bool, ir: IrView) -> Seq<Step> {
    block(trait_header(mutable, ir.generics), methods(mutable, ir.items))
}

/// The first line of an item's function.
pub open spec fn function_header(
    mutable: bool,
    params: Seq<ParamView>,
    name: Seq<char>,
    item: ItemView,
) -> Seq<char> {
    "pub fn "@ + method_name(mutable, name) + "<'ast, V, "@ + bounded_params(params)
        + ">(visitor: &mut V, node: "@ + node_type(mutable, name, item) + ")"@
}

/// The line that bounds the visitor of an item's function.
pub open spec fn visitor_bound(mutable: bool, params: Seq<ParamView>) -> Seq<char> {
    "    V: "@ + trait_name(mutable) + "<'ast, "@ + bare_params(params) + "> + ?Sized,"@
}

/// The lines in front of the body of an item's function.
pub open spec fn function_intro(
    mutable: bool,
    params: Seq<ParamView>,
    name: Seq<char>,
    item: ItemView,
) -> Seq<Step> {
    seq![
        Step::Line(function_header(mutable, params, name, item)),
        Step::Line("where"@),
        Step::Line(visitor_bound(mutable, params)),
    ]
}

/// The function that descends into one item.
pub open spec fn function_steps(
    mutable: bool,
    params: Seq<ParamView>,
    name: Seq<char>,
    item: ItemView,
) -> Seq<Step> {
    function_intro(mutable, params, name, item) + block(""@, item_body(mutable, name, item))
}

/// The functions of all items, in declaration order.
pub open spec fn functions(
    mutable: bool,
    params: Seq<ParamView>,
    items: Seq<(Seq<char>, ItemView)>,
) -> Seq<Step>
    decreases items.len(),
{
    if items.len() == 0 {
        Seq::empty()
    } else {
        functions(mutable, params, items.drop_last()) + function_steps(
            mutable,
            params,
            items.last().0,
            items.last().1,
        )
    }
}

/// Everything that is emitted for a model: the trait, then the functions.
pub open spec fn visit_script(mutable: bool, ir: IrView) -> Seq<Step> {
    trait_steps(mutable, ir) + functions(mutable, ir.generics, ir.items)
}

/// Emits the code that traverses one value of type `ty` reached by
/// `binding`.
pub fn gen_visit_element(c: &VisitConfig, buf: &mut Script, binding: &str, ty: &Type)
    ensures
        final(buf)@ == old(buf)@ + element_steps(c.mutable, binding@, ty@),
    decreases ty,
{
    match ty {
        Type::Primitive => {
            assert(buf@ =~= old(buf)@ + element_steps(c.mutable, binding@, ty@));
        },
        Type::Abstract(name) => {
            let line = dispatch_line(c, name.as_str(), binding);
            buf.writeln(line.as_str());
            assert(buf@ =~= old(buf)@ + element_steps(c.mutable, binding@, ty@));
        },
        Type::Optional(inner) => {
            let mut header = String::from_str("if let Some(v) = ");
            header.append(binding);
            buf.start_block(header.as_str());
            gen_visit_element(c, buf, "v", inner);
            buf.end_block();
            assert(buf@ =~= old(buf)@ + element_steps(c.mutable, binding@, ty@));
        },
        Type::Sequence(inner) => {
            let mut header = String::from_str("for v in ");
            header.append(binding);
            buf.start_block(header.as_str());
            gen_visit_element(c, buf, "v", inner);
            buf.end_block();
            assert(buf@ =~= old(buf)@ + element_steps(c.mutable, binding@, ty@));
        },
        Type::Indirection(inner) => {
            let mut through = if c.mutable {
                String::from_str("&mut *")
            } else {
                String::from_str("&*")
            };
            through.append(binding);
            gen_visit_element(c, buf, through.as_str(), inner);
        },
        Type::Local(name) => {
            let line = dispatch_line(c, name.as_str(), binding);
            buf.writeln(line.as_str());
            assert(buf@ =~= old(buf)@ + element_steps(c.mutable, binding@, ty@));
        },
    }
}

/// Writes the call of the dispatch method of the type called `name` on the
/// value reached by `binding`.
fn dispatch_line(c: &VisitConfig, name: &str, binding: &str) -> (res: String)
    ensures
        res@ == dispatch_call(c.mutable, name@, binding@),
{
    let fn_name = visit_fn_name(c, name);
    let mut line = String::from_str("visitor.");
    line.append(fn_name.as_str());
    line.append("(");
    line.append(binding);
    line.append(");");
    line
}

/// Writes how field `i` is named behind `node.` or in a pattern.
fn field_label_text(i: usize, f: &Field) -> (res: String)
    ensures
        res@ == field_label(i as int, f@),
{
    match &f.name {
        Some(name) => name.clone(),
        None => decimal_text(i),
    }
}

/// Writes the identifier that field `i` of a matched variant is bound to.
fn binding_text(i: usize) -> (res: String)
    ensures
        res@ == binding_name(i as int),
{
    let mut out = String::from_str("binding");
    let digits = decimal_text(i);
    out.append(digits.as_str());
    out
}

/// Emits the body of a record's function: the traversal of each field, in
/// declaration order.
fn gen_record_body(c: &VisitConfig, buf: &mut Script, fields: &Vec<Field>)
    ensures
        final(buf)@ == old(buf)@ + record_body(c.mutable, field_views(fields@)),
{
    let muta = if c.mutable {
        "mut "
    } else {
        ""
    };
    let ghost all = field_views(fields@);
    let mut i: usize = 0;
    proof {
        assert(all.take(0) =~= Seq::<FieldView>::empty());
        assert(buf@ =~= old(buf)@ + record_body(c.mutable, all.take(0)));
    }
    while i < fields.len()
        invariant
            i <= fields.len(),
            all == field_views(fields@),
            muta@ == mut_word(c.mutable),
            buf@ == old(buf)@ + record_body(c.mutable, all.take(i as int)),
        decreases fields.len() - i,
    {
        let f = &fields[i];
        let mut binding = String::from_str("&");
        binding.append(muta);
        binding.append("node.");
        let label = field_label_text(i, f);
        binding.append(label.as_str());
        let ghost before = buf@;
        gen_visit_element(c, buf, binding.as_str(), &f.ty);
        proof {
            assert(all.take(i + 1).drop_last() =~= all.take(i as int));
            assert(all.take(i + 1).last() == f@);
            assert(buf@ =~= old(buf)@ + record_body(c.mutable, all.take(i + 1)));
        }
        i += 1;
    }
    proof {
        assert(all.take(fields.len() as int) =~= all);
    }
}

/// Emits the branch for one variant: the pattern that binds every field,
/// then the traversal of each bound field, in declaration order.
fn gen_arm(c: &VisitConfig, buf: &mut Script, item_name: &str, v: &Variant)
    ensures
        final(buf)@ == old(buf)@ + arm_steps(c.mutable, item_name@, v@),
{
    let ghost all = field_views(v.fields@);
    let mut header = String::from_str(item_name);
    header.append("::");
    header.append(v.name.as_str());
    buf.start_block(header.as_str());
    let ghost opened = buf@;
    let mut i: usize = 0;
    proof {
        assert(all.take(0) =~= Seq::<FieldView>::empty());
        assert(buf@ =~= opened + pattern_lines(all.take(0)));
    }
    while i < v.fields.len()
        invariant
            i <= v.fields.len(),
            all == field_views(v.fields@),
            buf@ == opened + pattern_lines(all.take(i as int)),
        decreases v.fields.len() - i,
    {
        let f = &v.fields[i];
        let mut line = field_label_text(i, f);
        line.append(": ");
        let binding = binding_text(i);
        line.append(binding.as_str());
        line.append(",");
        buf.writeln(line.as_str());
        proof {
            assert(all.take(i + 1).drop_last() =~= all.take(i as int));
            assert(all.take(i + 1).last() == f@);
            assert(buf@ =~= opened + pattern_lines(all.take(i + 1)));
        }
        i += 1;
    }
    proof {
        assert(all.take(v.fields.len() as int) =~= all);
    }
    buf.restart_block("=>");
    let ghost reopened = buf@;
    let mut i: usize = 0;
    proof {
        assert(all.take(0) =~= Seq::<FieldView>::empty());
        assert(buf@ =~= reopened + arm_body(c.mutable, all.take(0)));
    }
    while i < v.fields.len()
        invariant
            i <= v.fields.len(),
            all == field_views(v.fields@),
            buf@ == reopened + arm_body(c.mutable, all.take(i as int)),
        decreases v.fields.len() - i,
    {
        let f = &v.fields[i];
        let binding = binding_text(i);
        gen_visit_element(c, buf, binding.as_str(), &f.ty);
        proof {
            assert(all.take(i + 1).drop_last() =~= all.take(i as int));
            assert(all.take(i + 1).last() == f@);
            assert(buf@ =~= reopened + arm_body(c.mutable, all.take(i + 1)));
        }
        i += 1;
    }
    proof {
        assert(all.take(v.fields.len() as int) =~= all);
    }
    buf.end_block();
    proof {
        assert(buf@ =~= old(buf)@ + arm_steps(c.mutable, item_name@, v@));
    }
}

/// Emits the body of a sum item's function: a `match` with one branch per
/// variant, in declaration order.
fn gen_sum_body(c: &VisitConfig, buf: &mut Script, item_name: &str, variants: &Vec<Variant>)
    ensures
        final(buf)@ == old(buf)@ + block(
            "match node"@,
            arms(c.mutable, item_name@, variant_views(variants@)),
        ),
{
    let ghost all = variant_views(variants@);
    buf.start_block("match node");
    let ghost opened = buf@;
    let mut i: usize = 0;
    proof {
        assert(all.take(0) =~= Seq::<VariantView>::empty());
        assert(buf@ =~= opened + arms(c.mutable, item_name@, all.take(0)));
    }
    while i < variants.len()
        invariant
            i <= variants.len(),
            all == variant_views(variants@),
            buf@ == opened + arms(c.mutable, item_name@, all.take(i as int)),
        decreases variants.len() - i,
    {
        gen_arm(c, buf, item_name, &variants[i]);
        proof {
            assert(all.take(i + 1).drop_last() =~= all.take(i as int));
            assert(all.take(i + 1).last() == variants@[i as int]@);
            assert(buf@ =~= opened + arms(c.mutable, item_name@, all.take(i + 1)));
        }
        i += 1;
    }
    proof {
        assert(all.take(variants.len() as int) =~= all);
    }
    buf.end_block();
    proof {
        assert(buf@ =~= old(buf)@ + block("match node"@, arms(c.mutable, item_name@, all)));
    }
}

/// Writes the type of the node that the code for an item receives.
fn node_type_text(c: &VisitConfig, name: &str, item: &Item) -> (res: String)
    ensures
        res@ == node_type(c.mutable, name@, item@),
{
    let muta = if c.mutable {
        "mut "
    } else {
        ""
    };
    let generics = item_generics(item);
    let mut out = String::from_str("&'ast ");
    out.append(muta);
    out.append(name);
    out.append(generics.as_str());
    out
}

/// Emits the dispatch method of one item: its body hands on to the item's
/// function.
fn gen_method(c: &VisitConfig, buf: &mut Script, name: &str, item: &Item)
    ensures
        final(buf)@ == old(buf)@ + method_steps(c.mutable, name@, item@),
{
    let fn_name = visit_fn_name(c, name);
    let node = node_type_text(c, name, item);
    let mut header = String::from_str("fn ");
    header.append(fn_name.as_str());
    header.append("(&mut self, node: ");
    header.append(node.as_str());
    header.append(")");
    buf.start_block(header.as_str());
    let mut call = fn_name;
    call.append("(self, node)");
    buf.writeln(call.as_str());
    buf.end_block();
    proof {
        assert(buf@ =~= old(buf)@ + method_steps(c.mutable, name@, item@));
    }
}

/// Emits the function that descends into one item. `declared` and `bare`
/// are the model's type parameters as rendered for a declaration and for
/// handing on.
fn gen_function(
    c: &VisitConfig,
    buf: &mut Script,
    declared: &str,
    bare: &str,
    name: &str,
    item: &Item,
    Ghost(params): Ghost<Seq<ParamView>>,
)
    requires
        declared@ == bounded_params(params),
        bare@ == bare_params(params),
    ensures
        final(buf)@ == old(buf)@ + function_steps(c.mutable, params, name@, item@),
{
    let trait_name = if c.mutable {
        "VisitMut"
    } else {
        "Visit"
    };
    let fn_name = visit_fn_name(c, name);
    let node = node_type_text(c, name, item);
    let mut header = String::from_str("pub fn ");
    header.append(fn_name.as_str());
    header.append("<'ast, V, ");
    header.append(declared);
    header.append(">(visitor: &mut V, node: ");
    header.append(node.as_str());
    header.append(")");
    buf.writeln(header.as_str());
    buf.writeln("where");
    let mut bound = String::from_str("    V: ");
    bound.append(trait_name);
    bound.append("<'ast, ");
    bound.append(bare);
    bound.append("> + ?Sized,");
    buf.writeln(bound.as_str());
    buf.start_block("");
    let ghost opened = buf@;
    proof {
        assert(opened =~= old(buf)@ + function_intro(c.mutable, params, name@, item@)
            + seq![Step::Open(""@)]);
    }
    match item {
        Item::Record(r) => {
            gen_record_body(c, buf, &r.fields);
        },
        Item::Sum(s) => {
            gen_sum_body(c, buf, name, &s.variants);
        },
        Item::Opaque => {
            assert(buf@ =~= opened + item_body(c.mutable, name@, item@));
        },
    }
    assert(buf@ == opened + item_body(c.mutable, name@, item@));
    buf.end_block();
    proof {
        assert(buf@ =~= old(buf)@ + function_steps(c.mutable, params, name@, item@));
    }
}

/// Generates one traversal for the model: the trait with a dispatch method
/// for every item, then for every item the function that its method hands
/// on to. Every block that is opened is closed again.
pub fn gen_visit_root(c: &VisitConfig, ir: &Ir) -> (res: Script)
    ensures
        res@ == visit_script(c.mutable, ir@),
        crate::script::well_nested(res@),
{
    let trait_name = if c.mutable {
        "VisitMut"
    } else {
        "Visit"
    };
    let bare = trait_generics(&ir.generics);
    let declared = trait_generics_and_bounds(&ir.generics);
    let ghost all = entry_views(ir.items@);

    let mut buf = Script::new();

    let mut header = String::from_str("pub trait ");
    header.append(trait_name);
    header.append("<'ast, ");
    header.append(declared.as_str());
    header.append(">");
    buf.start_block(header.as_str());
    let ghost opened = buf@;
    let mut i: usize = 0;
    proof {
        assert(all.take(0) =~= Seq::<(Seq<char>, ItemView)>::empty());
        assert(buf@ =~= opened + methods(c.mutable, all.take(0)));
    }
    while i < ir.items.len()
        invariant
            i <= ir.items.len(),
            all == entry_views(ir.items@),
            buf@ == opened + methods(c.mutable, all.take(i as int)),
        decreases ir.items.len() - i,
    {
        let entry = &ir.items[i];
        gen_method(c, &mut buf, entry.0.as_str(), &entry.1);
        proof {
            assert(all.take(i + 1).drop_last() =~= all.take(i as int));
            assert(all.take(i + 1).last() == (entry.0@, entry.1@));
            assert(buf@ =~= opened + methods(c.mutable, all.take(i + 1)));
        }
        i += 1;
    }
    proof {
        assert(all.take(ir.items.len() as int) =~= all);
    }
    buf.end_block();
    let ghost declared_all = buf@;
    proof {
        assert(declared_all =~= trait_steps(c.mutable, ir@));
    }

    let mut i: usize = 0;
    proof {
        assert(buf@ =~= declared_all + functions(c.mutable, ir@.generics, all.take(0)));
    }
    while i < ir.items.len()
        invariant
            i <= ir.items.len(),
            all == entry_views(ir.items@),
            declared@ == bounded_params(ir@.generics),
            bare@ == bare_params(ir@.generics),
            buf@ == declared_all + functions(c.mutable, ir@.generics, all.take(i as int)),
        decreases ir.items.len() - i,
    {
        let entry = &ir.items[i];
        gen_function(
            c,
            &mut buf,
            declared.as_str(),
            bare.as_str(),
            entry.0.as_str(),
            &entry.1,
            Ghost(ir@.generics),
        );
        proof {
            assert(all.take(i + 1).drop_last() =~= all.take(i as int));
            assert(all.take(i + 1).last() == (entry.0@, entry.1@));
            assert(buf@ =~= declared_all + functions(c.mutable, ir@.generics, all.take(i + 1)));
        }
        i += 1;
    }
    proof {
        assert(all.take(ir.items.len() as int) =~= all);
        crate::lemmas::lemma_visit_script_well_nested(c.mutable, ir@);
    }
    buf
}

/// Generates the traversal that reads the nodes it visits.
pub fn gen_visit(ir: &Ir) -> (res: Script)
    ensures
        res@ == visit_script(false, ir@),
        crate::script::well_nested(res@),
{
    gen_visit_root(&VisitConfig { mutable: false }, ir)
}

/// Generates the traversal that may change the nodes it visits.
pub fn gen_visit_mut(ir: &Ir) -> (res: Script)
    ensures
        res@ == visit_script(true, ir@),
        crate::script::well_nested(res@),
{
    gen_visit_root(&VisitConfig { mutable: true }, ir)
}

} // verus!
