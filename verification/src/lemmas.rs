//! What holds of everything that generation emits: blocks are closed as
//! often as they are opened, fields are traversed in declaration order,
//! every item has its dispatch method, and equal models give equal scripts.

use vstd::prelude::*;
use crate::gen::{
    arm_body, arm_field_steps, arm_steps, arms, binding_name, deref_access, element_steps,
    field_access, forward_call, function_intro, function_steps, functions, item_body,
    method_header, method_steps, methods, pattern_line, pattern_lines, record_body,
    record_field_steps, trait_header, trait_steps, visit_script,
};
use crate::ir::{FieldView, Ir, IrView, ItemView, ParamView, TypeView, VariantView};
use crate::script::{
    block, lemma_nested_add, lemma_nested_block, lemma_nested_empty, lemma_nested_line,
    lemma_nested_split_block, well_nested, Script, Step,
};

verus! {

/// What is emitted for one value is well nested, whatever its type.
pub proof fn lemma_element_nested(mutable: bool, binding: Seq<char>, ty: TypeView)
    ensures
        well_nested(element_steps(mutable, binding, ty)),
    decreases ty,
{
    match ty {
        TypeView::Primitive => {
            lemma_nested_empty();
        },
        TypeView::Abstract(name) => {
            lemma_nested_line(crate::gen::dispatch_call(mutable, name, binding));
        },
        TypeView::Local(name) => {
            lemma_nested_line(crate::gen::dispatch_call(mutable, name, binding));
        },
        TypeView::Optional(inner) => {
            lemma_element_nested(mutable, "v"@, *inner);
            lemma_nested_block("if let Some(v) = "@ + binding, element_steps(mutable, "v"@, *inner));
        },
        TypeView::Sequence(inner) => {
            lemma_element_nested(mutable, "v"@, *inner);
            lemma_nested_block("for v in "@ + binding, element_steps(mutable, "v"@, *inner));
        },
        TypeView::Indirection(inner) => {
            lemma_element_nested(mutable, deref_access(mutable, binding), *inner);
        },
    }
}

/// A heap wrapper adds no step of its own: what is emitted for it is what
/// is emitted for the wrapped type, reached through a dereference.
pub proof fn lemma_indirection_is_transparent(mutable: bool, binding: Seq<char>, inner: TypeView)
    ensures
        element_steps(mutable, binding, TypeView::Indirection(Box::new(inner))) == element_steps(
            mutable,
            deref_access(mutable, binding),
            inner,
        ),
{
}

/// The body of a record's function is well nested.
pub proof fn lemma_record_body_nested(mutable: bool, fields: Seq<FieldView>)
    ensures
        well_nested(record_body(mutable, fields)),
    decreases fields.len(),
{
    if fields.len() == 0 {
        lemma_nested_empty();
    } else {
        lemma_record_body_nested(mutable, fields.drop_last());
        let last = fields.last();
        lemma_element_nested(mutable, field_access(mutable, fields.len() - 1, last), last.ty);
        lemma_nested_add(
            record_body(mutable, fields.drop_last()),
            record_field_steps(mutable, fields.len() - 1, last),
        );
    }
}

/// The pattern of a variant is well nested: it holds lines only.
pub proof fn lemma_pattern_lines_nested(fields: Seq<FieldView>)
    ensures
        well_nested(pattern_lines(fields)),
    decreases fields.len(),
{
    if fields.len() == 0 {
        lemma_nested_empty();
    } else {
        lemma_pattern_lines_nested(fields.drop_last());
        let line = Step::Line(pattern_line(fields.len() - 1, fields.last()));
        lemma_nested_line(pattern_line(fields.len() - 1, fields.last()));
        lemma_nested_add(pattern_lines(fields.drop_last()), seq![line]);
        assert(pattern_lines(fields) =~= pattern_lines(fields.drop_last()) + seq![line]);
    }
}

/// The body of a variant's branch is well nested.
pub proof fn lemma_arm_body_nested(mutable: bool, fields: Seq<FieldView>)
    ensures
        well_nested(arm_body(mutable, fields)),
    decreases fields.len(),
{
    if fields.len() == 0 {
        lemma_nested_empty();
    } else {
        lemma_arm_body_nested(mutable, fields.drop_last());
        lemma_element_nested(mutable, binding_name(fields.len() - 1), fields.last().ty);
        lemma_nested_add(
            arm_body(mutable, fields.drop_last()),
            arm_field_steps(mutable, fields.len() - 1, fields.last()),
        );
    }
}

/// The branches of a sum item are well nested.
pub proof fn lemma_arms_nested(mutable: bool, item_name: Seq<char>, variants: Seq<VariantView>)
    ensures
        well_nested(arms(mutable, item_name, variants)),
    decreases variants.len(),
{
    if variants.len() == 0 {
        lemma_nested_empty();
    } else {
        lemma_arms_nested(mutable, item_name, variants.drop_last());
        let v = variants.last();
        lemma_pattern_lines_nested(v.fields);
        lemma_arm_body_nested(mutable, v.fields);
        lemma_nested_split_block(
            item_name + "::"@ + v.name,
            pattern_lines(v.fields),
            "=>"@,
            arm_body(mutable, v.fields),
        );
        lemma_nested_add(
            arms(mutable, item_name, variants.drop_last()),
            arm_steps(mutable, item_name, v),
        );
    }
}

/// The body of an item's function is well nested.
pub proof fn lemma_item_body_nested(mutable: bool, name: Seq<char>, item: ItemView)
    ensures
        well_nested(item_body(mutable, name, item)),
{
    match item {
        ItemView::Record { fields, .. } => {
            lemma_record_body_nested(mutable, fields);
        },
        ItemView::Sum { variants, .. } => {
            lemma_arms_nested(mutable, name, variants);
            lemma_nested_block("match node"@, arms(mutable, name, variants));
        },
        ItemView::Opaque => {
            lemma_nested_empty();
        },
    }
}

/// The dispatch methods of any items are well nested.
pub proof fn lemma_methods_nested(mutable: bool, items: Seq<(Seq<char>, ItemView)>)
    ensures
        well_nested(methods(mutable, items)),
    decreases items.len(),
{
    if items.len() == 0 {
        lemma_nested_empty();
    } else {
        lemma_methods_nested(mutable, items.drop_last());
        let name = items.last().0;
        let item = items.last().1;
        lemma_nested_line(forward_call(mutable, name));
        lemma_nested_block(
            method_header(mutable, name, item),
            seq![Step::Line(forward_call(mutable, name))],
        );
        lemma_nested_add(methods(mutable, items.drop_last()), method_steps(mutable, name, item));
    }
}

/// The function of an item is well nested.
pub proof fn lemma_function_nested(
    mutable: bool,
    params: Seq<ParamView>,
    name: Seq<char>,
    item: ItemView,
)
    ensures
        well_nested(function_steps(mutable, params, name, item)),
{
    let intro = function_intro(mutable, params, name, item);
    let first = seq![intro[0]];
    let second = seq![intro[1]];
    let third = seq![intro[2]];
    lemma_nested_line(crate::gen::function_header(mutable, params, name, item));
    lemma_nested_line("where"@);
    lemma_nested_line(crate::gen::visitor_bound(mutable, params));
    lemma_nested_add(first, second);
    lemma_nested_add(first + second, third);
    assert(intro =~= first + second + third);
    lemma_item_body_nested(mutable, name, item);
    lemma_nested_block(""@, item_body(mutable, name, item));
    lemma_nested_add(intro, block(""@, item_body(mutable, name, item)));
}

/// The functions of any items are well nested.
pub proof fn lemma_functions_nested(
    mutable: bool,
    params: Seq<ParamView>,
    items: Seq<(Seq<char>, ItemView)>,
)
    ensures
        well_nested(functions(mutable, params, items)),
    decreases items.len(),
{
    if items.len() == 0 {
        lemma_nested_empty();
    } else {
        lemma_functions_nested(mutable, params, items.drop_last());
        lemma_function_nested(mutable, params, items.last().0, items.last().1);
        lemma_nested_add(
            functions(mutable, params, items.drop_last()),
            function_steps(mutable, params, items.last().0, items.last().1),
        );
    }
}

/// Whatever the model and the kind of traversal, the script opens as many
/// blocks as it closes, and never closes one that is not open.
pub proof fn lemma_visit_script_well_nested(mutable: bool, ir: IrView)
    ensures
        well_nested(visit_script(mutable, ir)),
        crate::script::opened(visit_script(mutable, ir)) == crate::script::closed(
            visit_script(mutable, ir),
        ),
{
    lemma_methods_nested(mutable, ir.items);
    lemma_nested_block(trait_header(mutable, ir.generics), methods(mutable, ir.items));
    lemma_functions_nested(mutable, ir.generics, ir.items);
    lemma_nested_add(trait_steps(mutable, ir), functions(mutable, ir.generics, ir.items));
}

/// Two runs on models that stand for the same thing give scripts that
/// stand for the same steps.
pub proof fn lemma_generation_deterministic(
    mutable: bool,
    first_ir: Ir,
    second_ir: Ir,
    first: Script,
    second: Script,
)
    requires
        first_ir@ == second_ir@,
        first@ == visit_script(mutable, first_ir@),
        second@ == visit_script(mutable, second_ir@),
    ensures
        first@ == second@,
{
}

/// The steps for the first `k` fields of a record stand at the start of
/// the steps for all of them.
pub proof fn lemma_record_body_prefix(mutable: bool, fields: Seq<FieldView>, k: int)
    requires
        0 <= k <= fields.len(),
    ensures
        record_body(mutable, fields.take(k)).len() <= record_body(mutable, fields).len(),
        record_body(mutable, fields).take(record_body(mutable, fields.take(k)).len() as int)
            == record_body(mutable, fields.take(k)),
    decreases fields.len() - k,
{
    let body = record_body(mutable, fields);
    let upto = record_body(mutable, fields.take(k));
    if k == fields.len() {
        assert(fields.take(k) =~= fields);
        assert(body.take(body.len() as int) =~= body);
    } else {
        lemma_record_body_prefix(mutable, fields, k + 1);
        let next = record_body(mutable, fields.take(k + 1));
        assert(fields.take(k + 1).drop_last() =~= fields.take(k));
        assert(next == upto + record_field_steps(mutable, k, fields[k]));
        assert(body.take(upto.len() as int) =~= body.take(next.len() as int).take(
            upto.len() as int,
        ));
        assert(next.take(upto.len() as int) =~= upto);
    }
}

/// In the body of a record's function the steps for field `i` follow
/// directly on those for the fields declared before it.
pub proof fn lemma_record_fields_in_order(mutable: bool, fields: Seq<FieldView>, i: int)
    requires
        0 <= i < fields.len(),
    ensures
        ({
            let body = record_body(mutable, fields);
            let before = record_body(mutable, fields.take(i));
            let own = record_field_steps(mutable, i, fields[i]);
            &&& before.len() + own.len() <= body.len()
            &&& body.take(before.len() as int) == before
            &&& body.subrange(before.len() as int, (before.len() + own.len()) as int) == own
        }),
{
    let body = record_body(mutable, fields);
    let before = record_body(mutable, fields.take(i));
    let own = record_field_steps(mutable, i, fields[i]);
    let upto = record_body(mutable, fields.take(i + 1));
    lemma_record_body_prefix(mutable, fields, i);
    lemma_record_body_prefix(mutable, fields, i + 1);
    assert(fields.take(i + 1).drop_last() =~= fields.take(i));
    assert(upto == before + own);
    assert(body.subrange(before.len() as int, (before.len() + own.len()) as int) =~= body.take(
        upto.len() as int,
    ).subrange(before.len() as int, (before.len() + own.len()) as int));
    assert(upto.subrange(before.len() as int, (before.len() + own.len()) as int) =~= own);
}

/// The steps for the first `k` fields of a variant stand at the start of
/// the steps for all of them.
pub proof fn lemma_arm_body_prefix(mutable: bool, fields: Seq<FieldView>, k: int)
    requires
        0 <= k <= fields.len(),
    ensures
        arm_body(mutable, fields.take(k)).len() <= arm_body(mutable, fields).len(),
        arm_body(mutable, fields).take(arm_body(mutable, fields.take(k)).len() as int)
            == arm_body(mutable, fields.take(k)),
    decreases fields.len() - k,
{
    let body = arm_body(mutable, fields);
    let upto = arm_body(mutable, fields.take(k));
    if k == fields.len() {
        assert(fields.take(k) =~= fields);
        assert(body.take(body.len() as int) =~= body);
    } else {
        lemma_arm_body_prefix(mutable, fields, k + 1);
        let next = arm_body(mutable, fields.take(k + 1));
        assert(fields.take(k + 1).drop_last() =~= fields.take(k));
        assert(next == upto + arm_field_steps(mutable, k, fields[k]));
        assert(body.take(upto.len() as int) =~= body.take(next.len() as int).take(
            upto.len() as int,
        ));
        assert(next.take(upto.len() as int) =~= upto);
    }
}

/// In the body of a variant's branch the steps for field `i` follow
/// directly on those for the fields declared before it.
pub proof fn lemma_arm_fields_in_order(mutable: bool, fields: Seq<FieldView>, i: int)
    requires
        0 <= i < fields.len(),
    ensures
        ({
            let body = arm_body(mutable, fields);
            let before = arm_body(mutable, fields.take(i));
            let own = arm_field_steps(mutable, i, fields[i]);
            &&& before.len() + own.len() <= body.len()
            &&& body.take(before.len() as int) == before
            &&& body.subrange(before.len() as int, (before.len() + own.len()) as int) == own
        }),
{
    let body = arm_body(mutable, fields);
    let before = arm_body(mutable, fields.take(i));
    let own = arm_field_steps(mutable, i, fields[i]);
    let upto = arm_body(mutable, fields.take(i + 1));
    lemma_arm_body_prefix(mutable, fields, i);
    lemma_arm_body_prefix(mutable, fields, i + 1);
    assert(fields.take(i + 1).drop_last() =~= fields.take(i));
    assert(upto == before + own);
    assert(body.subrange(before.len() as int, (before.len() + own.len()) as int) =~= body.take(
        upto.len() as int,
    ).subrange(before.len() as int, (before.len() + own.len()) as int));
    assert(upto.subrange(before.len() as int, (before.len() + own.len()) as int) =~= own);
}

/// The pattern of a variant binds every field: line `i` of the pattern is
/// the binding line of field `i`.
pub proof fn lemma_pattern_binds_every_field(fields: Seq<FieldView>, i: int)
    requires
        0 <= i < fields.len(),
    ensures
        pattern_lines(fields).len() == fields.len(),
        pattern_lines(fields)[i] == Step::Line(pattern_line(i, fields[i])),
    decreases fields.len(),
{
    lemma_pattern_lines_len(fields);
    if i < fields.len() - 1 {
        lemma_pattern_lines_len(fields.drop_last());
        lemma_pattern_binds_every_field(fields.drop_last(), i);
    } else {
        lemma_pattern_lines_len(fields.drop_last());
    }
}

/// Two fields of one variant are never bound to the same identifier.
pub proof fn lemma_bindings_distinct(i: int, j: int)
    requires
        0 <= i,
        0 <= j,
        i != j,
    ensures
        binding_name(i) != binding_name(j),
{
    let stem = "binding"@;
    if binding_name(i) == binding_name(j) {
        let len = stem.len() as int;
        assert(binding_name(i).subrange(len, binding_name(i).len() as int) =~= crate::text::decimal(
            i as nat,
        ));
        assert(binding_name(j).subrange(len, binding_name(j).len() as int) =~= crate::text::decimal(
            j as nat,
        ));
        crate::text::lemma_decimal_injective(i as nat, j as nat);
    }
}

/// A pattern has one line per field.
pub proof fn lemma_pattern_lines_len(fields: Seq<FieldView>)
    ensures
        pattern_lines(fields).len() == fields.len(),
    decreases fields.len(),
{
    if fields.len() != 0 {
        lemma_pattern_lines_len(fields.drop_last());
    }
}

/// The methods of any items take three steps each.
pub proof fn lemma_methods_len(mutable: bool, items: Seq<(Seq<char>, ItemView)>)
    ensures
        methods(mutable, items).len() == 3 * items.len(),
    decreases items.len(),
{
    if items.len() != 0 {
        lemma_methods_len(mutable, items.drop_last());
    }
}

/// Every item of the model, whatever its kind, has its dispatch method in
/// the trait: the methods stand in declaration order behind the trait's
/// opening, three steps each.
pub proof fn lemma_every_item_has_method(mutable: bool, ir: IrView, i: int)
    requires
        0 <= i < ir.items.len(),
    ensures
        3 * i + 4 <= visit_script(mutable, ir).len(),
        visit_script(mutable, ir).subrange(3 * i + 1, 3 * i + 4) == method_steps(
            mutable,
            ir.items[i].0,
            ir.items[i].1,
        ),
{
    let all = methods(mutable, ir.items);
    lemma_methods_len(mutable, ir.items);
    lemma_method_at(mutable, ir.items, i);
    let own = method_steps(mutable, ir.items[i].0, ir.items[i].1);
    let script = visit_script(mutable, ir);
    assert(script.subrange(3 * i + 1, 3 * i + 4) =~= all.subrange(3 * i, 3 * i + 3));
}

/// Among the methods of the items, those of item `i` are steps `3 * i` to
/// `3 * i + 2`.
pub proof fn lemma_method_at(mutable: bool, items: Seq<(Seq<char>, ItemView)>, i: int)
    requires
        0 <= i < items.len(),
    ensures
        methods(mutable, items).len() == 3 * items.len(),
        methods(mutable, items).subrange(3 * i, 3 * i + 3) == method_steps(
            mutable,
            items[i].0,
            items[i].1,
        ),
    decreases items.len(),
{
    lemma_methods_len(mutable, items);
    lemma_methods_len(mutable, items.drop_last());
    let front = methods(mutable, items.drop_last());
    let own = method_steps(mutable, items.last().0, items.last().1);
    if i < items.len() - 1 {
        lemma_method_at(mutable, items.drop_last(), i);
        lemma_part_of_front(front, own, 3 * i, 3 * i + 3);
    } else {
        lemma_back_part(front, own);
    }
}

/// A part of the front of two sequences in a row is a part of the first.
proof fn lemma_part_of_front(front: Seq<Step>, back: Seq<Step>, from: int, to: int)
    requires
        0 <= from <= to <= front.len(),
    ensures
        (front + back).subrange(from, to) == front.subrange(from, to),
{
    assert((front + back).subrange(from, to) =~= front.subrange(from, to));
}

/// Behind the first of two sequences in a row stands the second.
proof fn lemma_back_part(front: Seq<Step>, back: Seq<Step>)
    ensures
        (front + back).subrange(front.len() as int, (front.len() + back.len()) as int) == back,
{
    assert((front + back).subrange(front.len() as int, (front.len() + back.len()) as int) =~= back);
}

/// The function of an item without structure has an empty body: the lines
/// in front of it, the opening of the body and its closing.
pub proof fn lemma_opaque_function_is_empty(mutable: bool, params: Seq<ParamView>, name: Seq<char>)
    ensures
        item_body(mutable, name, ItemView::Opaque) == Seq::<Step>::empty(),
        function_steps(mutable, params, name, ItemView::Opaque) == function_intro(
            mutable,
            params,
            name,
            ItemView::Opaque,
        ) + seq![Step::Open(""@), Step::Close],
{
    assert(block(""@, Seq::<Step>::empty()) =~= seq![Step::Open(""@), Step::Close]);
}

} // verus!
