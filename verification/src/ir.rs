//! The data model that generation consumes: items, their fields and the
//! shapes of the field types, each with its mathematical view.

use vstd::prelude::*;

verus! {

/// The declared type of a field.
#[derive(Debug, PartialEq, Eq)]
pub enum Type {
    /// A value that holds nothing to traverse.
    Primitive,
    /// A type defined elsewhere, reached through a method of the visitor.
    Abstract(String),
    /// A value that may be absent.
    Optional(Box<Type>),
    /// Any number of values in a row.
    Sequence(Box<Type>),
    /// A single-owner heap wrapper, transparent to the traversal.
    Indirection(Box<Type>),
    /// Another item of the same model.
    Local(String),
}

/// What a `Type` stands for.
pub ghost enum TypeView {
    Primitive,
    Abstract(Seq<char>),
    Optional(Box<TypeView>),
    Sequence(Box<TypeView>),
    Indirection(Box<TypeView>),
    Local(Seq<char>),
}

/// The shape that `ty` stands for, level by level.
pub open spec fn shape_of(ty: Type) -> TypeView
    decreases ty,
{
    match ty {
        Type::Primitive => TypeView::Primitive,
        Type::Abstract(name) => TypeView::Abstract(name@),
        Type::Optional(inner) => TypeView::Optional(Box::new(shape_of(*inner))),
        Type::Sequence(inner) => TypeView::Sequence(Box::new(shape_of(*inner))),
        Type::Indirection(inner) => TypeView::Indirection(Box::new(shape_of(*inner))),
        Type::Local(name) => TypeView::Local(name@),
    }
}

impl View for Type {
    type V = TypeView;

    open spec fn view(&self) -> TypeView {
        shape_of(*self)
    }
}

/// One field of a record or of a variant. A field without a name is
/// addressed by its position.
#[derive(Debug, PartialEq, Eq)]
pub struct Field {
    pub name: Option<String>,
    pub ty: Type,
}

/// What a `Field` stands for.
pub ghost struct FieldView {
    pub name: Option<Seq<char>>,
    pub ty: TypeView,
}

impl View for Field {
    type V = FieldView;

    open spec fn view(&self) -> FieldView {
        FieldView {
            name: match self.name {
                Some(name) => Some(name@),
                None => None,
            },
            ty: self.ty@,
        }
    }
}

/// The views of a list of fields, in the same order.
pub open spec fn field_views(fields: Seq<Field>) -> Seq<FieldView> {
    fields.map_values(|f: Field| f@)
}

/// A type parameter of one item, with the bounds it was declared with.
#[derive(Debug, PartialEq, Eq)]
pub struct ItemGeneric {
    pub name: String,
    pub bounds: Vec<String>,
}

/// The names of an item's type parameters, in declaration order.
pub open spec fn generic_names(generics: Seq<ItemGeneric>) -> Seq<Seq<char>> {
    generics.map_values(|g: ItemGeneric| g.name@)
}

/// One alternative of a sum item.
#[derive(Debug, PartialEq, Eq)]
pub struct Variant {
    pub name: String,
    pub fields: Vec<Field>,
}

/// What a `Variant` stands for.
pub ghost struct VariantView {
    pub name: Seq<char>,
    pub fields: Seq<FieldView>,
}

impl View for Variant {
    type V = VariantView;

    open spec fn view(&self) -> VariantView {
        VariantView { name: self.name@, fields: field_views(self.fields@) }
    }
}

/// The views of a list of variants, in the same order.
pub open spec fn variant_views(variants: Seq<Variant>) -> Seq<VariantView> {
    variants.map_values(|v: Variant| v@)
}

/// An item made of fields.
#[derive(Debug, PartialEq, Eq)]
pub struct Record {
    pub fields: Vec<Field>,
    pub generics: Vec<ItemGeneric>,
}

/// An item made of alternatives.
#[derive(Debug, PartialEq, Eq)]
pub struct Sum {
    pub variants: Vec<Variant>,
    pub generics: Vec<ItemGeneric>,
}

/// One node type of the model.
#[derive(Debug, PartialEq, Eq)]
pub enum Item {
    Record(Record),
    Sum(Sum),
    /// A node type without declared structure: traversal ends at it.
    Opaque,
}

/// What an `Item` stands for. `generics` holds the names of the item's type
/// parameters; their bounds play no part in generation.
pub ghost enum ItemView {
    Record { fields: Seq<FieldView>, generics: Seq<Seq<char>> },
    Sum { variants: Seq<VariantView>, generics: Seq<Seq<char>> },
    Opaque,
}

impl ItemView {
    /// The names of the item's type parameters; an opaque item has none.
    pub open spec fn generics(self) -> Seq<Seq<char>> {
        match self {
            ItemView::Record { generics, .. } => generics,
            ItemView::Sum { generics, .. } => generics,
            ItemView::Opaque => Seq::empty(),
        }
    }
}

impl View for Item {
    type V = ItemView;

    open spec fn view(&self) -> ItemView {
        match self {
            Item::Record(r) => ItemView::Record {
                fields: field_views(r.fields@),
                generics: generic_names(r.generics@),
            },
            Item::Sum(s) => ItemView::Sum {
                variants: variant_views(s.variants@),
                generics: generic_names(s.generics@),
            },
            Item::Opaque => ItemView::Opaque,
        }
    }
}

/// A type parameter of the model with the names of the capabilities it
/// must have.
pub ghost struct ParamView {
    pub name: Seq<char>,
    pub bounds: Seq<Seq<char>>,
}

/// The view of one entry of `Ir::generics`.
pub open spec fn param_view(p: (String, Vec<String>)) -> ParamView {
    ParamView { name: p.0@, bounds: crate::text::texts(p.1@) }
}

/// The views of the model's type parameters, in the same order.
pub open spec fn param_views(params: Seq<(String, Vec<String>)>) -> Seq<ParamView> {
    params.map_values(|p: (String, Vec<String>)| param_view(p))
}

/// The view of one entry of `Ir::items`.
pub open spec fn entry_view(e: (String, Item)) -> (Seq<char>, ItemView) {
    (e.0@, e.1@)
}

/// The views of the model's items, in the same order.
pub open spec fn entry_views(items: Seq<(String, Item)>) -> Seq<(Seq<char>, ItemView)> {
    items.map_values(|e: (String, Item)| entry_view(e))
}

/// The whole model: every item under its name, in declaration order, and
/// the type parameters that all items share, each with its bounds.
#[derive(Debug, PartialEq, Eq)]
pub struct Ir {
    pub items: Vec<(String, Item)>,
    pub generics: Vec<(String, Vec<String>)>,
}

/// What an `Ir` stands for.
pub ghost struct IrView {
    pub items: Seq<(Seq<char>, ItemView)>,
    pub generics: Seq<ParamView>,
}

impl View for Ir {
    type V = IrView;

    open spec fn view(&self) -> IrView {
        IrView { items: entry_views(self.items@), generics: param_views(self.generics@) }
    }
}

impl IrView {
    /// The names of the items, in declaration order.
    pub open spec fn item_names(self) -> Seq<Seq<char>> {
        self.items.map_values(|e: (Seq<char>, ItemView)| e.0)
    }

    /// The names of the type parameters, in declaration order.
    pub open spec fn param_names(self) -> Seq<Seq<char>> {
        self.generics.map_values(|p: ParamView| p.name)
    }

    /// No two items share a name, no two type parameters share a name, and
    /// no type parameter names a bound twice.
    pub open spec fn well_formed(self) -> bool {
        &&& crate::text::distinct(self.item_names())
        &&& crate::text::distinct(self.param_names())
        &&& forall|k: int|
            0 <= k < self.generics.len() ==> crate::text::distinct(
                (#[trigger] self.generics[k]).bounds,
            )
    }
}

impl Ir {
    /// Tells whether the names in the model are unique: those of the items,
    /// those of the type parameters, and the bounds of each type parameter.
    /// Generation itself asks for none of this: it emits code for every
    /// entry, in order.
    pub fn is_well_formed(&self) -> (res: bool)
        ensures
            res == self@.well_formed(),
    {
        let mut item_names: Vec<String> = Vec::new();
        let mut i: usize = 0;
        while i < self.items.len()
            invariant
                i <= self.items.len(),
                item_names.len() == i,
                forall|j: int| 0 <= j < i ==> item_names@[j]@ == self.items@[j].0@,
            decreases self.items.len() - i,
        {
            item_names.push(self.items[i].0.clone());
            i += 1;
        }
        proof {
            assert(crate::text::texts(item_names@) =~= self@.item_names());
        }
        if !crate::text::are_distinct(&item_names) {
            return false;
        }
        let mut param_names: Vec<String> = Vec::new();
        let mut i: usize = 0;
        while i < self.generics.len()
            invariant
                i <= self.generics.len(),
                param_names.len() == i,
                forall|j: int| 0 <= j < i ==> param_names@[j]@ == self.generics@[j].0@,
            decreases self.generics.len() - i,
        {
            param_names.push(self.generics[i].0.clone());
            i += 1;
        }
        proof {
            assert(crate::text::texts(param_names@) =~= self@.param_names());
        }
        if !crate::text::are_distinct(&param_names) {
            return false;
        }
        let mut i: usize = 0;
        while i < self.generics.len()
            invariant
                i <= self.generics.len(),
                forall|k: int|
                    0 <= k < i ==> crate::text::distinct((#[trigger] self@.generics[k]).bounds),
            decreases self.generics.len() - i,
        {
            if !crate::text::are_distinct(&self.generics[i].1) {
                assert(!crate::text::distinct(self@.generics[i as int].bounds));
                return false;
            }
            i += 1;
        }
        true
    }
}

impl Item {
    /// The item's own type parameters; an opaque item has none.
    pub fn generics(&self) -> (res: &[ItemGeneric])
        ensures
            generic_names(res@) == self@.generics(),
    {
        match self {
            Item::Record(r) => r.generics.as_slice(),
            Item::Sum(s) => s.generics.as_slice(),
            Item::Opaque => &[],
        }
    }
}

} // verus!
