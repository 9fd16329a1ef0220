use vstd::prelude::*;
use vstd::string::*;
use crate::error::{Error, ErrorView};
use crate::sexp::{child_of, Sexp, SexpView, Shape, ShapeView};
use crate::types::{resolve, symbol_of, Type, TypeView};

verus! {

/// A named value of a contract: a deployment parameter, a state field or a
/// parameter of a transition.
#[derive(Debug, PartialEq)]
pub struct Field {
    pub name: String,
    pub ty: Type,
}

/// The mathematical value of a [`Field`].
pub struct FieldView {
    pub name: Seq<char>,
    pub ty: TypeView,
}

impl View for Field {
    type V = FieldView;

    open spec fn view(&self) -> FieldView {
        FieldView { name: self.name@, ty: self.ty@ }
    }
}

/// Fields in the order of their declaration. A name may occur more than
/// once.
#[derive(Debug, PartialEq)]
pub struct FieldList(pub Vec<Field>);

impl View for FieldList {
    type V = Seq<FieldView>;

    open spec fn view(&self) -> Seq<FieldView> {
        self.0@.map_values(|field: Field| field@)
    }
}

/// The identifier that a qualified name holds: the symbol that follows the
/// key in its entry `SimpleLocal`.
pub open spec fn identifier(wrapper: ShapeView) -> Option<Seq<char>> {
    symbol_of(child_of(wrapper.field("SimpleLocal"@), 0))
}

/// The identifier of the qualified name that the step gives.
pub open spec fn identifier_of(step: Option<SexpView>) -> Option<Seq<char>> {
    match step {
        Some(wrapper) => identifier(wrapper.shape),
        None => None,
    }
}

/// The field that a declaration stands for.
///
/// The declaration is a chain: a qualified name at position 0 and a type at
/// position 1; what follows them is not read. Without an identifier the
/// entry `SimpleLocal` is reported as missing, without a type the entry
/// `type`.
pub open spec fn parse_field(tree: SexpView) -> Result<FieldView, ErrorView> {
    match identifier_of(tree.shape.child_at(0)) {
        None => Err(ErrorView::NoSuchEntryInSexp("SimpleLocal"@)),
        Some(name) => match tree.shape.child_at(1) {
            None => Err(ErrorView::NoSuchEntryInSexp("type"@)),
            Some(declared) => Ok(FieldView { name: name, ty: resolve(declared) }),
        },
    }
}

/// The fields that declarations stand for, in the order of the
/// declarations. The first declaration that is refused decides the error.
pub open spec fn parse_fields(items: Seq<SexpView>) -> Result<Seq<FieldView>, ErrorView>
    decreases items.len(),
{
    if items.len() == 0 {
        Ok(Seq::empty())
    } else {
        match parse_fields(items.drop_last()) {
            Err(why) => Err(why),
            Ok(fields) => match parse_field(items.last()) {
                Err(why) => Err(why),
                Ok(field) => Ok(fields.push(field)),
            },
        }
    }
}

/// The fields that a tree declares: those of its elements where it is a
/// list, none where it is anything else.
pub open spec fn parse_field_list(tree: SexpView) -> Result<Seq<FieldView>, ErrorView> {
    if tree.shape.is_list() {
        parse_fields(tree.shape.items())
    } else {
        Ok(Seq::empty())
    }
}

/// The fields that the step's tree declares; none where the step gives no
/// tree.
pub open spec fn parse_field_list_of(step: Option<SexpView>) -> Result<Seq<FieldView>, ErrorView> {
    match step {
        Some(tree) => parse_field_list(tree),
        None => Ok(Seq::empty()),
    }
}

/// Once a declaration is refused, the declarations that follow it change
/// nothing.
pub proof fn lemma_refusal_stays(items: Seq<SexpView>, seen: int)
    requires
        0 <= seen <= items.len(),
        parse_fields(items.take(seen)) is Err,
    ensures
        parse_fields(items) == parse_fields(items.take(seen)),
    decreases items.len(),
{
    if seen == items.len() {
        assert(items.take(seen) =~= items);
    } else {
        assert(items.drop_last().take(seen) =~= items.take(seen));
        lemma_refusal_stays(items.drop_last(), seen);
    }
}

/// Fields come out one for each declaration, in the order of the
/// declarations, with no name left out or merged. Where a declaration is
/// refused, the error is that of the first such declaration.
pub proof fn lemma_fields_keep_order(items: Seq<SexpView>)
    ensures
        match parse_fields(items) {
            Ok(fields) => fields.len() == items.len() && forall|i: int|
                0 <= i < items.len() ==> parse_field(#[trigger] items[i]) == Ok::<
                    FieldView,
                    ErrorView,
                >(fields[i]),
            Err(why) => exists|i: int|
                0 <= i < items.len() && parse_field(#[trigger] items[i]) == Err::<
                    FieldView,
                    ErrorView,
                >(why) && forall|j: int| 0 <= j < i ==> parse_field(#[trigger] items[j]) is Ok,
        },
    decreases items.len(),
{
    if items.len() > 0 {
        let front = items.drop_last();
        lemma_fields_keep_order(front);
        match parse_fields(front) {
            Ok(fields) => {
                let last = items.len() - 1;
                assert forall|j: int| 0 <= j < last implies parse_field(#[trigger] items[j])
                    is Ok by {
                    assert(items[j] == front[j]);
                }
                match parse_field(items.last()) {
                    Ok(field) => {
                        assert forall|i: int| 0 <= i < items.len() implies parse_field(
                            #[trigger] items[i],
                        ) == Ok::<FieldView, ErrorView>(fields.push(field)[i]) by {
                            if i < last {
                                assert(items[i] == front[i]);
                            }
                        }
                    },
                    Err(why) => {
                        assert(parse_field(items[last]) == Err::<FieldView, ErrorView>(why));
                    },
                }
            },
            Err(why) => {
                let i = choose|i: int|
                    0 <= i < front.len() && parse_field(#[trigger] front[i]) == Err::<
                        FieldView,
                        ErrorView,
                    >(why) && forall|j: int| 0 <= j < i ==> parse_field(#[trigger] front[j]) is Ok;
                assert(items[i] == front[i]);
                assert forall|j: int| 0 <= j < i implies parse_field(#[trigger] items[j])
                    is Ok by {
                    assert(items[j] == front[j]);
                }
            },
        }
    }
}

/// Whether `fields` holds one field for each element of the list that the
/// step gives, at the same position; of no list, or none, no field at all.
pub open spec fn in_order_of(fields: Seq<FieldView>, step: Option<SexpView>) -> bool {
    match step {
        Some(tree) => if tree.shape.is_list() {
            let items = tree.shape.items();
            fields.len() == items.len() && forall|i: int|
                0 <= i < items.len() ==> parse_field(#[trigger] items[i]) == Ok::<
                    FieldView,
                    ErrorView,
                >(fields[i])
        } else {
            fields.len() == 0
        },
        None => fields.len() == 0,
    }
}

/// The fields that a tree declares stand in the order of its elements.
pub proof fn lemma_field_list_keeps_order(step: Option<SexpView>)
    ensures
        match parse_field_list_of(step) {
            Ok(fields) => in_order_of(fields, step),
            Err(_) => true,
        },
{
    match step {
        Some(tree) => {
            lemma_fields_keep_order(tree.shape.items());
        },
        None => {},
    }
}

/// The identifier that a qualified name holds.
pub(crate) fn read_identifier(wrapper: &Shape) -> (name: Option<&str>)
    ensures
        match name {
            Some(n) => identifier(wrapper@) == Some(n@),
            None => identifier(wrapper@) is None,
        },
{
    match wrapper.field("SimpleLocal") {
        Some(local) => match local.child_at(0) {
            Some(node) => node.shape.as_symbol(),
            None => None,
        },
        None => None,
    }
}

/// The identifier of the qualified name that the step gives.
pub(crate) fn read_identifier_of(step: Option<&Sexp>) -> (name: Option<&str>)
    ensures
        match (step, name) {
            (Some(wrapper), Some(n)) => identifier(wrapper@.shape) == Some(n@),
            (Some(wrapper), None) => identifier(wrapper@.shape) is None,
            (None, Some(_)) => false,
            (None, None) => true,
        },
{
    match step {
        Some(wrapper) => read_identifier(&wrapper.shape),
        None => None,
    }
}

impl Default for Field {
    /// A field without a name, of an unknown type without text.
    fn default() -> (field: Field)
        ensures
            field@ == (FieldView { name: Seq::empty(), ty: TypeView::Other(Seq::empty()) }),
    {
        Field { name: String::new(), ty: Type::Other(String::new()) }
    }
}

impl Field {
    /// A field of the given name and type.
    pub fn new(name: &str, ty: Type) -> (field: Field)
        ensures
            field@ == (FieldView { name: name@, ty: ty@ }),
    {
        Field { name: String::from_str(name), ty }
    }

    /// The field that a declaration stands for.
    ///
    /// Succeeds exactly where the declaration holds an identifier and a
    /// type; the type is resolved, and never refused.
    pub fn try_from(value: &Sexp) -> (parsed: Result<Field, Error>)
        ensures
            match parsed {
                Ok(field) => parse_field(value@) == Ok::<FieldView, ErrorView>(field@),
                Err(why) => parse_field(value@) == Err::<FieldView, ErrorView>(why@),
            },
    {
        let name = match read_identifier_of(value.shape.child_at(0)) {
            Some(name) => name,
            None => {
                return Err(Error::NoSuchEntryInSexp(String::from_str("SimpleLocal")));
            },
        };
        match value.shape.child_at(1) {
            Some(declared) => Ok(Field { name: String::from_str(name), ty: Type::from_sexp(declared) }),
            None => Err(Error::NoSuchEntryInSexp(String::from_str("type"))),
        }
    }
}

impl Default for FieldList {
    /// The empty list.
    fn default() -> (list: FieldList)
        ensures
            list@ == Seq::<FieldView>::empty(),
    {
        let list = FieldList(Vec::new());
        assert(list@ =~= Seq::<FieldView>::empty());
        list
    }
}

impl std::ops::Deref for FieldList {
    type Target = Vec<Field>;

    /// The fields, as a vector.
    fn deref(&self) -> (fields: &Vec<Field>)
        ensures
            *fields == self.0,
    {
        &self.0
    }
}

impl FieldList {
    /// The fields that a tree declares.
    ///
    /// A tree that is no list declares none. Of a list every element is
    /// read, in order: the result holds one field for each, or the error of
    /// the first element that is refused.
    pub fn try_from(value: &Sexp) -> (parsed: Result<FieldList, Error>)
        ensures
            match parsed {
                Ok(list) => parse_field_list(value@) == Ok::<Seq<FieldView>, ErrorView>(list@),
                Err(why) => parse_field_list(value@) == Err::<Seq<FieldView>, ErrorView>(why@),
            },
    {
        if !value.shape.is_list() {
            return Ok(FieldList::default());
        }
        let items = value.shape.items();
        let ghost declared = value@.shape.items();
        let mut fields: Vec<Field> = Vec::new();
        let mut seen: usize = 0;
        assert(declared.take(0) =~= Seq::<SexpView>::empty());
        assert(fields@.map_values(|field: Field| field@) =~= Seq::<FieldView>::empty());
        while seen < items.len()
            invariant
                value@.shape.is_list(),
                declared == value@.shape.items(),
                seen <= items@.len(),
                items@.len() == declared.len(),
                forall|i: int| 0 <= i < items@.len() ==> (#[trigger] items@[i])@ == declared[i],
                parse_fields(declared.take(seen as int)) == Ok::<Seq<FieldView>, ErrorView>(
                    fields@.map_values(|field: Field| field@),
                ),
            decreases items@.len() - seen,
        {
            let ghost before = fields@.map_values(|field: Field| field@);
            proof {
                assert(declared.take(seen + 1).drop_last() =~= declared.take(seen as int));
                assert(declared.take(seen + 1).last() == declared[seen as int]);
            }
            match Field::try_from(items[seen]) {
                Ok(field) => {
                    fields.push(field);
                    assert(fields@.map_values(|field: Field| field@) =~= before.push(field@));
                },
                Err(why) => {
                    proof {
                        assert(parse_fields(declared.take(seen + 1)) == Err::<
                            Seq<FieldView>,
                            ErrorView,
                        >(why@));
                        lemma_refusal_stays(declared, seen + 1);
                    }
                    return Err(why);
                },
            }
            seen = seen + 1;
        }
        assert(declared.take(seen as int) =~= declared);
        Ok(FieldList(fields))
    }

    /// The fields that the step's tree declares; none where the step gives
    /// no tree.
    pub(crate) fn try_from_step(step: Option<&Sexp>) -> (parsed: Result<FieldList, Error>)
        ensures
            match (step, parsed) {
                (Some(tree), Ok(list)) => parse_field_list(tree@) == Ok::<
                    Seq<FieldView>,
                    ErrorView,
                >(list@),
                (Some(tree), Err(why)) => parse_field_list(tree@) == Err::<
                    Seq<FieldView>,
                    ErrorView,
                >(why@),
                (None, Ok(list)) => list@ == Seq::<FieldView>::empty(),
                (None, Err(_)) => false,
            },
    {
        match step {
            Some(tree) => FieldList::try_from(tree),
            None => Ok(FieldList::default()),
        }
    }
}

} // verus!
