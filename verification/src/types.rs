use vstd::prelude::*;
use vstd::string::*;
use crate::error::Error;
use crate::sexp::{child_of, field_of, lemma_child_smaller, reader_output, shape_of};
use crate::sexp::{Sexp, SexpView, Shape, ShapeView};
use crate::text::{decimal, decimal_string, same_text};

verus! {

/// The signature of a Scilla type.
#[derive(Debug, PartialEq)]
pub enum Type {
    Int32,
    Int64,
    Int128,
    Int256,
    Uint32,
    Uint64,
    Uint128,
    Uint256,
    String,
    /// A block number.
    BNum,
    /// A map, with the types of its keys and of its values.
    Mapping(Box<Type>, Box<Type>),
    /// A byte string of the given length.
    ByStr(usize),
    Bool,
    Option(Box<Type>),
    Pair(Box<Type>, Box<Type>),
    List(Box<Type>),
    /// Any type that the resolver does not know, as the text it was written
    /// as.
    Other(String),
}

/// The mathematical value of a [`Type`].
pub enum TypeView {
    Int32,
    Int64,
    Int128,
    Int256,
    Uint32,
    Uint64,
    Uint128,
    Uint256,
    String,
    BNum,
    Mapping(Box<TypeView>, Box<TypeView>),
    ByStr(nat),
    Bool,
    Option(Box<TypeView>),
    Pair(Box<TypeView>, Box<TypeView>),
    List(Box<TypeView>),
    Other(Seq<char>),
}

impl Type {
    /// The mathematical value of the type.
    pub open spec fn model(self) -> TypeView
        decreases self,
    {
        match self {
            Type::Int32 => TypeView::Int32,
            Type::Int64 => TypeView::Int64,
            Type::Int128 => TypeView::Int128,
            Type::Int256 => TypeView::Int256,
            Type::Uint32 => TypeView::Uint32,
            Type::Uint64 => TypeView::Uint64,
            Type::Uint128 => TypeView::Uint128,
            Type::Uint256 => TypeView::Uint256,
            Type::String => TypeView::String,
            Type::BNum => TypeView::BNum,
            Type::Mapping(key, value) => TypeView::Mapping(Box::new(key.model()), Box::new(value.model())),
            Type::ByStr(length) => TypeView::ByStr(length as nat),
            Type::Bool => TypeView::Bool,
            Type::Option(inner) => TypeView::Option(Box::new(inner.model())),
            Type::Pair(first, second) => TypeView::Pair(
                Box::new(first.model()),
                Box::new(second.model()),
            ),
            Type::List(inner) => TypeView::List(Box::new(inner.model())),
            Type::Other(raw) => TypeView::Other(raw@),
        }
    }
}

impl View for Type {
    type V = TypeView;

    open spec fn view(&self) -> TypeView {
        self.model()
    }
}

/// The type that a primitive's name stands for; `None` for a name that is
/// none of the known ones.
pub open spec fn primitive(name: Seq<char>) -> Option<TypeView> {
    if name == "Int32"@ {
        Some(TypeView::Int32)
    } else if name == "Int64"@ {
        Some(TypeView::Int64)
    } else if name == "Int128"@ {
        Some(TypeView::Int128)
    } else if name == "Int256"@ {
        Some(TypeView::Int256)
    } else if name == "Uint32"@ {
        Some(TypeView::Uint32)
    } else if name == "Uint64"@ {
        Some(TypeView::Uint64)
    } else if name == "Uint128"@ {
        Some(TypeView::Uint128)
    } else if name == "Uint256"@ {
        Some(TypeView::Uint256)
    } else if name == "String"@ {
        Some(TypeView::String)
    } else if name == "ByStr20"@ {
        Some(TypeView::ByStr(20))
    } else if name == "BNum"@ {
        Some(TypeView::BNum)
    } else {
        None
    }
}

/// The symbol that a chain begins with.
pub open spec fn tag(shape: ShapeView) -> Option<Seq<char>> {
    symbol_of(shape.child_at(0))
}

/// The name of the symbol that the step gives, if it gives a symbol.
pub open spec fn symbol_of(step: Option<SexpView>) -> Option<Seq<char>> {
    match step {
        Some(tree) => tree.shape.symbol(),
        None => None,
    }
}

/// The node that names the constructor of an algebraic type: the first value
/// of the entry `SimpleLocal`, inside what follows the entry `Ident`.
pub open spec fn constructor(shape: ShapeView) -> Option<SexpView> {
    child_of(field_of(shape.field("Ident"@), "SimpleLocal"@), 0)
}

/// The type argument at position `i` of an algebraic type: the element `i`
/// of the list that stands at position 2.
pub open spec fn argument(shape: ShapeView, i: nat) -> Option<SexpView> {
    child_of(shape_of(shape.child_at(2)), i)
}

/// The type that a tree stands for.
///
/// A chain that begins with `PrimType` is the primitive that its second
/// element names. One that begins with `MapType` is a map from the type at
/// position 1 to the type at position 2. One that begins with `ADT` is the
/// algebraic type that its constructor names: `Bool`, `Option` and `List` of
/// the first argument, `Pair` of the first two; another constructor gives
/// `Other` of the constructor's text. Every tree that has none of these
/// forms, or lacks a part that its form needs, is `Other` of its own text.
pub open spec fn resolve(tree: SexpView) -> TypeView
    decreases tree.size(),
{
    resolve_as(tree.shape, tree.text)
}

/// The type that a tree of the given shape stands for, where `raw` is the
/// text that the tree was written as.
pub open spec fn resolve_as(shape: ShapeView, raw: Seq<char>) -> TypeView
    decreases shape.size(),
{
    let unknown = TypeView::Other(raw);
    if tag(shape) == Some("PrimType"@) {
        match symbol_of(shape.child_at(1)) {
            Some(name) => match primitive(name) {
                Some(known) => known,
                None => unknown,
            },
            None => unknown,
        }
    } else if tag(shape) == Some("MapType"@) {
        match (shape.child_at(1), shape.child_at(2)) {
            (Some(key), Some(value)) => {
                proof {
                    lemma_child_smaller(shape, 1);
                    lemma_child_smaller(shape, 2);
                }
                TypeView::Mapping(Box::new(resolve(key)), Box::new(resolve(value)))
            },
            _ => unknown,
        }
    } else if tag(shape) == Some("ADT"@) {
        match constructor(shape) {
            Some(node) => match node.shape.symbol() {
                Some(name) => if name == "Bool"@ {
                    TypeView::Bool
                } else if name == "Option"@ {
                    match argument(shape, 0) {
                        Some(inner) => {
                            proof {
                                lemma_argument_smaller(shape, 0);
                            }
                            TypeView::Option(Box::new(resolve(inner)))
                        },
                        None => unknown,
                    }
                } else if name == "List"@ {
                    match argument(shape, 0) {
                        Some(inner) => {
                            proof {
                                lemma_argument_smaller(shape, 0);
                            }
                            TypeView::List(Box::new(resolve(inner)))
                        },
                        None => unknown,
                    }
                } else if name == "Pair"@ {
                    match (argument(shape, 0), argument(shape, 1)) {
                        (Some(first), Some(second)) => {
                            proof {
                                lemma_argument_smaller(shape, 0);
                                lemma_argument_smaller(shape, 1);
                            }
                            TypeView::Pair(Box::new(resolve(first)), Box::new(resolve(second)))
                        },
                        _ => unknown,
                    }
                } else {
                    TypeView::Other(node.text)
                },
                None => unknown,
            },
            None => unknown,
        }
    } else {
        unknown
    }
}

/// A type argument is made of fewer values than the algebraic type.
pub proof fn lemma_argument_smaller(shape: ShapeView, i: nat)
    ensures
        match argument(shape, i) {
            Some(inner) => inner.size() < shape.size(),
            None => true,
        },
{
    lemma_child_smaller(shape, 2);
    match shape.child_at(2) {
        Some(arguments) => {
            lemma_child_smaller(arguments.shape, i);
        },
        None => {},
    }
}

/// A tree with a name that the resolver does not know still has a type: an
/// unknown constructor of an algebraic type gives `Other` of the
/// constructor's text, an unknown primitive and an unknown leading symbol
/// give `Other` of the tree's text.
pub proof fn lemma_unknown_names_degrade(tree: SexpView)
    ensures
        tag(tree.shape) == Some("ADT"@) ==> match constructor(tree.shape) {
            Some(node) => match node.shape.symbol() {
                Some(name) => name != "Bool"@ && name != "Option"@ && name != "List"@ && name
                    != "Pair"@ ==> resolve(tree) == TypeView::Other(node.text),
                None => resolve(tree) == TypeView::Other(tree.text),
            },
            None => resolve(tree) == TypeView::Other(tree.text),
        },
        tag(tree.shape) == Some("PrimType"@) ==> match symbol_of(tree.shape.child_at(1)) {
            Some(name) => primitive(name) is None ==> resolve(tree) == TypeView::Other(tree.text),
            None => resolve(tree) == TypeView::Other(tree.text),
        },
        tag(tree.shape) != Some("ADT"@) && tag(tree.shape) != Some("PrimType"@) && tag(tree.shape)
            != Some("MapType"@) ==> resolve(tree) == TypeView::Other(tree.text),
{
    reveal_strlit("ADT");
    reveal_strlit("PrimType");
    reveal_strlit("MapType");
    assert("ADT"@.len() == 3 && "PrimType"@.len() == 8 && "MapType"@.len() == 7);
}

/// An unknown type is written as the text it was read from: where a text is
/// read as `Other` of itself, the type's rendering is that text again, and
/// reading the rendering gives the same type.
pub proof fn lemma_unknown_type_reads_back(raw: Seq<char>)
    requires
        reader_output(raw) is Some,
        resolve_as(reader_output(raw).unwrap().shape, raw) == TypeView::Other(raw),
    ensures
        ({
            let ty = resolve_as(reader_output(raw).unwrap().shape, raw);
            &&& rendering(ty) == raw
            &&& reader_output(rendering(ty)) is Some
            &&& resolve_as(reader_output(rendering(ty)).unwrap().shape, rendering(ty)) == ty
        }),
{
}

/// How a type is written.
///
/// A compound type stands in brackets, its name first; the two parts of a
/// map are parted by a comma and a space, those of a pair by a space. A byte
/// string is `ByStr` and its length in decimal. An unknown type is its text.
pub open spec fn rendering(ty: TypeView) -> Seq<char>
    decreases ty,
{
    match ty {
        TypeView::Int32 => "Int32"@,
        TypeView::Int64 => "Int64"@,
        TypeView::Int128 => "Int128"@,
        TypeView::Int256 => "Int256"@,
        TypeView::Uint32 => "Uint32"@,
        TypeView::Uint64 => "Uint64"@,
        TypeView::Uint128 => "Uint128"@,
        TypeView::Uint256 => "Uint256"@,
        TypeView::String => "String"@,
        TypeView::BNum => "BNum"@,
        TypeView::Bool => "Bool"@,
        TypeView::Mapping(key, value) => "(Map "@ + rendering(*key) + ", "@ + rendering(*value) + ")"@,
        TypeView::Option(inner) => "(Option "@ + rendering(*inner) + ")"@,
        TypeView::List(inner) => "(List "@ + rendering(*inner) + ")"@,
        TypeView::Pair(first, second) => "(Pair "@ + rendering(*first) + " "@ + rendering(*second)
            + ")"@,
        TypeView::ByStr(length) => "ByStr"@ + decimal(length),
        TypeView::Other(raw) => raw,
    }
}

/// The primitive that a name stands for.
fn primitive_type(name: &str) -> (known: Option<Type>)
    ensures
        match known {
            Some(ty) => primitive(name@) == Some(ty@),
            None => primitive(name@) is None,
        },
{
    if same_text(name, "Int32") {
        Some(Type::Int32)
    } else if same_text(name, "Int64") {
        Some(Type::Int64)
    } else if same_text(name, "Int128") {
        Some(Type::Int128)
    } else if same_text(name, "Int256") {
        Some(Type::Int256)
    } else if same_text(name, "Uint32") {
        Some(Type::Uint32)
    } else if same_text(name, "Uint64") {
        Some(Type::Uint64)
    } else if same_text(name, "Uint128") {
        Some(Type::Uint128)
    } else if same_text(name, "Uint256") {
        Some(Type::Uint256)
    } else if same_text(name, "String") {
        Some(Type::String)
    } else if same_text(name, "ByStr20") {
        Some(Type::ByStr(20))
    } else if same_text(name, "BNum") {
        Some(Type::BNum)
    } else {
        None
    }
}

/// The name of the symbol at position `i` of a chain.
fn symbol_at(shape: &Shape, i: usize) -> (name: Option<&str>)
    ensures
        match name {
            Some(n) => symbol_of(shape@.child_at(i as nat)) == Some(n@),
            None => symbol_of(shape@.child_at(i as nat)) is None,
        },
{
    match shape.child_at(i) {
        Some(tree) => tree.shape.as_symbol(),
        None => None,
    }
}

/// The node that names the constructor of an algebraic type.
fn constructor_of(shape: &Shape) -> (node: Option<&Sexp>)
    ensures
        match node {
            Some(tree) => constructor(shape@) == Some(tree@),
            None => constructor(shape@) is None,
        },
{
    match shape.field("Ident") {
        Some(ident) => match ident.field("SimpleLocal") {
            Some(local) => local.child_at(0),
            None => None,
        },
        None => None,
    }
}

/// The type argument at position `i` of an algebraic type.
fn argument_of(shape: &Shape, i: usize) -> (inner: Option<&Sexp>)
    ensures
        match inner {
            Some(tree) => argument(shape@, i as nat) == Some(tree@),
            None => argument(shape@, i as nat) is None,
        },
{
    match shape.child_at(2) {
        Some(arguments) => arguments.shape.child_at(i),
        None => None,
    }
}

impl Type {
    /// The type that a tree stands for. Every tree stands for one: what the
    /// resolver does not know becomes `Other`.
    pub fn from_sexp(tree: &Sexp) -> (ty: Type)
        ensures
            ty@ == resolve(tree@),
        decreases tree@.size(),
    {
        Type::from_shape(&tree.shape, tree.text.as_str())
    }

    /// The type that a tree of the given shape stands for, where `raw` is
    /// the text that the tree was written as.
    pub fn from_shape(shape: &Shape, raw: &str) -> (ty: Type)
        ensures
            ty@ == resolve_as(shape@, raw@),
        decreases shape@.size(),
    {
        let head = symbol_at(shape, 0);
        if head.is_none() {
            return Type::Other(String::from_str(raw));
        }
        let head = head.unwrap();
        if same_text(head, "PrimType") {
            let known = match symbol_at(shape, 1) {
                Some(name) => primitive_type(name),
                None => None,
            };
            match known {
                Some(ty) => ty,
                None => Type::Other(String::from_str(raw)),
            }
        } else if same_text(head, "MapType") {
            match (shape.child_at(1), shape.child_at(2)) {
                (Some(key), Some(value)) => {
                    proof {
                        lemma_child_smaller(shape@, 1);
                        lemma_child_smaller(shape@, 2);
                    }
                    Type::Mapping(Box::new(Type::from_sexp(key)), Box::new(Type::from_sexp(value)))
                },
                _ => Type::Other(String::from_str(raw)),
            }
        } else if same_text(head, "ADT") {
            let node = match constructor_of(shape) {
                Some(node) => node,
                None => {
                    return Type::Other(String::from_str(raw));
                },
            };
            let name = match node.shape.as_symbol() {
                Some(name) => name,
                None => {
                    return Type::Other(String::from_str(raw));
                },
            };
            proof {
                lemma_argument_smaller(shape@, 0);
                lemma_argument_smaller(shape@, 1);
            }
            if same_text(name, "Bool") {
                Type::Bool
            } else if same_text(name, "Option") {
                match argument_of(shape, 0) {
                    Some(inner) => Type::Option(Box::new(Type::from_sexp(inner))),
                    None => Type::Other(String::from_str(raw)),
                }
            } else if same_text(name, "List") {
                match argument_of(shape, 0) {
                    Some(inner) => Type::List(Box::new(Type::from_sexp(inner))),
                    None => Type::Other(String::from_str(raw)),
                }
            } else if same_text(name, "Pair") {
                match (argument_of(shape, 0), argument_of(shape, 1)) {
                    (Some(first), Some(second)) => Type::Pair(
                        Box::new(Type::from_sexp(first)),
                        Box::new(Type::from_sexp(second)),
                    ),
                    _ => Type::Other(String::from_str(raw)),
                }
            } else {
                Type::Other(node.text.clone())
            }
        } else {
            Type::Other(String::from_str(raw))
        }
    }

    /// The type that a text stands for.
    ///
    /// The text is read as one symbolic tree. A text that the reader refuses
    /// gives `LexprParseError`; every other text gives the type that its
    /// tree stands for, where an unknown type keeps the text as it was
    /// given.
    pub fn from_str(s: &str) -> (parsed: Result<Type, Error>)
        ensures
            match reader_output(s@) {
                Some(tree) => parsed matches Ok(ty) && ty@ == resolve_as(tree.shape, s@),
                None => parsed matches Err(why) && why@ is LexprParseError,
            },
    {
        match Sexp::from_str(s) {
            Ok(tree) => Ok(Type::from_shape(&tree.shape, s)),
            Err(why) => Err(why),
        }
    }

    /// The type as it is written.
    pub fn to_string(&self) -> (written: String)
        ensures
            written@ == rendering(self@),
        decreases self,
    {
        match self {
            Type::Int32 => String::from_str("Int32"),
            Type::Int64 => String::from_str("Int64"),
            Type::Int128 => String::from_str("Int128"),
            Type::Int256 => String::from_str("Int256"),
            Type::Uint32 => String::from_str("Uint32"),
            Type::Uint64 => String::from_str("Uint64"),
            Type::Uint128 => String::from_str("Uint128"),
            Type::Uint256 => String::from_str("Uint256"),
            Type::String => String::from_str("String"),
            Type::BNum => String::from_str("BNum"),
            Type::Bool => String::from_str("Bool"),
            Type::Mapping(key, value) => {
                let key_text = key.to_string();
                let value_text = value.to_string();
                String::from_str("(Map ").concat(key_text.as_str()).concat(", ").concat(
                    value_text.as_str(),
                ).concat(")")
            },
            Type::Option(inner) => {
                let inner_text = inner.to_string();
                String::from_str("(Option ").concat(inner_text.as_str()).concat(")")
            },
            Type::List(inner) => {
                let inner_text = inner.to_string();
                String::from_str("(List ").concat(inner_text.as_str()).concat(")")
            },
            Type::Pair(first, second) => {
                let first_text = first.to_string();
                let second_text = second.to_string();
                String::from_str("(Pair ").concat(first_text.as_str()).concat(" ").concat(
                    second_text.as_str(),
                ).concat(")")
            },
            Type::ByStr(length) => {
                let digits = decimal_string(*length);
                String::from_str("ByStr").concat(digits.as_str())
            },
            Type::Other(raw) => raw.clone(),
        }
    }
}

} // verus!
