use vstd::prelude::*;
use crate::error::Error;

verus! {

/// `lexpr::Value`, the value that the reader of `lexpr` makes of a text.
/// Nothing is said of what it holds: it is copied into a [`Sexp`] as soon as
/// it is read.
#[verifier::external_type_specification]
#[verifier::external_body]
pub struct ExValue(lexpr::Value);

/// What a value of a symbolic tree is made of.
///
/// A list is a chain of pairs that ends in `Null`; a chain that ends in
/// anything else is a dotted list. Each element of a chain is a tree of its
/// own and carries its text; the rest of a chain is a bare shape.
#[derive(Debug)]
pub enum Shape {
    /// The empty list, `()`.
    Null,
    /// A symbol, with its name.
    Symbol(String),
    /// A string literal, with its contents.
    Str(String),
    /// A keyword, with its name.
    Keyword(String),
    /// A pair: the first element of a chain, and the rest of the chain.
    Cons(Box<Sexp>, Box<Shape>),
    /// Any other value (a number, a boolean, a character, ...): a leaf whose
    /// contents are known by the text of its tree only.
    Atom,
}

/// A symbolic tree: its shape, and the text that the tree is written as.
#[derive(Debug)]
pub struct Sexp {
    pub shape: Shape,
    pub text: String,
}

/// The mathematical value of a [`Shape`].
pub enum ShapeView {
    Null,
    Symbol(Seq<char>),
    Str(Seq<char>),
    Keyword(Seq<char>),
    Cons(Box<SexpView>, Box<ShapeView>),
    Atom,
}

/// The mathematical value of a [`Sexp`].
pub struct SexpView {
    pub shape: ShapeView,
    pub text: Seq<char>,
}

impl Shape {
    /// The mathematical value of the shape.
    pub open spec fn model(self) -> ShapeView
        decreases self,
    {
        match self {
            Shape::Null => ShapeView::Null,
            Shape::Symbol(name) => ShapeView::Symbol(name@),
            Shape::Str(contents) => ShapeView::Str(contents@),
            Shape::Keyword(name) => ShapeView::Keyword(name@),
            Shape::Cons(first, rest) => ShapeView::Cons(
                Box::new(first.model()),
                Box::new(rest.model()),
            ),
            Shape::Atom => ShapeView::Atom,
        }
    }
}

impl Sexp {
    /// The mathematical value of the tree.
    pub open spec fn model(self) -> SexpView
        decreases self,
    {
        SexpView { shape: self.shape.model(), text: self.text@ }
    }
}

impl View for Shape {
    type V = ShapeView;

    open spec fn view(&self) -> ShapeView {
        self.model()
    }
}

impl View for Sexp {
    type V = SexpView;

    open spec fn view(&self) -> SexpView {
        self.model()
    }
}

impl ShapeView {
    /// The name of a symbol.
    pub open spec fn symbol(self) -> Option<Seq<char>> {
        match self {
            ShapeView::Symbol(name) => Some(name),
            _ => None,
        }
    }

    /// The name that a value can be looked up by: that of a symbol or of a
    /// keyword, or the contents of a string.
    pub open spec fn name(self) -> Option<Seq<char>> {
        match self {
            ShapeView::Symbol(name) => Some(name),
            ShapeView::Str(contents) => Some(contents),
            ShapeView::Keyword(name) => Some(name),
            _ => None,
        }
    }

    /// Whether the value is an entry under `key`: a chain whose first
    /// element has that name.
    pub open spec fn tagged(self, key: Seq<char>) -> bool {
        match self {
            ShapeView::Cons(tag, _) => tag.shape.name() == Some(key),
            _ => false,
        }
    }

    /// What follows the first element of a chain.
    pub open spec fn rest(self) -> ShapeView {
        match self {
            ShapeView::Cons(_, rest) => *rest,
            _ => ShapeView::Atom,
        }
    }

    /// The element at position `i` of a chain, counted from 0.
    pub open spec fn child_at(self, i: nat) -> Option<SexpView>
        decreases i,
    {
        match self {
            ShapeView::Cons(first, rest) => if i == 0 {
                Some(*first)
            } else {
                rest.child_at((i - 1) as nat)
            },
            _ => None,
        }
    }

    /// What follows the key in the first element of a chain that is an entry
    /// under `key`.
    pub open spec fn field(self, key: Seq<char>) -> Option<ShapeView>
        decreases self,
    {
        match self {
            ShapeView::Cons(first, rest) => if first.shape.tagged(key) {
                Some(first.shape.rest())
            } else {
                rest.field(key)
            },
            _ => None,
        }
    }

    /// Whether the value is a list: a chain that ends in `Null`.
    pub open spec fn is_list(self) -> bool
        decreases self,
    {
        match self {
            ShapeView::Null => true,
            ShapeView::Cons(_, rest) => rest.is_list(),
            _ => false,
        }
    }

    /// The elements of a chain, in order.
    pub open spec fn items(self) -> Seq<SexpView>
        decreases self,
    {
        match self {
            ShapeView::Cons(first, rest) => seq![*first] + rest.items(),
            _ => Seq::empty(),
        }
    }
}

/// The element at position `i` of the chain that the step gives, if there is
/// one. A step that failed gives no element.
pub open spec fn child_of(step: Option<ShapeView>, i: nat) -> Option<SexpView> {
    match step {
        Some(shape) => shape.child_at(i),
        None => None,
    }
}

/// The entry under `key` of the chain that the step gives, if there is one.
pub open spec fn field_of(step: Option<ShapeView>, key: Seq<char>) -> Option<ShapeView> {
    match step {
        Some(shape) => shape.field(key),
        None => None,
    }
}

/// The shape of the tree that the step gives, if there is one.
pub open spec fn shape_of(step: Option<SexpView>) -> Option<ShapeView> {
    match step {
        Some(tree) => Some(tree.shape),
        None => None,
    }
}

impl ShapeView {
    /// The number of values that the shape is made of.
    pub open spec fn size(self) -> nat
        decreases self,
    {
        match self {
            ShapeView::Cons(first, rest) => 1 + first.size() + rest.size(),
            _ => 1,
        }
    }
}

impl SexpView {
    /// The number of values that the tree is made of.
    pub open spec fn size(self) -> nat
        decreases self,
    {
        1 + self.shape.size()
    }
}

/// An element of a chain is made of fewer values than the chain.
pub proof fn lemma_child_smaller(shape: ShapeView, i: nat)
    ensures
        match shape.child_at(i) {
            Some(child) => child.size() < shape.size(),
            None => true,
        },
    decreases i,
{
    match shape {
        ShapeView::Cons(first, rest) => {
            if i > 0 {
                lemma_child_smaller(*rest, (i - 1) as nat);
            }
        },
        _ => {},
    }
}

impl Shape {
    /// The name of a symbol; `None` for any other value.
    pub fn as_symbol(&self) -> (name: Option<&str>)
        ensures
            match name {
                Some(n) => self@.symbol() == Some(n@),
                None => self@.symbol() is None,
            },
    {
        match self {
            Shape::Symbol(name) => Some(name.as_str()),
            _ => None,
        }
    }

    /// The name of a symbol or of a keyword, or the contents of a string;
    /// `None` for any other value.
    pub fn as_name(&self) -> (name: Option<&str>)
        ensures
            match name {
                Some(n) => self@.name() == Some(n@),
                None => self@.name() is None,
            },
    {
        match self {
            Shape::Symbol(name) => Some(name.as_str()),
            Shape::Str(contents) => Some(contents.as_str()),
            Shape::Keyword(name) => Some(name.as_str()),
            _ => None,
        }
    }

    /// Whether the value is a list.
    pub fn is_list(&self) -> (list: bool)
        ensures
            list == self@.is_list(),
    {
        let mut cursor: &Shape = self;
        loop
            invariant
                cursor@.is_list() == self@.is_list(),
            decreases cursor,
        {
            match cursor {
                Shape::Null => {
                    return true;
                },
                Shape::Cons(_, rest) => {
                    cursor = &**rest;
                },
                _ => {
                    return false;
                },
            }
        }
    }

    /// The element at position `i` of a chain, counted from 0; `None` where
    /// the value is no chain or the chain is too short.
    pub fn child_at(&self, i: usize) -> (child: Option<&Sexp>)
        ensures
            match child {
                Some(tree) => self@.child_at(i as nat) == Some(tree@),
                None => self@.child_at(i as nat) is None,
            },
    {
        let mut cursor: &Shape = self;
        let mut left: usize = i;
        loop
            invariant
                cursor@.child_at(left as nat) == self@.child_at(i as nat),
            decreases left,
        {
            match cursor {
                Shape::Cons(first, rest) => {
                    if left == 0 {
                        return Some(&**first);
                    }
                    cursor = &**rest;
                    left = left - 1;
                },
                _ => {
                    return None;
                },
            }
        }
    }

    /// The elements of a chain, in order; none where the value is no chain.
    pub fn items(&self) -> (items: Vec<&Sexp>)
        ensures
            items@.len() == self@.items().len(),
            forall|i: int| 0 <= i < items@.len() ==> (#[trigger] items@[i])@ == self@.items()[i],
    {
        let mut items: Vec<&Sexp> = Vec::new();
        let mut cursor: &Shape = self;
        loop
            invariant
                self@.items().len() == items@.len() + cursor@.items().len(),
                forall|i: int|
                    0 <= i < items@.len() ==> (#[trigger] items@[i])@ == self@.items()[i],
                forall|j: int|
                    0 <= j < cursor@.items().len() ==> #[trigger] cursor@.items()[j]
                        == self@.items()[items@.len() + j],
            decreases cursor,
        {
            match cursor {
                Shape::Cons(first, rest) => {
                    proof {
                        assert(cursor@ == ShapeView::Cons(Box::new(first@), Box::new(rest@)));
                        assert(cursor@.items()[0] == first@);
                        assert forall|j: int| 0 <= j < rest@.items().len() implies
                            #[trigger] rest@.items()[j] == self@.items()[items@.len() + 1 + j] by {
                            assert(rest@.items()[j] == cursor@.items()[j + 1]);
                        }
                    }
                    items.push(&**first);
                    cursor = &**rest;
                },
                _ => {
                    return items;
                },
            }
        }
    }

    /// What follows the key in the first element of a chain that is an entry
    /// under `key`; `None` where the value is no chain or holds no such
    /// entry.
    pub fn field(&self, key: &str) -> (found: Option<&Shape>)
        ensures
            match found {
                Some(shape) => self@.field(key@) == Some(shape@),
                None => self@.field(key@) is None,
            },
    {
        let mut cursor: &Shape = self;
        loop
            invariant
                cursor@.field(key@) == self@.field(key@),
            decreases cursor,
        {
            match cursor {
                Shape::Cons(first, rest) => {
                    assert(cursor@ == ShapeView::Cons(Box::new(first@), Box::new(rest@)));
                    assert(first@.shape == first.shape@);
                    match &first.shape {
                        Shape::Cons(tag, values) => {
                            assert(first.shape@ == ShapeView::Cons(
                                Box::new(tag@),
                                Box::new(values@),
                            ));
                            assert(tag@.shape == tag.shape@);
                            let hit = match tag.shape.as_name() {
                                Some(name) => crate::text::same_text(name, key),
                                None => false,
                            };
                            assert(hit == first.shape@.tagged(key@));
                            if hit {
                                return Some(&**values);
                            }
                        },
                        _ => {
                            assert(!first.shape@.tagged(key@));
                        },
                    }
                    cursor = &**rest;
                },
                _ => {
                    return None;
                },
            }
        }
    }
}

/// The tree that the reader makes of a text, or `None` where it refuses the
/// text.
pub uninterp spec fn reader_output(text: Seq<char>) -> Option<SexpView>;

/// Copies a value of `lexpr` into a shape, variant by variant: the parts of
/// a pair come from `Cons::car` and `Cons::cdr`, and the first of them is
/// copied by [`tree_of`]. The variants that hold no name and no pair all
/// become `Atom`.
#[verifier::external_body]
fn shape_of_value(value: &lexpr::Value) -> Shape {
    match value {
        lexpr::Value::Null => Shape::Null,
        lexpr::Value::Symbol(name) => Shape::Symbol(name.to_string()),
        lexpr::Value::String(contents) => Shape::Str(contents.to_string()),
        lexpr::Value::Keyword(name) => Shape::Keyword(name.to_string()),
        lexpr::Value::Cons(pair) => Shape::Cons(Box::new(tree_of(pair.car())), Box::new(shape_of_value(pair.cdr()))),
        lexpr::Value::Nil => Shape::Atom,
        lexpr::Value::Bool(_) => Shape::Atom,
        lexpr::Value::Number(_) => Shape::Atom,
        lexpr::Value::Char(_) => Shape::Atom,
        lexpr::Value::Bytes(_) => Shape::Atom,
        lexpr::Value::Vector(_) => Shape::Atom,
    }
}

/// Copies a value of `lexpr` into a tree. The text is what `lexpr` prints
/// the value as (`Value::to_string`, its `Display`).
#[verifier::external_body]
fn tree_of(value: &lexpr::Value) -> Sexp {
    Sexp { shape: shape_of_value(value), text: value.to_string() }
}

/// Reads a text as one symbolic tree with `lexpr::from_str`, under the
/// default options of `lexpr`. The contract names what the reader makes of
/// the text: the same text always gives the same tree, or is always refused.
/// A refusal comes back as the message of the reader's error.
#[verifier::external_body]
fn read_tree(text: &str) -> (read: Result<Sexp, String>)
    ensures
        match read {
            Ok(tree) => reader_output(text@) == Some(tree@),
            Err(_) => reader_output(text@) is None,
        },
{
    match lexpr::from_str(text) {
        Ok(value) => Ok(tree_of(&value)),
        Err(refusal) => Err(refusal.to_string()),
    }
}

impl Sexp {
    /// Reads a text as one symbolic tree.
    ///
    /// Succeeds exactly on the texts that the reader accepts; any other text
    /// gives `LexprParseError`.
    pub fn from_str(text: &str) -> (read: Result<Sexp, Error>)
        ensures
            match reader_output(text@) {
                Some(tree) => read matches Ok(read_tree) && read_tree@ == tree,
                None => read matches Err(why) && why@ is LexprParseError,
            },
    {
        match read_tree(text) {
            Ok(tree) => Ok(tree),
            Err(refusal) => Err(Error::LexprParseError(refusal)),
        }
    }
}

} // verus!
