use vstd::prelude::*;
use vstd::string::*;
use crate::error::{Error, ErrorView};
use crate::field::{in_order_of, lemma_field_list_keeps_order, parse_field_list_of};
use crate::field::{FieldList, FieldView};
use crate::sexp::{child_of, field_of, reader_output, shape_of, Sexp, SexpView};
use crate::text::{replace_all, replaced, same_text};
use crate::transition::{lemma_transition_list_keeps_order, transitions_in_order_of};
use crate::transition::{parse_transition_list_of, section, TransitionList, TransitionView};
use crate::types::symbol_of;

verus! {

/// The interface of a contract: its name, what it is deployed with, its
/// state, and what can be called on it.
#[derive(Debug, PartialEq)]
pub struct Contract {
    /// The name of the contract. It is never empty in a contract that was
    /// read from a tree.
    pub name: String,
    /// The parameters that the contract is deployed with.
    pub init_params: FieldList,
    /// The state fields of the contract.
    pub fields: FieldList,
    /// The transitions of the contract.
    pub transitions: TransitionList,
}

/// The mathematical value of a [`Contract`].
pub struct ContractView {
    pub name: Seq<char>,
    pub init_params: Seq<FieldView>,
    pub fields: Seq<FieldView>,
    pub transitions: Seq<TransitionView>,
}

impl View for Contract {
    type V = ContractView;

    open spec fn view(&self) -> ContractView {
        ContractView {
            name: self.name@,
            init_params: self.init_params@,
            fields: self.fields@,
            transitions: self.transitions@,
        }
    }
}

/// The description of the contract inside the tree of a module: the first
/// value after the key `contr`.
pub open spec fn contract_body(tree: SexpView) -> Option<SexpView> {
    child_of(tree.shape.field("contr"@), 0)
}

/// The name of a contract: in what follows the key `cname`, the entry
/// `Ident` is followed by a pair of a qualifier and the name, a symbol.
pub open spec fn contract_name(body: SexpView) -> Option<Seq<char>> {
    symbol_of(child_of(shape_of(child_of(field_of(body.shape.field("cname"@), "Ident"@), 0)), 1))
}

/// The interface that the tree of a module describes.
///
/// Without a description of a contract the entry `contr` is reported as
/// missing, and without a name that is a symbol and not empty the entry
/// `cname`. The transitions are those that the first value after `ccomps`
/// declares, the deployment parameters and the state fields are the fields
/// that the first value after `cparams` and after `cfields` declares; each
/// is empty where there is no such value. An error among them is reported
/// in that order: transitions, deployment parameters, state fields.
pub open spec fn parse_contract(tree: SexpView) -> Result<ContractView, ErrorView> {
    match contract_body(tree) {
        None => Err(ErrorView::NoSuchEntryInSexp("contr"@)),
        Some(body) => match contract_name(body) {
            None => Err(ErrorView::NoSuchEntryInSexp("cname"@)),
            Some(name) => if name.len() == 0 {
                Err(ErrorView::NoSuchEntryInSexp("cname"@))
            } else {
                match parse_transition_list_of(child_of(body.shape.field("ccomps"@), 0)) {
                    Err(why) => Err(why),
                    Ok(transitions) => match parse_field_list_of(
                        child_of(body.shape.field("cparams"@), 0),
                    ) {
                        Err(why) => Err(why),
                        Ok(init_params) => match parse_field_list_of(
                            child_of(body.shape.field("cfields"@), 0),
                        ) {
                            Err(why) => Err(why),
                            Ok(fields) => Ok(
                                ContractView {
                                    name: name,
                                    init_params: init_params,
                                    fields: fields,
                                    transitions: transitions,
                                },
                            ),
                        },
                    },
                }
            },
        },
    }
}

/// The interface that a text describes: that of the tree that the reader
/// makes of it. A text that the reader refuses is reported as
/// `LexprParseError`.
pub open spec fn parse_contract_text(text: Seq<char>) -> Result<ContractView, ErrorView> {
    match reader_output(text) {
        Some(tree) => parse_contract(tree),
        None => Err(ErrorView::LexprParseError),
    }
}

/// What a reading came to, as a mathematical value.
pub open spec fn outcome(parsed: Result<Contract, Error>) -> Result<ContractView, ErrorView> {
    match parsed {
        Ok(contract) => Ok(contract@),
        Err(why) => Err(why@),
    }
}

/// The text that is left of the formatter's output once every escaped zero
/// character, written as a backslash and the digit 0, is taken out.
pub open spec fn without_escaped_zeros(output: Seq<char>) -> Seq<char> {
    replaced(output, seq!['\\', '0'], Seq::empty())
}

/// A contract that was read has a name.
pub proof fn lemma_contract_has_name(tree: SexpView)
    ensures
        match parse_contract(tree) {
            Ok(contract) => contract.name.len() > 0,
            Err(_) => true,
        },
{
}

/// Reading is a function of the text: two readings of one text come to the
/// same interface, or to the same error.
pub proof fn lemma_reading_twice_agrees(
    text: Seq<char>,
    first: Result<Contract, Error>,
    second: Result<Contract, Error>,
)
    requires
        outcome(first) == parse_contract_text(text),
        outcome(second) == parse_contract_text(text),
    ensures
        outcome(first) == outcome(second),
{
}

/// The deployment parameters, the state fields and the transitions of a
/// contract that was read stand in the order of their declarations: each
/// list holds one entry for each declaration (for the transitions: for each
/// component that is a transition), at the same position.
pub proof fn lemma_contract_keeps_order(tree: SexpView)
    ensures
        match (contract_body(tree), parse_contract(tree)) {
            (Some(body), Ok(contract)) => {
                &&& in_order_of(contract.init_params, child_of(body.shape.field("cparams"@), 0))
                &&& in_order_of(contract.fields, child_of(body.shape.field("cfields"@), 0))
                &&& transitions_in_order_of(
                    contract.transitions,
                    child_of(body.shape.field("ccomps"@), 0),
                )
            },
            (None, Ok(_)) => false,
            _ => true,
        },
{
    match contract_body(tree) {
        Some(body) => {
            lemma_field_list_keeps_order(child_of(body.shape.field("cparams"@), 0));
            lemma_field_list_keeps_order(child_of(body.shape.field("cfields"@), 0));
            lemma_transition_list_keeps_order(child_of(body.shape.field("ccomps"@), 0));
        },
        None => {},
    }
}

/// The name of a contract.
fn read_contract_name(body: &Sexp) -> (name: Option<&str>)
    ensures
        match name {
            Some(n) => contract_name(body@) == Some(n@),
            None => contract_name(body@) is None,
        },
{
    let entry = match body.shape.field("cname") {
        Some(entry) => entry,
        None => {
            return None;
        },
    };
    let qualified = match entry.field("Ident") {
        Some(qualified) => qualified,
        None => {
            return None;
        },
    };
    match qualified.child_at(0) {
        Some(local) => match local.shape.child_at(1) {
            Some(node) => node.shape.as_symbol(),
            None => None,
        },
        None => None,
    }
}

impl Contract {
    /// The interface that the tree of a module describes.
    ///
    /// Succeeds exactly where the tree holds the description of a contract
    /// with a name and every transition and field in it is accepted. A
    /// contract comes out whole or not at all.
    pub fn from_sexp(tree: &Sexp) -> (parsed: Result<Contract, Error>)
        ensures
            outcome(parsed) == parse_contract(tree@),
            parsed matches Ok(contract) ==> contract.name@.len() > 0,
    {
        let body = match section(tree, "contr") {
            Some(body) => body,
            None => {
                return Err(Error::NoSuchEntryInSexp(String::from_str("contr")));
            },
        };
        let name = match read_contract_name(body) {
            Some(name) => name,
            None => {
                return Err(Error::NoSuchEntryInSexp(String::from_str("cname")));
            },
        };
        proof {
            reveal_strlit("");
        }
        if same_text(name, "") {
            assert(name@.len() == 0);
            return Err(Error::NoSuchEntryInSexp(String::from_str("cname")));
        }
        assert(name@.len() != 0) by {
            if name@.len() == 0 {
                assert(name@ =~= ""@);
            }
        }
        let transitions = match TransitionList::try_from_step(section(body, "ccomps")) {
            Ok(transitions) => transitions,
            Err(why) => {
                return Err(why);
            },
        };
        let init_params = match FieldList::try_from_step(section(body, "cparams")) {
            Ok(init_params) => init_params,
            Err(why) => {
                return Err(why);
            },
        };
        let fields = match FieldList::try_from_step(section(body, "cfields")) {
            Ok(fields) => fields,
            Err(why) => {
                return Err(why);
            },
        };
        Ok(Contract { name: String::from_str(name), init_params, fields, transitions })
    }

    /// The interface that a text describes.
    ///
    /// The text is read as one symbolic tree, as it stands. A text that the
    /// reader refuses gives `LexprParseError`; any other text gives what
    /// its tree describes.
    pub fn from_str(sexp: &str) -> (parsed: Result<Contract, Error>)
        ensures
            outcome(parsed) == parse_contract_text(sexp@),
            parsed matches Ok(contract) ==> contract.name@.len() > 0,
    {
        match Sexp::from_str(sexp) {
            Ok(tree) => Contract::from_sexp(&tree),
            Err(why) => Err(why),
        }
    }
}

/// The interface that the formatter's output describes.
///
/// Every escaped zero character is taken out of the output, and what is left
/// is read as [`Contract::from_str`] reads a text.
pub fn parse(sexp: &str) -> (parsed: Result<Contract, Error>)
    ensures
        outcome(parsed) == parse_contract_text(without_escaped_zeros(sexp@)),
        parsed matches Ok(contract) ==> contract.name@.len() > 0,
{
    proof {
        reveal_strlit("\\0");
        reveal_strlit("");
        assert("\\0"@ =~= seq!['\\', '0']);
        assert(""@ =~= Seq::<char>::empty());
    }
    let cleaned = replace_all(sexp, "\\0", "");
    Contract::from_str(cleaned.as_str())
}

} // verus!
