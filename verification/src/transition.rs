use vstd::prelude::*;
use vstd::string::*;
use crate::error::{Error, ErrorView};
use crate::field::{identifier_of, parse_field_list_of, read_identifier_of};
use crate::field::{FieldList, FieldView};
use crate::sexp::{child_of, Sexp, SexpView};
use crate::text::same_text;
use crate::types::symbol_of;

verus! {

/// An entry point of a contract: what can be called from outside it.
#[derive(Debug, PartialEq)]
pub struct Transition {
    pub name: String,
    pub params: FieldList,
}

/// The mathematical value of a [`Transition`].
pub struct TransitionView {
    pub name: Seq<char>,
    pub params: Seq<FieldView>,
}

impl View for Transition {
    type V = TransitionView;

    open spec fn view(&self) -> TransitionView {
        TransitionView { name: self.name@, params: self.params@ }
    }
}

/// Transitions in the order of their declaration.
#[derive(Debug, PartialEq)]
pub struct TransitionList(pub Vec<Transition>);

impl View for TransitionList {
    type V = Seq<TransitionView>;

    open spec fn view(&self) -> Seq<TransitionView> {
        self.0@.map_values(|transition: Transition| transition@)
    }
}

/// The kind of a component: the symbol that follows the key in its entry
/// `comp_type`.
pub open spec fn component_kind(tree: SexpView) -> Option<Seq<char>> {
    symbol_of(child_of(tree.shape.field("comp_type"@), 0))
}

/// Whether a component is a transition: its kind is `CompTrans`. A
/// procedure is none, nor is a component whose kind cannot be read.
pub open spec fn is_transition(tree: SexpView) -> bool {
    component_kind(tree) == Some("CompTrans"@)
}

/// [`is_transition`] as a predicate.
pub open spec fn transitions_only() -> spec_fn(SexpView) -> bool {
    |tree: SexpView| is_transition(tree)
}

/// The transition that a component stands for.
///
/// A component whose kind cannot be read reports the entry `comp_type` as
/// missing; one of another kind than `CompTrans` is refused with its kind.
/// A transition has its name as the identifier of the qualified name that
/// follows the key `comp_name`, and its parameters as the fields that the
/// value after the key `comp_params` declares (none where there is no such
/// value). Without a name the entry `comp_name` is reported as missing.
pub open spec fn parse_transition(tree: SexpView) -> Result<TransitionView, ErrorView> {
    match component_kind(tree) {
        None => Err(ErrorView::NoSuchEntryInSexp("comp_type"@)),
        Some(kind) => if kind != "CompTrans"@ {
            Err(ErrorView::CompTypeIsNotTransition(kind))
        } else {
            match identifier_of(child_of(tree.shape.field("comp_name"@), 0)) {
                None => Err(ErrorView::NoSuchEntryInSexp("comp_name"@)),
                Some(name) => match parse_field_list_of(
                    child_of(tree.shape.field("comp_params"@), 0),
                ) {
                    Err(why) => Err(why),
                    Ok(params) => Ok(TransitionView { name: name, params: params }),
                },
            }
        }
    }
}

/// The transitions that components stand for, in the order of the
/// components. The first component that is refused decides the error.
pub open spec fn parse_transitions(items: Seq<SexpView>) -> Result<Seq<TransitionView>, ErrorView>
    decreases items.len(),
{
    if items.len() == 0 {
        Ok(Seq::empty())
    } else {
        match parse_transitions(items.drop_last()) {
            Err(why) => Err(why),
            Ok(transitions) => match parse_transition(items.last()) {
                Err(why) => Err(why),
                Ok(transition) => Ok(transitions.push(transition)),
            },
        }
    }
}

/// The transitions that a tree declares.
///
/// Of a list, the elements that are transitions are read, in order; the
/// other elements are passed over. A tree that is no list declares none.
pub open spec fn parse_transition_list(tree: SexpView) -> Result<Seq<TransitionView>, ErrorView> {
    if tree.shape.is_list() {
        parse_transitions(tree.shape.items().filter(transitions_only()))
    } else {
        Ok(Seq::empty())
    }
}

/// The transitions that the step's tree declares; none where the step gives
/// no tree.
pub open spec fn parse_transition_list_of(step: Option<SexpView>) -> Result<
    Seq<TransitionView>,
    ErrorView,
> {
    match step {
        Some(tree) => parse_transition_list(tree),
        None => Ok(Seq::empty()),
    }
}

/// Filtering one more component either appends it or changes nothing.
pub proof fn lemma_filter_step(items: Seq<SexpView>, seen: int)
    requires
        0 <= seen < items.len(),
    ensures
        items.take(seen + 1).filter(transitions_only()) == if is_transition(items[seen]) {
            items.take(seen).filter(transitions_only()).push(items[seen])
        } else {
            items.take(seen).filter(transitions_only())
        },
{
    reveal(Seq::filter);
    assert(items.take(seen + 1).drop_last() =~= items.take(seen));
    assert(items.take(seen + 1).last() == items[seen]);
}

/// Once a transition is refused, the components that follow it change
/// nothing.
pub proof fn lemma_transition_refusal_stays(items: Seq<SexpView>, seen: int)
    requires
        0 <= seen <= items.len(),
        parse_transitions(items.take(seen).filter(transitions_only())) is Err,
    ensures
        parse_transitions(items.filter(transitions_only())) == parse_transitions(
            items.take(seen).filter(transitions_only()),
        ),
    decreases items.len() - seen,
{
    if seen == items.len() {
        assert(items.take(seen) =~= items);
    } else {
        lemma_filter_step(items, seen);
        if is_transition(items[seen]) {
            let kept = items.take(seen).filter(transitions_only());
            assert(kept.push(items[seen]).drop_last() =~= kept);
        }
        lemma_transition_refusal_stays(items, seen + 1);
    }
}

/// Transitions come out one for each component that is a transition, in the
/// order of those components. Where one of them is refused, the error is
/// that of the first such component.
pub proof fn lemma_transitions_keep_order(items: Seq<SexpView>)
    ensures
        match parse_transitions(items) {
            Ok(transitions) => transitions.len() == items.len() && forall|i: int|
                0 <= i < items.len() ==> parse_transition(#[trigger] items[i]) == Ok::<
                    TransitionView,
                    ErrorView,
                >(transitions[i]),
            Err(why) => exists|i: int|
                0 <= i < items.len() && parse_transition(#[trigger] items[i]) == Err::<
                    TransitionView,
                    ErrorView,
                >(why) && forall|j: int|
                    0 <= j < i ==> parse_transition(#[trigger] items[j]) is Ok,
        },
    decreases items.len(),
{
    if items.len() > 0 {
        let front = items.drop_last();
        lemma_transitions_keep_order(front);
        match parse_transitions(front) {
            Ok(transitions) => {
                let last = items.len() - 1;
                assert forall|j: int| 0 <= j < last implies parse_transition(
                    #[trigger] items[j],
                ) is Ok by {
                    assert(items[j] == front[j]);
                }
                match parse_transition(items.last()) {
                    Ok(transition) => {
                        assert forall|i: int| 0 <= i < items.len() implies parse_transition(
                            #[trigger] items[i],
                        ) == Ok::<TransitionView, ErrorView>(
                            transitions.push(transition)[i],
                        ) by {
                            if i < last {
                                assert(items[i] == front[i]);
                            }
                        }
                    },
                    Err(why) => {
                        assert(parse_transition(items[last]) == Err::<
                            TransitionView,
                            ErrorView,
                        >(why));
                    },
                }
            },
            Err(why) => {
                let i = choose|i: int|
                    0 <= i < front.len() && parse_transition(#[trigger] front[i]) == Err::<
                        TransitionView,
                        ErrorView,
                    >(why) && forall|j: int|
                        0 <= j < i ==> parse_transition(#[trigger] front[j]) is Ok;
                assert(items[i] == front[i]);
                assert forall|j: int| 0 <= j < i implies parse_transition(#[trigger] items[j])
                    is Ok by {
                    assert(items[j] == front[j]);
                }
            },
        }
    }
}

/// Whether `transitions` holds one transition for each element of the
/// step's list that is a transition, in the order of those elements, and
/// nothing else; of no list, or none, no transition at all.
pub open spec fn transitions_in_order_of(
    transitions: Seq<TransitionView>,
    step: Option<SexpView>,
) -> bool {
    match step {
        Some(tree) => if tree.shape.is_list() {
            let kept = tree.shape.items().filter(transitions_only());
            transitions.len() == kept.len() && forall|i: int|
                0 <= i < kept.len() ==> is_transition(#[trigger] kept[i]) && parse_transition(
                    kept[i],
                ) == Ok::<TransitionView, ErrorView>(transitions[i])
        } else {
            transitions.len() == 0
        },
        None => transitions.len() == 0,
    }
}

/// The transitions that a tree declares are those of its elements that are
/// transitions, in their order: procedures and unreadable components leave
/// no trace.
pub proof fn lemma_transition_list_keeps_order(step: Option<SexpView>)
    ensures
        match parse_transition_list_of(step) {
            Ok(transitions) => transitions_in_order_of(transitions, step),
            Err(_) => true,
        },
{
    match step {
        Some(tree) => {
            let kept = tree.shape.items().filter(transitions_only());
            lemma_transitions_keep_order(kept);
            assert forall|i: int| 0 <= i < kept.len() implies is_transition(#[trigger] kept[i]) by {
                tree.shape.items().lemma_filter_pred(transitions_only(), i);
            }
        },
        None => {},
    }
}

/// The kind of a component.
fn read_component_kind(tree: &Sexp) -> (kind: Option<&str>)
    ensures
        match kind {
            Some(k) => component_kind(tree@) == Some(k@),
            None => component_kind(tree@) is None,
        },
{
    match tree.shape.field("comp_type") {
        Some(entry) => match entry.child_at(0) {
            Some(node) => node.shape.as_symbol(),
            None => None,
        },
        None => None,
    }
}

/// The first value after `key` in the entry of a tree under that key.
pub(crate) fn section<'a>(tree: &'a Sexp, key: &str) -> (found: Option<&'a Sexp>)
    ensures
        match found {
            Some(value) => child_of(tree@.shape.field(key@), 0) == Some(value@),
            None => child_of(tree@.shape.field(key@), 0) is None,
        },
{
    match tree.shape.field(key) {
        Some(entry) => entry.child_at(0),
        None => None,
    }
}

impl Transition {
    /// A transition of the given name and parameters.
    pub fn new(name: &str, params: FieldList) -> (transition: Transition)
        ensures
            transition@ == (TransitionView { name: name@, params: params@ }),
    {
        Transition { name: String::from_str(name), params }
    }

    /// A transition of the given name, without parameters.
    pub fn new_without_param(name: &str) -> (transition: Transition)
        ensures
            transition@ == (TransitionView { name: name@, params: Seq::empty() }),
    {
        Transition { name: String::from_str(name), params: FieldList::default() }
    }

    /// The transition that a component stands for.
    ///
    /// Succeeds exactly on a component of the kind `CompTrans` that has a
    /// name and whose parameters are all accepted.
    pub fn try_from(value: &Sexp) -> (parsed: Result<Transition, Error>)
        ensures
            match parsed {
                Ok(transition) => parse_transition(value@) == Ok::<TransitionView, ErrorView>(
                    transition@,
                ),
                Err(why) => parse_transition(value@) == Err::<TransitionView, ErrorView>(why@),
            },
    {
        let kind = match read_component_kind(value) {
            Some(kind) => kind,
            None => {
                return Err(Error::NoSuchEntryInSexp(String::from_str("comp_type")));
            },
        };
        if !same_text(kind, "CompTrans") {
            return Err(Error::CompTypeIsNotTransition(String::from_str(kind)));
        }
        let name = match read_identifier_of(section(value, "comp_name")) {
            Some(name) => name,
            None => {
                return Err(Error::NoSuchEntryInSexp(String::from_str("comp_name")));
            },
        };
        match FieldList::try_from_step(section(value, "comp_params")) {
            Ok(params) => Ok(Transition { name: String::from_str(name), params }),
            Err(why) => Err(why),
        }
    }
}

impl Default for TransitionList {
    /// The empty list.
    fn default() -> (list: TransitionList)
        ensures
            list@ == Seq::<TransitionView>::empty(),
    {
        let list = TransitionList(Vec::new());
        assert(list@ =~= Seq::<TransitionView>::empty());
        list
    }
}

impl std::ops::Deref for TransitionList {
    type Target = Vec<Transition>;

    /// The transitions, as a vector.
    fn deref(&self) -> (transitions: &Vec<Transition>)
        ensures
            *transitions == self.0,
    {
        &self.0
    }
}

impl TransitionList {
    /// The transitions that a tree declares.
    ///
    /// A tree that is no list declares none. Of a list, every element whose
    /// kind is `CompTrans` is read, in order, and every other element is
    /// passed over: the result holds one transition for each element of
    /// that kind, or the error of the first of them that is refused.
    pub fn try_from(value: &Sexp) -> (parsed: Result<TransitionList, Error>)
        ensures
            match parsed {
                Ok(list) => parse_transition_list(value@) == Ok::<
                    Seq<TransitionView>,
                    ErrorView,
                >(list@),
                Err(why) => parse_transition_list(value@) == Err::<
                    Seq<TransitionView>,
                    ErrorView,
                >(why@),
            },
    {
        if !value.shape.is_list() {
            return Ok(TransitionList::default());
        }
        let items = value.shape.items();
        let ghost declared = value@.shape.items();
        let mut transitions: Vec<Transition> = Vec::new();
        let mut seen: usize = 0;
        proof {
            reveal(Seq::filter);
            assert(declared.take(0) =~= Seq::<SexpView>::empty());
            assert(declared.take(0).filter(transitions_only()) =~= Seq::<SexpView>::empty());
            assert(transitions@.map_values(|transition: Transition| transition@)
                =~= Seq::<TransitionView>::empty());
        }
        while seen < items.len()
            invariant
                value@.shape.is_list(),
                declared == value@.shape.items(),
                seen <= items@.len(),
                items@.len() == declared.len(),
                forall|i: int| 0 <= i < items@.len() ==> (#[trigger] items@[i])@ == declared[i],
                parse_transitions(declared.take(seen as int).filter(transitions_only())) == Ok::<
                    Seq<TransitionView>,
                    ErrorView,
                >(transitions@.map_values(|transition: Transition| transition@)),
            decreases items@.len() - seen,
        {
            let ghost before = transitions@.map_values(|transition: Transition| transition@);
            let ghost kept = declared.take(seen as int).filter(transitions_only());
            proof {
                lemma_filter_step(declared, seen as int);
                assert(kept.push(declared[seen as int]).drop_last() =~= kept);
                assert(items@[seen as int]@ == declared[seen as int]);
            }
            let component = items[seen];
            let wanted = match read_component_kind(component) {
                Some(kind) => same_text(kind, "CompTrans"),
                None => false,
            };
            assert(wanted == is_transition(declared[seen as int]));
            if wanted {
                match Transition::try_from(component) {
                    Ok(transition) => {
                        transitions.push(transition);
                        assert(transitions@.map_values(|transition: Transition| transition@)
                            =~= before.push(transition@));
                    },
                    Err(why) => {
                        proof {
                            assert(parse_transitions(kept.push(declared[seen as int])) == Err::<
                                Seq<TransitionView>,
                                ErrorView,
                            >(why@));
                            lemma_transition_refusal_stays(declared, seen + 1);
                        }
                        return Err(why);
                    },
                }
            }
            seen = seen + 1;
        }
        assert(declared.take(seen as int) =~= declared);
        Ok(TransitionList(transitions))
    }

    /// The transitions that the step's tree declares; none where the step
    /// gives no tree.
    pub(crate) fn try_from_step(step: Option<&Sexp>) -> (parsed: Result<
        TransitionList,
        Error,
    >)
        ensures
            match (step, parsed) {
                (Some(tree), Ok(list)) => parse_transition_list(tree@) == Ok::<
                    Seq<TransitionView>,
                    ErrorView,
                >(list@),
                (Some(tree), Err(why)) => parse_transition_list(tree@) == Err::<
                    Seq<TransitionView>,
                    ErrorView,
                >(why@),
                (None, Ok(list)) => list@ == Seq::<TransitionView>::empty(),
                (None, Err(_)) => false,
            },
    {
        match step {
            Some(tree) => TransitionList::try_from(tree),
            None => Ok(TransitionList::default()),
        }
    }
}

} // verus!
