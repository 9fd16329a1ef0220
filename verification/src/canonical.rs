use vstd::prelude::*;
use crate::text::{decimal, digit};
use crate::types::{rendering, TypeView};

verus! {

/// Whether a type is known throughout: no part of it is `Other`.
pub open spec fn known(ty: TypeView) -> bool
    decreases ty,
{
    match ty {
        TypeView::Other(_) => false,
        TypeView::Mapping(key, value) => known(*key) && known(*value),
        TypeView::Pair(first, second) => known(*first) && known(*second),
        TypeView::Option(inner) => known(*inner),
        TypeView::List(inner) => known(*inner),
        _ => true,
    }
}

/// Whether a type is made of other types.
pub open spec fn compound(ty: TypeView) -> bool {
    ty is Mapping || ty is Pair || ty is Option || ty is List
}

/// Whether a character ends a word: a space, a comma or a closing bracket.
pub open spec fn is_break(c: char) -> bool {
    c == ' ' || c == ',' || c == ')'
}

/// Whether a text can follow a word: it is empty or begins with a break.
pub open spec fn breaks(text: Seq<char>) -> bool {
    text.len() == 0 || is_break(text[0])
}

/// Whether a character is a decimal digit.
pub open spec fn is_digit(c: char) -> bool {
    c == '0' || c == '1' || c == '2' || c == '3' || c == '4' || c == '5' || c == '6' || c == '7'
        || c == '8' || c == '9'
}

/// A number in decimal is one digit or more, and digits only.
pub proof fn lemma_decimal_is_digits(n: nat)
    ensures
        decimal(n).len() >= 1,
        n >= 10 ==> decimal(n).len() >= 2,
        forall|i: int| 0 <= i < decimal(n).len() ==> is_digit(#[trigger] decimal(n)[i]),
    decreases n,
{
    if n >= 10 {
        lemma_decimal_is_digits(n / 10);
    }
}

/// Two numbers that are written alike in decimal are the same number.
pub proof fn lemma_decimal_tells_numbers_apart(n: nat, m: nat)
    requires
        decimal(n) == decimal(m),
    ensures
        n == m,
    decreases n,
{
    lemma_decimal_is_digits(n);
    lemma_decimal_is_digits(m);
    if n < 10 && m < 10 {
        assert(decimal(n)[0] == digit(n));
        assert(decimal(m)[0] == digit(m));
    } else if n >= 10 && m >= 10 {
        let front_n = decimal(n / 10);
        let front_m = decimal(m / 10);
        assert(decimal(n).drop_last() =~= front_n);
        assert(decimal(m).drop_last() =~= front_m);
        assert(decimal(n).last() == digit(n % 10));
        assert(decimal(m).last() == digit(m % 10));
        lemma_decimal_tells_numbers_apart(n / 10, m / 10);
    }
}

/// How a known type begins: a compound type with an opening bracket and the
/// first letter of its name, any other type with a letter. The rendering of
/// a type that is not compound holds no break.
pub proof fn lemma_rendering_begins(ty: TypeView)
    requires
        known(ty),
    ensures
        rendering(ty).len() >= 2,
        ty is Mapping ==> rendering(ty)[0] == '(' && rendering(ty)[1] == 'M',
        ty is Option ==> rendering(ty)[0] == '(' && rendering(ty)[1] == 'O',
        ty is List ==> rendering(ty)[0] == '(' && rendering(ty)[1] == 'L',
        ty is Pair ==> rendering(ty)[0] == '(' && rendering(ty)[1] == 'P',
        !compound(ty) ==> rendering(ty)[0] != '(' && forall|i: int|
            0 <= i < rendering(ty).len() ==> !is_break(#[trigger] rendering(ty)[i]),
{
    reveal_strlit("Int32");
    reveal_strlit("Int64");
    reveal_strlit("Int128");
    reveal_strlit("Int256");
    reveal_strlit("Uint32");
    reveal_strlit("Uint64");
    reveal_strlit("Uint128");
    reveal_strlit("Uint256");
    reveal_strlit("String");
    reveal_strlit("BNum");
    reveal_strlit("Bool");
    reveal_strlit("ByStr");
    reveal_strlit("(Map ");
    reveal_strlit("(Option ");
    reveal_strlit("(List ");
    reveal_strlit("(Pair ");
    let text = rendering(ty);
    match ty {
        TypeView::ByStr(length) => {
            lemma_decimal_is_digits(length);
            assert forall|i: int| 0 <= i < text.len() implies !is_break(#[trigger] text[i]) by {
                if i >= 5 {
                    assert(text[i] == decimal(length)[i - 5]);
                }
            }
        },
        TypeView::Mapping(_, _) => {},
        TypeView::Option(_) => {},
        TypeView::List(_) => {},
        TypeView::Pair(_, _) => {},
        _ => {
            assert forall|i: int| 0 <= i < text.len() implies !is_break(#[trigger] text[i]) by {
                if i == 0 {
                } else if i == 1 {
                } else if i == 2 {
                } else if i == 3 {
                } else if i == 4 {
                } else if i == 5 {
                } else if i == 6 {
                }
            }
        },
    }
}

/// Two known types that are not compound and are written alike are the same
/// type.
pub proof fn lemma_words_tell_types_apart(a: TypeView, b: TypeView)
    requires
        known(a),
        known(b),
        !compound(a),
        !compound(b),
        rendering(a) == rendering(b),
    ensures
        a == b,
{
    reveal_strlit("Int32");
    reveal_strlit("Int64");
    reveal_strlit("Int128");
    reveal_strlit("Int256");
    reveal_strlit("Uint32");
    reveal_strlit("Uint64");
    reveal_strlit("Uint128");
    reveal_strlit("Uint256");
    reveal_strlit("String");
    reveal_strlit("BNum");
    reveal_strlit("Bool");
    reveal_strlit("ByStr");
    let text = rendering(a);
    match (a, b) {
        (TypeView::ByStr(n), TypeView::ByStr(m)) => {
            assert(text.skip(5) =~= decimal(n));
            assert(text.skip(5) =~= decimal(m));
            lemma_decimal_tells_numbers_apart(n, m);
        },
        (TypeView::ByStr(n), _) => {
            lemma_decimal_is_digits(n);
            assert(text[0] == 'B' && text[1] == 'y');
        },
        (_, TypeView::ByStr(m)) => {
            lemma_decimal_is_digits(m);
            assert(text[0] == 'B' && text[1] == 'y');
        },
        _ => {
            assert(text.len() >= 4);
            let c0 = text[0];
            let c1 = text[1];
            let c2 = text[2];
            let c3 = text[3];
            if text.len() >= 5 {
                let c4 = text[4];
            }
            if text.len() >= 6 {
                let c5 = text[5];
            }
        },
    }
}

/// A word ends at the first break: where two known types that are not
/// compound, each followed by a text that can follow a word, are written
/// alike, the types are the same and so are the texts that follow.
pub proof fn lemma_word_ends_at_break(
    a: TypeView,
    b: TypeView,
    after_a: Seq<char>,
    after_b: Seq<char>,
)
    requires
        known(a),
        known(b),
        !compound(a),
        !compound(b),
        breaks(after_a),
        breaks(after_b),
        rendering(a) + after_a == rendering(b) + after_b,
    ensures
        a == b,
        after_a == after_b,
{
    lemma_rendering_begins(a);
    lemma_rendering_begins(b);
    let word_a = rendering(a);
    let word_b = rendering(b);
    let whole = word_a + after_a;
    assert(word_a.len() + after_a.len() == word_b.len() + after_b.len()) by {
        assert(whole.len() == (word_b + after_b).len());
    }
    if word_a.len() < word_b.len() {
        assert(whole[word_a.len() as int] == after_a[0]);
        assert((word_b + after_b)[word_a.len() as int] == word_b[word_a.len() as int]);
        assert(false);
    }
    if word_b.len() < word_a.len() {
        assert((word_b + after_b)[word_b.len() as int] == after_b[0]);
        assert(whole[word_b.len() as int] == word_a[word_b.len() as int]);
        assert(false);
    }
    assert(word_a =~= word_b) by {
        assert forall|i: int| 0 <= i < word_a.len() implies word_a[i] == word_b[i] by {
            assert(whole[i] == word_a[i]);
            assert((word_b + after_b)[i] == word_b[i]);
        }
    }
    assert(after_a =~= after_b) by {
        assert forall|i: int| 0 <= i < after_a.len() implies after_a[i] == after_b[i] by {
            assert(whole[word_a.len() + i] == after_a[i]);
            assert((word_b + after_b)[word_b.len() + i] == after_b[i]);
        }
    }
    lemma_words_tell_types_apart(a, b);
}

/// A known type can be told from what is written after it: where two known
/// types, each followed by a text that can follow a word, are written
/// alike, the types are the same and so are the texts that follow.
pub proof fn lemma_rendering_ends_where_it_must(
    a: TypeView,
    b: TypeView,
    after_a: Seq<char>,
    after_b: Seq<char>,
)
    requires
        known(a),
        known(b),
        breaks(after_a),
        breaks(after_b),
        rendering(a) + after_a == rendering(b) + after_b,
    ensures
        a == b,
        after_a == after_b,
    decreases a, 1nat,
{
    lemma_rendering_begins(a);
    lemma_rendering_begins(b);
    let whole = rendering(a) + after_a;
    assert(whole[0] == rendering(a)[0] && whole[1] == rendering(a)[1]);
    assert(whole[0] == rendering(b)[0] && whole[1] == rendering(b)[1]) by {
        assert(whole == rendering(b) + after_b);
    }
    match a {
        TypeView::Mapping(_, _) => {
            lemma_two_parts_end_where_they_must(a, b, after_a, after_b);
        },
        TypeView::Pair(_, _) => {
            lemma_two_parts_end_where_they_must(a, b, after_a, after_b);
        },
        TypeView::Option(_) => {
            lemma_one_part_ends_where_it_must(a, b, after_a, after_b);
        },
        TypeView::List(_) => {
            lemma_one_part_ends_where_it_must(a, b, after_a, after_b);
        },
        _ => {
            lemma_word_ends_at_break(a, b, after_a, after_b);
        },
    }
}

/// What opens a compound type: the bracket, the name and the space.
pub open spec fn opening(ty: TypeView) -> Seq<char> {
    match ty {
        TypeView::Mapping(_, _) => "(Map "@,
        TypeView::Pair(_, _) => "(Pair "@,
        TypeView::Option(_) => "(Option "@,
        _ => "(List "@,
    }
}

/// What parts the two parts of a map or of a pair.
pub open spec fn parting(ty: TypeView) -> Seq<char> {
    match ty {
        TypeView::Mapping(_, _) => ", "@,
        _ => " "@,
    }
}

/// The first part of a compound type.
pub open spec fn first_part(ty: TypeView) -> TypeView {
    match ty {
        TypeView::Mapping(key, _) => *key,
        TypeView::Pair(first, _) => *first,
        TypeView::Option(inner) => *inner,
        TypeView::List(inner) => *inner,
        _ => ty,
    }
}

/// The second part of a map or of a pair.
pub open spec fn second_part(ty: TypeView) -> TypeView {
    match ty {
        TypeView::Mapping(_, value) => *value,
        TypeView::Pair(_, second) => *second,
        _ => ty,
    }
}

/// The case of [`lemma_rendering_ends_where_it_must`] for two options or
/// two lists.
pub proof fn lemma_one_part_ends_where_it_must(
    a: TypeView,
    b: TypeView,
    after_a: Seq<char>,
    after_b: Seq<char>,
)
    requires
        known(a),
        known(b),
        (a is Option && b is Option) || (a is List && b is List),
        breaks(after_a),
        breaks(after_b),
        rendering(a) + after_a == rendering(b) + after_b,
    ensures
        a == b,
        after_a == after_b,
    decreases a, 0nat,
{
    let open = opening(a);
    let close = ")"@;
    let last_a = close + after_a;
    let last_b = close + after_b;
    assert(open == opening(b));
    assert(close.len() == 1 && close[0] == ')') by {
        reveal_strlit(")");
    }
    assert(rendering(a) == open + rendering(first_part(a)) + close);
    assert(rendering(b) == open + rendering(first_part(b)) + close);
    assert((rendering(a) + after_a).skip(open.len() as int) =~= rendering(first_part(a)) + last_a);
    assert((rendering(b) + after_b).skip(open.len() as int) =~= rendering(first_part(b)) + last_b);
    assert(last_a[0] == ')' && last_b[0] == ')');
    lemma_rendering_ends_where_it_must(first_part(a), first_part(b), last_a, last_b);
    assert(after_a =~= last_a.skip(1));
    assert(after_b =~= last_b.skip(1));
}

/// The case of [`lemma_rendering_ends_where_it_must`] for two maps or two
/// pairs.
pub proof fn lemma_two_parts_end_where_they_must(
    a: TypeView,
    b: TypeView,
    after_a: Seq<char>,
    after_b: Seq<char>,
)
    requires
        known(a),
        known(b),
        (a is Mapping && b is Mapping) || (a is Pair && b is Pair),
        breaks(after_a),
        breaks(after_b),
        rendering(a) + after_a == rendering(b) + after_b,
    ensures
        a == b,
        after_a == after_b,
    decreases a, 0nat,
{
    let open = opening(a);
    let part = parting(a);
    let close = ")"@;
    let last_a = close + after_a;
    let last_b = close + after_b;
    let rest_a = part + rendering(second_part(a)) + last_a;
    let rest_b = part + rendering(second_part(b)) + last_b;
    assert(open == opening(b) && part == parting(b));
    assert(close.len() == 1 && close[0] == ')') by {
        reveal_strlit(")");
    }
    assert(part.len() >= 1 && is_break(part[0])) by {
        reveal_strlit(", ");
        reveal_strlit(" ");
    }
    assert(rendering(a) == open + rendering(first_part(a)) + part + rendering(second_part(a))
        + close);
    assert(rendering(b) == open + rendering(first_part(b)) + part + rendering(second_part(b))
        + close);
    assert((rendering(a) + after_a).skip(open.len() as int) =~= rendering(first_part(a)) + rest_a);
    assert((rendering(b) + after_b).skip(open.len() as int) =~= rendering(first_part(b)) + rest_b);
    assert(rest_a[0] == part[0] && rest_b[0] == part[0]);
    lemma_rendering_ends_where_it_must(first_part(a), first_part(b), rest_a, rest_b);
    assert(rest_a.skip(part.len() as int) =~= rendering(second_part(a)) + last_a);
    assert(rest_b.skip(part.len() as int) =~= rendering(second_part(b)) + last_b);
    assert(last_a[0] == ')' && last_b[0] == ')');
    lemma_rendering_ends_where_it_must(second_part(a), second_part(b), last_a, last_b);
    assert(after_a =~= last_a.skip(1));
    assert(after_b =~= last_b.skip(1));
}

/// The rendering tells known types apart: two known types that are written
/// alike are the same type. So what is written of a known type can be read
/// back to that type and to no other.
pub proof fn lemma_rendering_tells_types_apart(a: TypeView, b: TypeView)
    requires
        known(a),
        known(b),
        rendering(a) == rendering(b),
    ensures
        a == b,
{
    let nothing = Seq::<char>::empty();
    assert(rendering(a) + nothing =~= rendering(a));
    assert(rendering(b) + nothing =~= rendering(b));
    lemma_rendering_ends_where_it_must(a, b, nothing, nothing);
}

} // verus!
