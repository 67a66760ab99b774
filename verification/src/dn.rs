//! Distinguished names: the parser of their textual form and the subtree
//! test, with the laws that hold of both.

use crate::text::{
    join, lemma_join_split, lemma_split_free_of, lemma_split_join, lemma_split_len, occurrences,
    split, split_text,
};
use vstd::prelude::*;

verus! {

/// The model of a distinguished name: its components, most specific first,
/// each a pair of attribute type and value.
pub type DnView = Seq<(Seq<char>, Seq<char>)>;

/// Why a text is no distinguished name.
#[derive(Clone, Copy, Debug, PartialEq, Eq, Structural)]
pub enum ParseError {
    /// A component has no part at all.
    EmptyElement,
    /// A component has no `=`, so a type and no value.
    MissingValue,
    /// A component has more than one `=`.
    TooManyElements,
}

/// The pair that the `=`-separated parts of one component make: type and
/// value where there are exactly two parts, else the reason why there is none.
pub open spec fn dn_pair(parts: Seq<Seq<char>>) -> Result<(Seq<char>, Seq<char>), ParseError> {
    if parts.len() == 0 {
        Err(ParseError::EmptyElement)
    } else if parts.len() == 1 {
        Err(ParseError::MissingValue)
    } else if parts.len() == 2 {
        Ok((parts[0], parts[1]))
    } else {
        Err(ParseError::TooManyElements)
    }
}

/// The name that a sequence of component texts denotes: each component
/// split at `=` into its pair.  The leftmost component that makes no pair
/// decides the error.
pub open spec fn parsed_components(components: Seq<Seq<char>>) -> Result<DnView, ParseError>
    decreases components.len(),
{
    if components.len() == 0 {
        Ok(Seq::empty())
    } else {
        match parsed_components(components.drop_last()) {
            Err(e) => Err(e),
            Ok(front) => match dn_pair(split(components.last(), '=')) {
                Ok(pair) => Ok(front.push(pair)),
                Err(e) => Err(e),
            },
        }
    }
}

/// The name that a text denotes.  The empty text is the empty name; any other
/// text is split at `,` into components, taken as they stand.
pub open spec fn parsed_dn(text: Seq<char>) -> Result<DnView, ParseError> {
    if text.len() == 0 {
        Ok(Seq::empty())
    } else {
        parsed_components(split(text, ','))
    }
}

/// The text of one component: type, `=`, value.
pub open spec fn component_text(component: (Seq<char>, Seq<char>)) -> Seq<char> {
    component.0.push('=') + component.1
}

/// The text of a name: its components' texts with `,` between them.
pub open spec fn dn_text(dn: DnView) -> Seq<char> {
    join(dn.map_values(|c: (Seq<char>, Seq<char>)| component_text(c)), ',')
}

/// No type and no value of the name holds one of the two delimiters.
pub open spec fn delimiter_free(dn: DnView) -> bool {
    forall|i: int|
        0 <= i < dn.len() ==> {
            let c = #[trigger] dn[i];
            !c.0.contains(',') && !c.0.contains('=') && !c.1.contains(',') && !c.1.contains('=')
        }
}

/// Whether `candidate` lies in the subtree below `base`: it is at least as
/// long, and its last components are those of `base`.
pub open spec fn subtree_of(candidate: DnView, base: DnView) -> bool {
    candidate.len() >= base.len() && candidate.skip(candidate.len() - base.len()) == base
}

/// Makes the pair of one component from its `=`-separated parts.
pub fn make_dn_pair(parts: Vec<String>) -> (res: Result<(String, String), ParseError>)
    ensures
        match res {
            Ok(pair) => dn_pair(parts.deep_view()) == Ok::<(Seq<char>, Seq<char>), ParseError>(
                pair.deep_view(),
            ),
            Err(e) => dn_pair(parts.deep_view()) == Err::<(Seq<char>, Seq<char>), ParseError>(e),
        },
{
    let mut parts = parts;
    let ghost given = parts.deep_view();
    if parts.len() == 0 {
        Err(ParseError::EmptyElement)
    } else if parts.len() == 1 {
        Err(ParseError::MissingValue)
    } else if parts.len() == 2 {
        let value = parts.pop().unwrap();
        let name = parts.pop().unwrap();
        assert(given[0] == name@ && given[1] == value@);
        Ok((name, value))
    } else {
        Err(ParseError::TooManyElements)
    }
}

/// Once a prefix of the components fails, the whole fails, with that error.
proof fn lemma_error_persists(components: Seq<Seq<char>>, k: int)
    requires
        0 <= k <= components.len(),
        parsed_components(components.take(k)) is Err,
    ensures
        parsed_components(components) == parsed_components(components.take(k)),
    decreases components.len() - k,
{
    if k == components.len() {
        assert(components.take(k) == components);
    } else {
        assert(components.take(k + 1).drop_last() == components.take(k));
        lemma_error_persists(components, k + 1);
    }
}

/// Parses the textual form of a distinguished name.
///
/// The text is split at `,` and each component at `=`; nothing is trimmed,
/// folded or unescaped.  One malformed component rejects the whole text.
pub fn parse_distinguished_name(dn: &str) -> (res: Result<Vec<(String, String)>, ParseError>)
    ensures
        match res {
            Ok(name) => parsed_dn(dn@) == Ok::<DnView, ParseError>(name.deep_view()),
            Err(e) => parsed_dn(dn@) == Err::<DnView, ParseError>(e),
        },
        res is Ok <==> dn@.len() == 0 || forall|i: int|
            0 <= i < split(dn@, ',').len() ==> occurrences(#[trigger] split(dn@, ',')[i], '=') == 1,
{
    proof {
        law_parse_accepts(dn@);
    }
    let mut name: Vec<(String, String)> = Vec::new();
    if dn.is_empty() {
        assert(name.deep_view() == Seq::<(Seq<char>, Seq<char>)>::empty());
        return Ok(name);
    }
    let components = split_text(dn, ',');
    let ghost texts = components.deep_view();
    let mut i: usize = 0;
    proof {
        assert(texts.take(0) == Seq::<Seq<char>>::empty());
        assert(name.deep_view() == Seq::<(Seq<char>, Seq<char>)>::empty());
    }
    while i < components.len()
        invariant
            i <= components.len(),
            dn@.len() > 0,
            texts == components.deep_view(),
            texts == split(dn@, ','),
            parsed_components(texts.take(i as int)) == Ok::<DnView, ParseError>(name.deep_view()),
        decreases components.len() - i,
    {
        let parts = split_text(components[i].as_str(), '=');
        proof {
            assert(texts.take(i + 1).drop_last() == texts.take(i as int));
            assert(texts.take(i + 1).last() == components[i as int]@);
        }
        match make_dn_pair(parts) {
            Ok(pair) => {
                let ghost before = name.deep_view();
                name.push(pair);
                assert(name.deep_view() == before.push(pair.deep_view()));
            },
            Err(e) => {
                proof {
                    assert(parsed_components(texts.take(i + 1)) == Err::<DnView, ParseError>(e));
                    lemma_error_persists(texts, i + 1);
                    law_parse_accepts(dn@);
                }
                return Err(e);
            },
        }
        i += 1;
    }
    assert(texts.take(i as int) == texts);
    Ok(name)
}

/// Whether `subtree` lies in the subtree below `base_tree`.
pub fn is_subtree(subtree: &[(String, String)], base_tree: &[(String, String)]) -> (within: bool)
    ensures
        within == subtree_of(subtree.deep_view(), base_tree.deep_view()),
{
    if subtree.len() < base_tree.len() {
        return false;
    }
    let size_diff = subtree.len() - base_tree.len();
    let ghost tail = subtree.deep_view().skip(size_diff as int);
    let mut i: usize = 0;
    while i < base_tree.len()
        invariant
            i <= base_tree.len(),
            size_diff + base_tree.len() == subtree.len(),
            tail == subtree.deep_view().skip(size_diff as int),
            forall|j: int| 0 <= j < i ==> tail[j] == base_tree.deep_view()[j],
        decreases base_tree.len() - i,
    {
        let ours = &subtree[size_diff + i];
        let theirs = &base_tree[i];
        assert(tail[i as int] == ours.deep_view());
        assert(base_tree.deep_view()[i as int] == theirs.deep_view());
        if ours.0 != theirs.0 || ours.1 != theirs.1 {
            assert(tail[i as int] != base_tree.deep_view()[i as int]);
            return false;
        }
        i += 1;
    }
    assert(tail =~= base_tree.deep_view());
    true
}

/// Every distinguished name, the empty one too, lies in its own subtree.
pub proof fn law_subtree_reflexive(x: DnView)
    ensures
        subtree_of(x, x),
{
    assert(x.skip(0) == x);
}

/// A name made by putting components in front of a base lies in the subtree
/// of that base.
pub proof fn law_subtree_extends(front: DnView, base: DnView)
    ensures
        subtree_of(front + base, base),
{
    assert((front + base).skip(front.len() as int) == base);
}

/// A name with one more component in front of a base lies in the subtree of
/// that base.
pub proof fn law_subtree_child(component: (Seq<char>, Seq<char>), base: DnView)
    ensures
        subtree_of(seq![component] + base, base),
{
    law_subtree_extends(seq![component], base);
}

/// The empty name lies in the subtree of the empty base only.
pub proof fn law_subtree_of_empty(base: DnView)
    ensures
        subtree_of(Seq::empty(), base) <==> base.len() == 0,
{
    if base.len() == 0 {
        assert(Seq::<(Seq<char>, Seq<char>)>::empty().skip(0) == base);
    }
}

/// Every name lies in the subtree of the empty base.
pub proof fn law_subtree_of_root(candidate: DnView)
    ensures
        subtree_of(candidate, Seq::empty()),
{
    assert(candidate.skip(candidate.len() as int) == Seq::<(Seq<char>, Seq<char>)>::empty());
}

/// The components parse to the name exactly when each splits at `=` into
/// the two parts of the pair at its place.
proof fn lemma_parsed_components_pairs(components: Seq<Seq<char>>, dn: DnView)
    requires
        components.len() == dn.len(),
        forall|i: int|
            0 <= i < dn.len() ==> split(#[trigger] components[i], '=') == seq![dn[i].0, dn[i].1],
    ensures
        parsed_components(components) == Ok::<DnView, ParseError>(dn),
    decreases components.len(),
{
    if components.len() > 0 {
        let front = components.drop_last();
        assert forall|i: int| 0 <= i < dn.drop_last().len() implies split(
            #[trigger] front[i],
            '=',
        ) == seq![dn.drop_last()[i].0, dn.drop_last()[i].1] by {
            assert(front[i] == components[i]);
        }
        lemma_parsed_components_pairs(front, dn.drop_last());
        let last = components.len() - 1;
        assert(split(components[last], '=') == seq![dn[last].0, dn[last].1]);
        assert(dn_pair(seq![dn[last].0, dn[last].1]) == Ok::<(Seq<char>, Seq<char>), ParseError>(
            dn[last],
        ));
        assert(dn.drop_last().push(dn[last]) == dn);
    } else {
        assert(dn == Seq::<(Seq<char>, Seq<char>)>::empty());
    }
}

/// The text of a component whose type and value hold no `=` splits at `=`
/// into that type and that value.
proof fn lemma_component_text_splits(component: (Seq<char>, Seq<char>))
    requires
        !component.0.contains('='),
        !component.1.contains('='),
    ensures
        split(component_text(component), '=') == seq![component.0, component.1],
{
    let parts = seq![component.0, component.1];
    assert(parts.drop_last() == seq![component.0]);
    assert(join(parts.drop_last(), '=') == component.0);
    assert(join(parts, '=') == component_text(component));
    lemma_split_join(parts, '=');
}

/// A text that holds no `,` and is made of two parts holds it in neither.
proof fn lemma_component_text_free_of_comma(component: (Seq<char>, Seq<char>))
    requires
        !component.0.contains(','),
        !component.1.contains(','),
    ensures
        !component_text(component).contains(','),
{
    let t = component_text(component);
    if t.contains(',') {
        let k = choose|k: int| 0 <= k < t.len() && t[k] == ',';
        if k < component.0.len() {
            assert(component.0[k] == ',');
        } else if k > component.0.len() {
            assert(component.1[k - component.0.len() - 1] == ',');
        }
    }
}

/// Parsing the text of a name whose types and values hold no delimiter gives
/// that name back.
pub proof fn law_parse_of_text(dn: DnView)
    requires
        delimiter_free(dn),
    ensures
        parsed_dn(dn_text(dn)) == Ok::<DnView, ParseError>(dn),
{
    let texts = dn.map_values(|c: (Seq<char>, Seq<char>)| component_text(c));
    if dn.len() == 0 {
        assert(dn == Seq::<(Seq<char>, Seq<char>)>::empty());
    } else {
        assert forall|i: int| 0 <= i < texts.len() implies !(#[trigger] texts[i]).contains(',') by {
            lemma_component_text_free_of_comma(dn[i]);
        }
        lemma_split_join(texts, ',');
        assert forall|i: int| 0 <= i < dn.len() implies split(#[trigger] texts[i], '=') == seq![
            dn[i].0,
            dn[i].1,
        ] by {
            lemma_component_text_splits(dn[i]);
        }
        lemma_parsed_components_pairs(texts, dn);
        lemma_join_split(dn_text(dn), ',');
        assert(dn_text(dn).len() > 0) by {
            if dn_text(dn).len() == 0 {
                assert(split(dn_text(dn), ',') == seq![Seq::<char>::empty()]);
                assert(texts[0] == Seq::<char>::empty());
                assert(component_text(dn[0]).len() > 0);
            }
        }
    }
}

/// What the components parse to has one pair for each, made of the two parts
/// into which the component splits at `=`.
proof fn lemma_parsed_components_shape(components: Seq<Seq<char>>)
    requires
        parsed_components(components) is Ok,
    ensures
        parsed_components(components)->Ok_0.len() == components.len(),
        forall|i: int|
            0 <= i < components.len() ==> split(#[trigger] components[i], '=') == seq![
                parsed_components(components)->Ok_0[i].0,
                parsed_components(components)->Ok_0[i].1,
            ],
    decreases components.len(),
{
    if components.len() > 0 {
        let front = components.drop_last();
        lemma_parsed_components_shape(front);
        let dn = parsed_components(components)->Ok_0;
        let parts = split(components.last(), '=');
        assert(parts == seq![parts[0], parts[1]]);
        assert forall|i: int| 0 <= i < components.len() implies split(
            #[trigger] components[i],
            '=',
        ) == seq![dn[i].0, dn[i].1] by {
            if i < components.len() - 1 {
                assert(components[i] == front[i]);
            }
        }
    }
}

/// The text of a parsed name is the text that was parsed, and no type or
/// value of a parsed name holds a delimiter.
pub proof fn law_text_of_parse(text: Seq<char>)
    requires
        parsed_dn(text) is Ok,
    ensures
        dn_text(parsed_dn(text)->Ok_0) == text,
        delimiter_free(parsed_dn(text)->Ok_0),
{
    let dn = parsed_dn(text)->Ok_0;
    if text.len() == 0 {
        assert(dn.map_values(|c: (Seq<char>, Seq<char>)| component_text(c)).len() == 0);
    } else {
        let components = split(text, ',');
        lemma_parsed_components_shape(components);
        lemma_split_free_of(text, ',');
        lemma_join_split(text, ',');
        let texts = dn.map_values(|c: (Seq<char>, Seq<char>)| component_text(c));
        assert forall|i: int| 0 <= i < dn.len() implies {
            let c = #[trigger] dn[i];
            &&& texts[i] == components[i]
            &&& !c.0.contains(',') && !c.0.contains('=') && !c.1.contains(',') && !c.1.contains(
                '=',
            )
        } by {
            let c = dn[i];
            let parts = seq![c.0, c.1];
            assert(split(components[i], '=') == parts);
            lemma_join_split(components[i], '=');
            assert(parts.drop_last() == seq![c.0]);
            assert(join(parts.drop_last(), '=') == c.0);
            assert(join(parts, '=') == component_text(c));
            lemma_split_free_of(components[i], '=');
            assert(parts[0] == c.0 && parts[1] == c.1);
            assert(!components[i].contains(','));
            if c.0.contains(',') {
                let k = choose|k: int| 0 <= k < c.0.len() && c.0[k] == ',';
                assert(components[i][k] == ',');
            }
            if c.1.contains(',') {
                let k = choose|k: int| 0 <= k < c.1.len() && c.1[k] == ',';
                assert(components[i][c.0.len() + 1 + k] == ',');
            }
        }
        assert(texts == components);
    }
}

/// A text is a distinguished name exactly when it is empty or each of its
/// components holds exactly one `=`.
pub proof fn law_parse_accepts(text: Seq<char>)
    ensures
        parsed_dn(text) is Ok <==> text.len() == 0 || forall|i: int|
            0 <= i < split(text, ',').len() ==> occurrences(#[trigger] split(text, ',')[i], '=')
                == 1,
{
    if text.len() > 0 {
        lemma_components_accepted(split(text, ','));
    }
}

/// The components parse exactly when each holds exactly one `=`.
proof fn lemma_components_accepted(components: Seq<Seq<char>>)
    ensures
        parsed_components(components) is Ok <==> forall|i: int|
            0 <= i < components.len() ==> occurrences(#[trigger] components[i], '=') == 1,
    decreases components.len(),
{
    if components.len() > 0 {
        let front = components.drop_last();
        lemma_components_accepted(front);
        lemma_split_len(components.last(), '=');
        if parsed_components(components) is Ok {
            assert forall|i: int| 0 <= i < components.len() implies occurrences(
                #[trigger] components[i],
                '=',
            ) == 1 by {
                if i < components.len() - 1 {
                    assert(components[i] == front[i]);
                }
            }
        }
        if forall|i: int|
            0 <= i < components.len() ==> occurrences(#[trigger] components[i], '=') == 1 {
            assert forall|i: int| 0 <= i < front.len() implies occurrences(#[trigger] front[i], '=')
                == 1 by {
                assert(front[i] == components[i]);
            }
            assert(occurrences(components[components.len() - 1], '=') == 1);
        }
    }
}

/// A text with a component that holds no `=`, or more than one, is rejected.
pub proof fn law_malformed_component_rejected(text: Seq<char>, i: int)
    requires
        text.len() > 0,
        0 <= i < split(text, ',').len(),
        occurrences(split(text, ',')[i], '=') != 1,
    ensures
        parsed_dn(text) is Err,
{
    law_parse_accepts(text);
}

} // verus!
