//! Properties that relate the index, its queries and the expansion of documents.

use vstd::prelude::*;
use crate::expand::{
    document_expanded, entries_expansion, entry_views, field_expanded, pattern_expansion,
    value_expansion,
};
use crate::index::{catalog_names, prefix_matches};
use crate::query::strip_wildcards;
use crate::types::{ActionValue, AwsAction, AwsService};

verus! {

/// A prefix query returns only names of the corpus, and each starts with the query.
pub proof fn lemma_search_within_corpus(corpus: Seq<Seq<char>>, q: Seq<char>, result: Seq<Seq<char>>)
    requires
        result.to_set() == prefix_matches(corpus.to_set(), q),
    ensures
        forall|i: int| 0 <= i < result.len() ==> corpus.contains(#[trigger] result[i]) && q.is_prefix_of(result[i]),
{
    assert forall|i: int| 0 <= i < result.len() implies corpus.contains(#[trigger] result[i]) && q.is_prefix_of(result[i]) by {
        assert(result.to_set().contains(result[i]));
    }
}

/// The empty query returns the whole corpus, each distinct name once; on a corpus
/// without repeated names, exactly the corpus.
pub proof fn lemma_empty_query_is_corpus(corpus: Seq<Seq<char>>, result: Seq<Seq<char>>)
    requires
        result.to_set() == prefix_matches(corpus.to_set(), Seq::empty()),
        result.no_duplicates(),
    ensures
        result.to_set() == corpus.to_set(),
        corpus.no_duplicates() ==> result.to_multiset() == corpus.to_multiset(),
{
    assert forall|k: Seq<char>| Seq::<char>::empty().is_prefix_of(k) by {
        assert(Seq::<char>::empty() =~= k.subrange(0, 0));
    }
    assert(result.to_set() =~= corpus.to_set());
    if corpus.no_duplicates() {
        broadcast use vstd::seq_lib::group_to_multiset_ensures;
        result.lemma_multiset_has_no_duplicates();
        corpus.lemma_multiset_has_no_duplicates();
        assert forall|x: Seq<char>| result.to_multiset().count(x) == corpus.to_multiset().count(x) by {
            assert(result.contains(x) == result.to_set().contains(x));
            assert(corpus.contains(x) == corpus.to_set().contains(x));
        }
        assert(result.to_multiset() =~= corpus.to_multiset());
    }
}

/// The action names of one service, as a set.
pub open spec fn service_name_set(s: AwsService) -> Set<Seq<char>> {
    s.actions@.map_values(|a: AwsAction| a.name@).to_set()
}

/// Two services that share a namespace index to the union of their names, a
/// name that both hold being held once.
pub proof fn lemma_shared_namespace_union(a: AwsService, b: AwsService)
    requires
        a.prefix@ == b.prefix@,
    ensures
        catalog_names(seq![a, b]).to_set() == service_name_set(a) + service_name_set(b),
{
    let s = seq![a, b];
    assert(s.drop_last() =~= seq![a]);
    assert(seq![a].drop_last() =~= Seq::<AwsService>::empty());
    let na = a.actions@.map_values(|x: AwsAction| x.name@);
    let nb = b.actions@.map_values(|x: AwsAction| x.name@);
    reveal_with_fuel(catalog_names, 3);
    assert(seq![a].last() == a);
    assert(s.last() == b);
    assert(catalog_names(Seq::<AwsService>::empty()) =~= Seq::<Seq<char>>::empty());
    assert(catalog_names(seq![a]) =~= na);
    assert(catalog_names(s) =~= na + nb);
    assert forall|k: Seq<char>| (na + nb).contains(k) <==> na.contains(k) || nb.contains(k) by {
        if (na + nb).contains(k) {
            let i = choose|i: int| 0 <= i < (na + nb).len() && (na + nb)[i] == k;
            if i >= na.len() {
                assert(nb[i - na.len()] == k);
            }
        }
        if nb.contains(k) {
            let i = choose|i: int| 0 <= i < nb.len() && nb[i] == k;
            assert((na + nb)[i + na.len()] == k);
        }
        if na.contains(k) {
            let i = choose|i: int| 0 <= i < na.len() && na[i] == k;
            assert((na + nb)[i] == k);
        }
    }
    assert(catalog_names(s).to_set() =~= service_name_set(a) + service_name_set(b));
}

/// A name without `*` is its own query.
proof fn lemma_strip_plain(s: Seq<char>)
    requires
        !s.contains('*'),
    ensures
        strip_wildcards(s) == s,
    decreases s.len(),
{
    reveal_with_fuel(Seq::filter, 2);
    if s.len() > 0 {
        assert(!s.drop_last().contains('*')) by {
            if s.drop_last().contains('*') {
                let i = choose|i: int| 0 <= i < s.drop_last().len() && s.drop_last()[i] == '*';
                assert(s[i] == '*');
            }
        }
        lemma_strip_plain(s.drop_last());
        assert(s[s.len() - 1] != '*');
        assert(s.drop_last().push(s.last()) =~= s);
    }
}

/// Prefixes compose.
proof fn lemma_prefix_trans(a: Seq<char>, b: Seq<char>, c: Seq<char>)
    requires
        a.is_prefix_of(b),
        b.is_prefix_of(c),
    ensures
        a.is_prefix_of(c),
{
    assert forall|i: int| 0 <= i < a.len() implies a[i] == c[i] by {
        assert(a[i] == b.subrange(0, a.len() as int)[i]);
        assert(b[i] == c.subrange(0, b.len() as int)[i]);
    }
    assert(a =~= c.subrange(0, a.len() as int));
}

/// Holds every name of `keys` that extends one of its own names.
pub open spec fn closed_under_extension(keys: Set<Seq<char>>, names: Set<Seq<char>>) -> bool {
    &&& names.subset_of(keys)
    &&& forall|x: Seq<char>, k: Seq<char>| #[trigger] names.contains(x) && keys.contains(k) && #[trigger] x.is_prefix_of(k) ==> names.contains(k)
}

proof fn lemma_expansion_closed(keys: Set<Seq<char>>, v: ActionValue)
    ensures
        closed_under_extension(keys, value_expansion(keys, v)),
{
    let names = value_expansion(keys, v);
    assert forall|x: Seq<char>, k: Seq<char>| #[trigger] names.contains(x) && keys.contains(k) && #[trigger] x.is_prefix_of(k) implies names.contains(k) by {
        match v {
            ActionValue::Text(s) => {
                lemma_prefix_trans(strip_wildcards(s@), x, k);
            },
            ActionValue::List(l) => {
                assert(!crate::expand::has_non_string(l@));
                let i = choose|i: int| 0 <= i < l@.len() && l@[i] is Some && #[trigger] pattern_expansion(keys, l@[i]->0@).contains(x);
                lemma_prefix_trans(strip_wildcards(l@[i]->0@), x, k);
                assert(pattern_expansion(keys, l@[i]->0@).contains(k));
            },
            ActionValue::Other => {},
        }
    }
}

/// Expanding a list of names that is closed under extension gives the same names back.
proof fn lemma_reexpansion_fixed(keys: Set<Seq<char>>, l: Seq<Option<String>>)
    requires
        forall|k: Seq<char>| keys.contains(k) ==> !k.contains('*'),
        forall|i: int| 0 <= i < l.len() ==> (#[trigger] l[i]) is Some,
        closed_under_extension(keys, entry_views(l).to_set()),
    ensures
        entries_expansion(keys, l) == entry_views(l).to_set(),
{
    let names = entry_views(l).to_set();
    assert forall|k: Seq<char>| entries_expansion(keys, l).contains(k) <==> names.contains(k) by {
        if entries_expansion(keys, l).contains(k) {
            let i = choose|i: int| 0 <= i < l.len() && l[i] is Some && #[trigger] pattern_expansion(keys, l[i]->0@).contains(k);
            let x = l[i]->0@;
            assert(entry_views(l)[i] == x);
            assert(names.contains(x));
            lemma_strip_plain(x);
        }
        if names.contains(k) {
            let i = choose|i: int| 0 <= i < entry_views(l).len() && entry_views(l)[i] == k;
            assert(l[i] is Some);
            lemma_strip_plain(k);
            assert(k.is_prefix_of(k)) by {
                assert(k =~= k.subrange(0, k.len() as int));
            }
            assert(pattern_expansion(keys, l[i]->0@).contains(k));
        }
    }
    assert(entries_expansion(keys, l) =~= names);
}

/// Expanding a field that is already expanded changes no name, as long as no
/// indexed name holds a `*`.
pub proof fn lemma_field_expansion_idempotent(keys: Set<Seq<char>>, v1: ActionValue, v2: ActionValue, v3: ActionValue)
    requires
        forall|k: Seq<char>| keys.contains(k) ==> !k.contains('*'),
        field_expanded(keys, v1, v2),
        field_expanded(keys, v2, v3),
    ensures
        value_expansion(keys, v2) == value_expansion(keys, v1),
        value_expansion(keys, v3) == value_expansion(keys, v2),
{
    lemma_expansion_closed(keys, v1);
    if let ActionValue::List(l2) = v2 {
        assert(!crate::expand::has_non_string(l2@));
        lemma_reexpansion_fixed(keys, l2@);
        if let ActionValue::List(l3) = v3 {
            assert(!crate::expand::has_non_string(l3@));
            lemma_reexpansion_fixed(keys, l3@);
        }
    }
}

/// The names that an optional field denotes; an absent field denotes none.
pub open spec fn optional_expansion(keys: Set<Seq<char>>, v: Option<ActionValue>) -> Set<Seq<char>> {
    match v {
        Some(a) => value_expansion(keys, a),
        None => Set::empty(),
    }
}

/// Expanding an expanded document again leaves the names of every action list
/// unchanged, as long as no indexed name holds a `*`.
pub proof fn lemma_expand_policy_idempotent(
    keys: Set<Seq<char>>,
    d1: crate::types::AWSPolicyDocument,
    d2: crate::types::AWSPolicyDocument,
    d3: crate::types::AWSPolicyDocument,
)
    requires
        forall|k: Seq<char>| keys.contains(k) ==> !k.contains('*'),
        document_expanded(keys, d1, d2),
        document_expanded(keys, d2, d3),
    ensures
        d3.statement@.len() == d2.statement@.len(),
        forall|i: int| 0 <= i < d2.statement@.len() ==> value_expansion(keys, (#[trigger] d3.statement@[i]).action)
            == value_expansion(keys, d2.statement@[i].action),
        forall|i: int| 0 <= i < d2.statement@.len() ==> optional_expansion(keys, (#[trigger] d3.statement@[i]).not_action)
            == optional_expansion(keys, d2.statement@[i].not_action),
{
    assert forall|i: int| 0 <= i < d2.statement@.len() implies value_expansion(keys, (#[trigger] d3.statement@[i]).action)
        == value_expansion(keys, d2.statement@[i].action) && optional_expansion(keys, d3.statement@[i].not_action)
            == optional_expansion(keys, d2.statement@[i].not_action) by {
        let s1 = d1.statement@[i];
        let s2 = d2.statement@[i];
        let s3 = d3.statement@[i];
        lemma_field_expansion_idempotent(keys, s1.action, s2.action, s3.action);
        if let Some(a1) = s1.not_action {
            lemma_field_expansion_idempotent(keys, a1, s2.not_action.unwrap(), s3.not_action.unwrap());
        }
    }
}

} // verus!
