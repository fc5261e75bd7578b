//! The prefix index over qualified action names.

use vstd::prelude::*;
use crate::types::{string_views, AwsService};

verus! {

/// The keys that a prefix tree holds.
pub uninterp spec fn trie_keys(t: trie_rs::Trie<u8>) -> Set<Seq<char>>;

/// The prefix tree of `trie_rs`, held opaque.
#[verifier::external_type_specification]
#[verifier::external_body]
#[verifier::reject_recursive_types(Label)]
pub struct ExTrie<Label>(trie_rs::Trie<Label>);

/// The keys of `keys` that start with `q`.
pub open spec fn prefix_matches(keys: Set<Seq<char>>, q: Seq<char>) -> Set<Seq<char>> {
    keys.filter(|k: Seq<char>| q.is_prefix_of(k))
}

/// `a` comes strictly before `b` in lexicographic order of code points.
pub open spec fn lex_less(a: Seq<char>, b: Seq<char>) -> bool {
    ||| (a.len() < b.len() && a.is_prefix_of(b))
    ||| exists|i: int| 0 <= i < a.len() && i < b.len() && a.subrange(0, i) == b.subrange(0, i)
        && (a[i] as u32) < (b[i] as u32)
}

/// Each element comes strictly before every later one.
pub open spec fn strictly_ascending(s: Seq<Seq<char>>) -> bool {
    forall|i: int, j: int| 0 <= i < j < s.len() ==> #[trigger] lex_less(s[i], s[j])
}

/// Every qualified action name of the services, in order.
pub open spec fn catalog_names(services: Seq<AwsService>) -> Seq<Seq<char>>
    decreases services.len(),
{
    if services.len() == 0 {
        Seq::empty()
    } else {
        let last = services.last();
        catalog_names(services.drop_last()) + last.actions@.map_values(|a: crate::types::AwsAction| a.name@)
    }
}

/// Relies on `trie_rs::Trie::from_iter`: each pushed key is stored once, a repeated
/// key is merged with the first. An empty key makes the builder panic.
#[verifier::external_body]
fn trie_from_keys(keys: Vec<String>) -> (t: trie_rs::Trie<u8>)
    requires
        forall|i: int| 0 <= i < keys@.len() ==> keys@[i]@.len() > 0,
    ensures
        trie_keys(t) == string_views(keys@).to_set(),
{
    trie_rs::Trie::from_iter(keys)
}

/// Relies on `trie_rs::Trie::predictive_search`, collected into `String`s: every
/// stored key that starts with the query, each once, in the ascending order of a
/// depth-first walk over sorted children. Keys and query are UTF-8, so a byte
/// prefix is a character prefix and byte order is code point order.
#[verifier::external_body]
fn trie_predictive_search(t: &trie_rs::Trie<u8>, q: &str) -> (r: Vec<String>)
    ensures
        string_views(r@).to_set() == prefix_matches(trie_keys(*t), q@),
        string_views(r@).no_duplicates(),
        strictly_ascending(string_views(r@)),
{
    t.predictive_search(q).collect()
}

/// An immutable prefix index over qualified action names.
pub struct ActionIndex {
    trie: trie_rs::Trie<u8>,
}

impl View for ActionIndex {
    type V = Set<Seq<char>>;

    closed spec fn view(&self) -> Set<Seq<char>> {
        trie_keys(self.trie)
    }
}

impl ActionIndex {
    /// Builds the index over a corpus of names; repeated names are held once.
    pub fn build(corpus: Vec<String>) -> (r: ActionIndex)
        requires
            forall|i: int| 0 <= i < corpus@.len() ==> corpus@[i]@.len() > 0,
        ensures
            r@ == string_views(corpus@).to_set(),
    {
        ActionIndex { trie: trie_from_keys(corpus) }
    }

    /// Builds the index over every action name of the services, merging the
    /// services that share a namespace.
    pub fn from_services(services: &Vec<AwsService>) -> (r: ActionIndex)
        requires
            forall|i: int| 0 <= i < catalog_names(services@).len() ==> catalog_names(services@)[i].len() > 0,
        ensures
            r@ == catalog_names(services@).to_set(),
    {
        let names = collect_action_names(services);
        assert forall|i: int| 0 <= i < names@.len() implies names@[i]@.len() > 0 by {
            assert(string_views(names@)[i] == names@[i]@);
        }
        ActionIndex::build(names)
    }

    /// Every indexed name that starts with `query`, each once, in ascending order.
    pub fn search_prefix(&self, query: &str) -> (r: Vec<String>)
        ensures
            string_views(r@).to_set() == prefix_matches(self@, query@),
            string_views(r@).no_duplicates(),
            strictly_ascending(string_views(r@)),
    {
        trie_predictive_search(&self.trie, query)
    }
}

/// Every qualified action name of the services, in catalog order.
pub fn collect_action_names(services: &Vec<AwsService>) -> (r: Vec<String>)
    ensures
        string_views(r@) == catalog_names(services@),
{
    let mut names: Vec<String> = Vec::new();
    let mut i: usize = 0;
    while i < services.len()
        invariant
            i <= services@.len(),
            string_views(names@) == catalog_names(services@.take(i as int)),
        decreases services@.len() - i,
    {
        let actions = &services[i].actions;
        let ghost before = names@;
        let mut j: usize = 0;
        while j < actions.len()
            invariant
                i < services@.len(),
                *actions == services@[i as int].actions,
                j <= actions@.len(),
                string_views(names@) == string_views(before) + actions@.take(j as int).map_values(
                    |a: crate::types::AwsAction| a.name@,
                ),
            decreases actions@.len() - j,
        {
            let ghost prev = names@;
            names.push(actions[j].name.clone());
            proof {
                assert(string_views(names@) =~= string_views(prev).push(actions@[j as int].name@));
                assert(actions@.take(j + 1).drop_last() == actions@.take(j as int));
                assert(string_views(names@) =~= string_views(before) + actions@.take(j + 1).map_values(
                    |a: crate::types::AwsAction| a.name@,
                ));
            }
            j = j + 1;
        }
        proof {
            assert(services@.take(i + 1).drop_last() == services@.take(i as int));
            assert(actions@.take(j as int) == actions@);
        }
        i = i + 1;
    }
    proof {
        assert(services@.take(i as int) == services@);
    }
    names
}

} // verus!
