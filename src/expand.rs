//! Rewriting of action fields into the concrete names that they denote.

use vstd::prelude::*;
use crate::index::{prefix_matches, strictly_ascending, ActionIndex};
use crate::query::{remove_wildcards, strip_wildcards};
use crate::types::{string_views, AWSPolicyDocument, AWSPolicyStatement, ActionValue, ExpansionError};

verus! {

/// The names that one pattern denotes: those that start with it once its `*` are removed.
pub open spec fn pattern_expansion(keys: Set<Seq<char>>, p: Seq<char>) -> Set<Seq<char>> {
    prefix_matches(keys, strip_wildcards(p))
}

/// A list that holds an entry which is not a string.
pub open spec fn has_non_string(entries: Seq<Option<String>>) -> bool {
    exists|i: int| 0 <= i < entries.len() && (#[trigger] entries[i]) is None
}

/// The union of the expansions of the string entries of a list.
pub open spec fn entries_expansion(keys: Set<Seq<char>>, entries: Seq<Option<String>>) -> Set<Seq<char>> {
    Set::new(|k: Seq<char>| exists|i: int| 0 <= i < entries.len() && entries[i] is Some
        && #[trigger] pattern_expansion(keys, entries[i]->0@).contains(k))
}

/// The names that an action field denotes; a malformed field denotes none.
pub open spec fn value_expansion(keys: Set<Seq<char>>, v: ActionValue) -> Set<Seq<char>> {
    match v {
        ActionValue::Text(s) => pattern_expansion(keys, s@),
        ActionValue::List(l) => if has_non_string(l@) {
            Set::empty()
        } else {
            entries_expansion(keys, l@)
        },
        ActionValue::Other => Set::empty(),
    }
}

/// The entries of a list of strings, all present, as their views.
pub open spec fn entry_views(l: Seq<Option<String>>) -> Seq<Seq<char>> {
    l.map_values(|e: Option<String>| match e {
        Some(s) => s@,
        None => Seq::empty(),
    })
}

/// `after` is the list of the names that `before` denotes, each once.
pub open spec fn field_expanded(keys: Set<Seq<char>>, before: ActionValue, after: ActionValue) -> bool {
    match after {
        ActionValue::List(l) => (forall|i: int| 0 <= i < l@.len() ==> (#[trigger] l@[i]) is Some)
            && entry_views(l@).no_duplicates()
            && entry_views(l@).to_set() == value_expansion(keys, before),
        _ => false,
    }
}

/// A field that is neither a string nor a list of strings.
pub open spec fn is_malformed(v: ActionValue) -> bool {
    v is Other || (v matches ActionValue::List(l) && has_non_string(l@))
}

/// A statement with a malformed `Action` or `NotAction`.
pub open spec fn statement_malformed(st: AWSPolicyStatement) -> bool {
    is_malformed(st.action) || (st.not_action matches Some(na) && is_malformed(na))
}

/// `after` is `before` with its action fields expanded and every other field kept.
pub open spec fn statement_expanded(keys: Set<Seq<char>>, before: AWSPolicyStatement, after: AWSPolicyStatement) -> bool {
    &&& after.sid == before.sid
    &&& after.effect == before.effect
    &&& after.principal == before.principal
    &&& after.resource == before.resource
    &&& after.not_resource == before.not_resource
    &&& after.condition == before.condition
    &&& field_expanded(keys, before.action, after.action)
    &&& (before.not_action is None <==> after.not_action is None)
    &&& (before.not_action matches Some(b) ==> after.not_action matches Some(a) && field_expanded(keys, b, a))
}

/// One `MalformedActionValue` for each malformed statement, by its index, in order.
pub open spec fn malformed_errors(stmts: Seq<AWSPolicyStatement>) -> Seq<ExpansionError>
    decreases stmts.len(),
{
    if stmts.len() == 0 {
        Seq::empty()
    } else {
        malformed_errors(stmts.drop_last()) + if statement_malformed(stmts.last()) {
            seq![ExpansionError::MalformedActionValue((stmts.len() - 1) as usize)]
        } else {
            Seq::empty()
        }
    }
}

/// `d2` is `d1` with every statement expanded against `keys`.
pub open spec fn document_expanded(keys: Set<Seq<char>>, d1: AWSPolicyDocument, d2: AWSPolicyDocument) -> bool {
    &&& d2.version == d1.version
    &&& d2.id == d1.id
    &&& d2.statement@.len() == d1.statement@.len()
    &&& forall|i: int| 0 <= i < d1.statement@.len() ==> statement_expanded(keys, #[trigger] d1.statement@[i], d2.statement@[i])
}

/// Adds to `out` each name of `items` that it does not hold yet.
fn merge_unique(out: &mut Vec<String>, items: Vec<String>)
    requires
        string_views(old(out)@).no_duplicates(),
    ensures
        string_views(final(out)@).no_duplicates(),
        string_views(final(out)@).to_set() == string_views(old(out)@).to_set() + string_views(items@).to_set(),
{
    let ghost start = out@;
    let mut j: usize = 0;
    while j < items.len()
        invariant
            j <= items@.len(),
            string_views(out@).no_duplicates(),
            string_views(out@).to_set() == string_views(start).to_set() + string_views(items@.take(j as int)).to_set(),
        decreases items@.len() - j,
    {
        let x = &items[j];
        let ghost prev = out@;
        if !crate::query::contains_string(out, x) {
            out.push(x.clone());
            proof {
                assert(string_views(out@) =~= string_views(prev).push(x@));
            }
        }
        proof {
            assert(string_views(items@.take(j + 1)) =~= string_views(items@.take(j as int)).push(x@));
            assert forall|n: Seq<char>| string_views(out@).contains(n) <==> (string_views(prev).contains(n) || n == x@) by {
                if string_views(out@).len() != string_views(prev).len() {
                    assert(string_views(out@)[string_views(prev).len() as int] == x@);
                    if string_views(prev).contains(n) {
                        let w = choose|w: int| 0 <= w < string_views(prev).len() && string_views(prev)[w] == n;
                        assert(string_views(out@)[w] == n);
                    }
                }
            }
            assert forall|n: Seq<char>| string_views(items@.take(j + 1)).contains(n) <==> (string_views(items@.take(j as int)).contains(n) || n == x@) by {
                let a = string_views(items@.take(j as int));
                let b = string_views(items@.take(j + 1));
                if b.contains(n) {
                    let w = choose|w: int| 0 <= w < b.len() && b[w] == n;
                    if w < a.len() {
                        assert(a[w] == n);
                    }
                }
                if a.contains(n) {
                    let w = choose|w: int| 0 <= w < a.len() && a[w] == n;
                    assert(b[w] == n);
                }
                assert(b[j as int] == x@);
            }
            assert forall|n: Seq<char>| string_views(out@).to_set().contains(n) == (string_views(start).to_set().contains(n)
                || string_views(items@.take(j + 1)).to_set().contains(n)) by {
                assert(string_views(prev).to_set().contains(n) == (string_views(start).to_set().contains(n)
                    || string_views(items@.take(j as int)).to_set().contains(n)));
            }
            assert(string_views(out@).to_set() =~= string_views(start).to_set() + string_views(items@.take(j + 1)).to_set());
        }
        j = j + 1;
    }
    proof {
        assert(items@.take(j as int) =~= items@);
    }
}

/// The names that one pattern denotes, each once, in ascending order.
pub fn expand_string_actions(action: &str, index: &ActionIndex) -> (r: Vec<String>)
    ensures
        string_views(r@).no_duplicates(),
        strictly_ascending(string_views(r@)),
        string_views(r@).to_set() == pattern_expansion(index@, action@),
{
    let query = remove_wildcards(action);
    index.search_prefix(query.as_str())
}

/// The union of the expansions of the entries of a list of strings, each name
/// once; `None` for a list with an entry that is not a string.
pub fn expand_array_actions(actions: &Vec<Option<String>>, index: &ActionIndex) -> (r: Option<Vec<String>>)
    ensures
        r is None <==> has_non_string(actions@),
        r matches Some(v) ==> string_views(v@).no_duplicates()
            && string_views(v@).to_set() == entries_expansion(index@, actions@),
{
    let mut out: Vec<String> = Vec::new();
    let mut i: usize = 0;
    proof {
        assert(string_views(out@).to_set() =~= entries_expansion(index@, actions@.take(0)));
    }
    while i < actions.len()
        invariant
            i <= actions@.len(),
            string_views(out@).no_duplicates(),
            string_views(out@).to_set() == entries_expansion(index@, actions@.take(i as int)),
            forall|k: int| 0 <= k < i ==> (#[trigger] actions@[k]) is Some,
        decreases actions@.len() - i,
    {
        let ghost prev = out@;
        match &actions[i] {
            Some(a) => {
                let found = expand_string_actions(a.as_str(), index);
                merge_unique(&mut out, found);
            },
            None => {
                assert(actions@[i as int] is None);
                return None;
            },
        }
        proof {
            let keys = index@;
            let a = actions@.take(i as int);
            let b = actions@.take(i + 1);
            assert forall|k: Seq<char>| entries_expansion(keys, b).contains(k) <==> (entries_expansion(keys, a).contains(k)
                || (actions@[i as int] is Some && pattern_expansion(keys, actions@[i as int]->0@).contains(k))) by {
                if entries_expansion(keys, b).contains(k) {
                    let w = choose|w: int| 0 <= w < b.len() && b[w] is Some && #[trigger] pattern_expansion(keys, b[w]->0@).contains(k);
                    if w < i {
                        assert(a[w] == b[w]);
                    }
                }
                if entries_expansion(keys, a).contains(k) {
                    let w = choose|w: int| 0 <= w < a.len() && a[w] is Some && #[trigger] pattern_expansion(keys, a[w]->0@).contains(k);
                    assert(a[w] == b[w]);
                }
                assert(b[i as int] == actions@[i as int]);
            }
            assert(string_views(out@).to_set() =~= entries_expansion(keys, b));
        }
        i = i + 1;
    }
    proof {
        assert(actions@.take(i as int) =~= actions@);
    }
    Some(out)
}

/// The names that an action field denotes, each once; `None` for a field that is
/// neither a string nor a list of strings.
pub fn expand_actions(value: &ActionValue, index: &ActionIndex) -> (r: Option<Vec<String>>)
    ensures
        r is None <==> is_malformed(*value),
        r matches Some(v) ==> string_views(v@).no_duplicates()
            && string_views(v@).to_set() == value_expansion(index@, *value),
{
    match value {
        ActionValue::Text(s) => Some(expand_string_actions(s.as_str(), index)),
        ActionValue::List(l) => expand_array_actions(l, index),
        ActionValue::Other => None,
    }
}

/// The expanded form of one field, always a list, and whether the field was malformed.
fn expand_field(value: &ActionValue, index: &ActionIndex) -> (r: (ActionValue, bool))
    ensures
        field_expanded(index@, *value, r.0),
        r.1 == is_malformed(*value),
{
    match expand_actions(value, index) {
        Some(names) => {
            let mut entries: Vec<Option<String>> = Vec::new();
            let mut i: usize = 0;
            while i < names.len()
                invariant
                    i <= names@.len(),
                    entries@.len() == i,
                    forall|k: int| 0 <= k < i ==> (#[trigger] entries@[k]) == Some(names@[k]),
                decreases names@.len() - i,
            {
                entries.push(Some(names[i].clone()));
                i = i + 1;
            }
            proof {
                assert(entry_views(entries@) =~= string_views(names@));
            }
            (ActionValue::List(entries), false)
        },
        None => {
            let entries: Vec<Option<String>> = Vec::new();
            proof {
                assert(entry_views(entries@).to_set() =~= Set::empty());
            }
            (ActionValue::List(entries), true)
        },
    }
}

/// Expands the action fields of one statement and keeps every other field.
pub fn expand_statement(st: AWSPolicyStatement, index: &ActionIndex) -> (r: (AWSPolicyStatement, bool))
    ensures
        statement_expanded(index@, st, r.0),
        r.1 == statement_malformed(st),
{
    let AWSPolicyStatement { sid, effect, principal, action, not_action, resource, not_resource, condition } = st;
    let (new_action, bad_action) = expand_field(&action, index);
    let (new_not_action, bad_not_action) = match &not_action {
        Some(na) => {
            let (v, bad) = expand_field(na, index);
            (Some(v), bad)
        },
        None => (None, false),
    };
    let out = AWSPolicyStatement {
        sid,
        effect,
        principal,
        action: new_action,
        not_action: new_not_action,
        resource,
        not_resource,
        condition,
    };
    (out, bad_action || bad_not_action)
}

/// Expands every statement of a document. A statement with a malformed action
/// field gets an empty list for it and is recorded by its index; the others are
/// not affected.
pub fn expand_policy(document: AWSPolicyDocument, index: &ActionIndex) -> (r: (AWSPolicyDocument, Vec<ExpansionError>))
    ensures
        document_expanded(index@, document, r.0),
        r.1@ == malformed_errors(document.statement@),
{
    let AWSPolicyDocument { version, id, statement } = document;
    let ghost orig = statement@;
    let mut rest = statement;
    let mut done: Vec<AWSPolicyStatement> = Vec::new();
    let mut errors: Vec<ExpansionError> = Vec::new();
    while rest.len() > 0
        invariant
            done@.len() + rest@.len() == orig.len(),
            rest@ == orig.skip(done@.len() as int),
            forall|k: int| 0 <= k < done@.len() ==> statement_expanded(index@, #[trigger] orig[k], done@[k]),
            errors@ == malformed_errors(orig.take(done@.len() as int)),
        decreases rest@.len(),
    {
        let ghost n = done@.len() as int;
        let st = rest.remove(0);
        assert(st == orig[n]);
        let (expanded, bad) = expand_statement(st, index);
        if bad {
            errors.push(ExpansionError::MalformedActionValue(done.len()));
        }
        done.push(expanded);
        proof {
            assert(orig.take(n + 1).drop_last() =~= orig.take(n));
            assert(orig.take(n + 1).last() == orig[n]);
            assert(rest@ =~= orig.skip(n + 1));
        }
    }
    proof {
        assert(orig.take(done@.len() as int) =~= orig);
    }
    (AWSPolicyDocument { version, id, statement: done }, errors)
}

} // verus!
