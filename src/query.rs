//! Queries of one namespace against the index.

use vstd::prelude::*;
use crate::index::{prefix_matches, strictly_ascending, ActionIndex};
use crate::types::{string_views, AwsService, ExpansionError};

verus! {

/// `s` with every `*` removed.
pub open spec fn strip_wildcards(s: Seq<char>) -> Seq<char> {
    s.filter(|c: char| c != '*')
}

/// The query for a namespace and an optional partial action name.
pub open spec fn namespace_query(namespace: Seq<char>, action_prefix: Option<Seq<char>>) -> Seq<char> {
    match action_prefix {
        Some(p) => namespace + seq![':'] + strip_wildcards(p),
        None => namespace + seq![':'],
    }
}

/// Whether some service of the catalog has this namespace.
pub open spec fn has_namespace(services: Seq<AwsService>, namespace: Seq<char>) -> bool {
    exists|i: int| 0 <= i < services.len() && #[trigger] services[i].prefix@ == namespace
}

/// The namespaces of the catalog, each once, in order of first appearance.
pub open spec fn distinct_prefixes(services: Seq<AwsService>) -> Seq<Seq<char>>
    decreases services.len(),
{
    if services.len() == 0 {
        Seq::empty()
    } else {
        let d = distinct_prefixes(services.drop_last());
        if d.contains(services.last().prefix@) {
            d
        } else {
            d.push(services.last().prefix@)
        }
    }
}

/// The namespaces of the catalog.
pub open spec fn namespace_set(services: Seq<AwsService>) -> Set<Seq<char>> {
    Set::new(|n: Seq<char>| has_namespace(services, n))
}

/// Relies on `str::replace`: every match of the pattern `'*'` is replaced by the empty string.
#[verifier::external_body]
pub(crate) fn remove_wildcards(s: &str) -> (r: String)
    ensures
        r@ == strip_wildcards(s@),
{
    s.replace('*', "")
}

/// Builds `"<namespace>:"`, followed by the partial action name with its `*` removed.
pub fn resolve_query(namespace: &str, action_prefix: Option<&str>) -> (r: String)
    ensures
        r@ == namespace_query(namespace@, match action_prefix {
            Some(p) => Some(p@),
            None => None,
        }),
{
    proof {
        reveal_strlit(":");
    }
    let q = namespace.to_owned().concat(":");
    match action_prefix {
        Some(p) => {
            let stripped = remove_wildcards(p);
            q.concat(stripped.as_str())
        },
        None => q,
    }
}

/// Whether some service of the catalog has this namespace.
pub fn contains_namespace(services: &Vec<AwsService>, namespace: &str) -> (r: bool)
    ensures
        r == has_namespace(services@, namespace@),
{
    let target = namespace.to_owned();
    let mut i: usize = 0;
    while i < services.len()
        invariant
            i <= services@.len(),
            target@ == namespace@,
            forall|k: int| 0 <= k < i ==> services@[k].prefix@ != namespace@,
        decreases services@.len() - i,
    {
        if services[i].prefix == target {
            return true;
        }
        i = i + 1;
    }
    false
}

/// Whether `s` holds a string equal to `x`.
pub fn contains_string(s: &Vec<String>, x: &String) -> (r: bool)
    ensures
        r == string_views(s@).contains(x@),
{
    let mut i: usize = 0;
    while i < s.len()
        invariant
            i <= s@.len(),
            forall|k: int| 0 <= k < i ==> s@[k]@ != x@,
        decreases s@.len() - i,
    {
        if s[i] == *x {
            assert(string_views(s@)[i as int] == x@);
            return true;
        }
        i = i + 1;
    }
    proof {
        if string_views(s@).contains(x@) {
            let k = choose|k: int| 0 <= k < string_views(s@).len() && string_views(s@)[k] == x@;
            assert(s@[k]@ == x@);
        }
    }
    false
}

/// The namespaces of the catalog, each once, in order of first appearance.
pub fn list_namespaces(services: &Vec<AwsService>) -> (r: Vec<String>)
    ensures
        string_views(r@) == distinct_prefixes(services@),
        string_views(r@).no_duplicates(),
        string_views(r@).to_set() == namespace_set(services@),
{
    let mut out: Vec<String> = Vec::new();
    let mut i: usize = 0;
    proof {
        assert(string_views(out@).to_set() =~= namespace_set(services@.take(0)));
        assert(string_views(out@) =~= distinct_prefixes(services@.take(0)));
    }
    while i < services.len()
        invariant
            i <= services@.len(),
            string_views(out@).no_duplicates(),
            string_views(out@).to_set() == namespace_set(services@.take(i as int)),
            string_views(out@) == distinct_prefixes(services@.take(i as int)),
        decreases services@.len() - i,
    {
        let p = &services[i].prefix;
        let ghost prev = out@;
        if !contains_string(&out, p) {
            out.push(p.clone());
            proof {
                assert(string_views(out@) =~= string_views(prev).push(p@));
            }
        }
        proof {
            lemma_namespace_set_step(services@, i as int);
            assert(services@.take(i + 1).drop_last() =~= services@.take(i as int));
            assert(services@.take(i + 1).last() == services@[i as int]);
            assert forall|n: Seq<char>| string_views(out@).contains(n) <==> (string_views(prev).contains(n) || n == p@) by {
                if string_views(out@).len() != string_views(prev).len() {
                    assert(string_views(out@)[string_views(prev).len() as int] == p@);
                    if string_views(prev).contains(n) {
                        let w = choose|w: int| 0 <= w < string_views(prev).len() && string_views(prev)[w] == n;
                        assert(string_views(out@)[w] == n);
                    }
                }
            }
            assert(string_views(out@).to_set() =~= namespace_set(services@.take(i + 1)));
        }
        i = i + 1;
    }
    proof {
        assert(services@.take(i as int) =~= services@);
    }
    out
}

proof fn lemma_namespace_set_step(services: Seq<AwsService>, i: int)
    requires
        0 <= i < services.len(),
    ensures
        namespace_set(services.take(i + 1)) == namespace_set(services.take(i)).insert(services[i].prefix@),
{
    let a = services.take(i);
    let b = services.take(i + 1);
    assert forall|n: Seq<char>| has_namespace(b, n) <==> (has_namespace(a, n) || n == services[i].prefix@) by {
        if has_namespace(b, n) {
            let k = choose|k: int| 0 <= k < b.len() && #[trigger] b[k].prefix@ == n;
            if k < i {
                assert(a[k] == b[k]);
            }
        }
        if has_namespace(a, n) {
            let k = choose|k: int| 0 <= k < a.len() && #[trigger] a[k].prefix@ == n;
            assert(a[k] == b[k]);
        }
        if n == services[i].prefix@ {
            assert(b[i] == services[i]);
        }
    }
    assert(namespace_set(b) =~= namespace_set(a).insert(services[i].prefix@));
}

/// The names of one namespace that start with the partial action name, each once,
/// in ascending order.
/// Fails with `ServiceNotFound` exactly when no service has the namespace; the
/// index is only read.
pub fn query_namespace(
    index: &ActionIndex,
    services: &Vec<AwsService>,
    namespace: &str,
    action_prefix: Option<&str>,
) -> (r: Result<Vec<String>, ExpansionError>)
    ensures
        !has_namespace(services@, namespace@) <==> r is Err,
        r matches Err(e) ==> e matches ExpansionError::ServiceNotFound(n) && n@ == namespace@,
        r matches Ok(v) ==> string_views(v@).no_duplicates() && strictly_ascending(string_views(v@))
            && string_views(v@).to_set()
            == prefix_matches(index@, namespace_query(namespace@, match action_prefix {
                Some(p) => Some(p@),
                None => None,
            })),
{
    if !contains_namespace(services, namespace) {
        return Err(ExpansionError::ServiceNotFound(namespace.to_owned()));
    }
    let q = resolve_query(namespace, action_prefix);
    Ok(index.search_prefix(q.as_str()))
}

} // verus!
