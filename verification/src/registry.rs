//! Name-keyed catalogs.
//!
//! Session caches and the server registry both hold descriptors keyed by a
//! string: inserting under a taken key replaces that entry, inserting under
//! a fresh key appends. A catalog built this way holds each key exactly
//! once.

use vstd::prelude::*;
use crate::protocol::{
    Tool, ToolRep, Resource, ResourceRep, Prompt, PromptRep, tools_view, resources_view,
    prompts_view,
};

verus! {

/// Inserts `a` into a keyed catalog: the first entry under the same key is
/// replaced, otherwise `a` is appended.
pub open spec fn keyed_insert<A>(cache: Seq<A>, key: spec_fn(A) -> Seq<char>, a: A) -> Seq<A>
    decreases cache.len(),
{
    if cache.len() == 0 {
        seq![a]
    } else if key(cache.first()) == key(a) {
        seq![a] + cache.drop_first()
    } else {
        seq![cache.first()] + keyed_insert(cache.drop_first(), key, a)
    }
}

/// The catalog a listing builds up: every element inserted in order.
pub open spec fn keyed_from<A>(listing: Seq<A>, key: spec_fn(A) -> Seq<char>) -> Seq<A>
    decreases listing.len(),
{
    if listing.len() == 0 {
        Seq::empty()
    } else {
        keyed_insert(keyed_from(listing.drop_last(), key), key, listing.last())
    }
}

/// Every key appears at most once.
pub open spec fn unique_keys<A>(s: Seq<A>, key: spec_fn(A) -> Seq<char>) -> bool {
    forall|i: int, j: int| 0 <= i < j < s.len() ==> key(#[trigger] s[i]) != key(#[trigger] s[j])
}

/// Whether some entry carries the key `k`.
pub open spec fn contains_key<A>(s: Seq<A>, key: spec_fn(A) -> Seq<char>, k: Seq<char>) -> bool {
    exists|i: int| 0 <= i < s.len() && key(#[trigger] s[i]) == k
}

/// The first entry under the key `k`, if any.
pub open spec fn lookup_by_key<A>(s: Seq<A>, key: spec_fn(A) -> Seq<char>, k: Seq<char>) -> Option<
    A,
>
    decreases s.len(),
{
    if s.len() == 0 {
        None
    } else if key(s.first()) == k {
        Some(s.first())
    } else {
        lookup_by_key(s.drop_first(), key, k)
    }
}

/// Inserting under a taken key replaces that entry in place.
pub proof fn lemma_keyed_insert_update<A>(
    cache: Seq<A>,
    key: spec_fn(A) -> Seq<char>,
    a: A,
    j: int,
)
    requires
        0 <= j < cache.len(),
        key(cache[j]) == key(a),
        forall|k: int| 0 <= k < j ==> key(#[trigger] cache[k]) != key(a),
    ensures
        keyed_insert(cache, key, a) == cache.update(j, a),
    decreases cache.len(),
{
    if j == 0 {
        assert(keyed_insert(cache, key, a) =~= cache.update(0, a));
    } else {
        assert(key(cache.first()) != key(a));
        assert forall|k: int| 0 <= k < j - 1 implies key(
            #[trigger] cache.drop_first()[k],
        ) != key(a) by {
            assert(cache.drop_first()[k] == cache[k + 1]);
        }
        assert(cache.drop_first()[j - 1] == cache[j]);
        lemma_keyed_insert_update(cache.drop_first(), key, a, j - 1);
        assert(keyed_insert(cache, key, a) =~= cache.update(j, a));
    }
}

/// Inserting under a fresh key appends.
pub proof fn lemma_keyed_insert_push<A>(cache: Seq<A>, key: spec_fn(A) -> Seq<char>, a: A)
    requires
        forall|k: int| 0 <= k < cache.len() ==> key(#[trigger] cache[k]) != key(a),
    ensures
        keyed_insert(cache, key, a) == cache.push(a),
    decreases cache.len(),
{
    if cache.len() == 0 {
        assert(keyed_insert(cache, key, a) =~= cache.push(a));
    } else {
        assert forall|k: int| 0 <= k < cache.drop_first().len() implies key(
            #[trigger] cache.drop_first()[k],
        ) != key(a) by {
            assert(cache.drop_first()[k] == cache[k + 1]);
        }
        lemma_keyed_insert_push(cache.drop_first(), key, a);
        assert(keyed_insert(cache, key, a) =~= cache.push(a));
    }
}

/// The key of a tool descriptor: its name.
pub open spec fn tool_key() -> spec_fn(ToolRep) -> Seq<char> {
    |t: ToolRep| t.name
}

/// The key of a resource descriptor: its URI.
pub open spec fn resource_key() -> spec_fn(ResourceRep) -> Seq<char> {
    |r: ResourceRep| r.uri
}

/// The key of a prompt descriptor: its name.
pub open spec fn prompt_key() -> spec_fn(PromptRep) -> Seq<char> {
    |p: PromptRep| p.name
}

/// Inserts a tool into a name-keyed catalog, replacing a same-named entry.
pub fn insert_tool_keyed(cache: &mut Vec<Tool>, t: Tool)
    requires
        unique_keys(tools_view(old(cache)@), tool_key()),
    ensures
        tools_view(final(cache)@) == keyed_insert(tools_view(old(cache)@), tool_key(), t@),
        unique_keys(tools_view(final(cache)@), tool_key()),
{
    let ghost m = tools_view(cache@);
    let mut j: usize = 0;
    let n = cache.len();
    while j < n
        invariant
            j <= n,
            n == cache@.len(),
            m == tools_view(cache@),
            m == tools_view(old(cache)@),
            unique_keys(m, tool_key()),
            forall|k: int| 0 <= k < j as int ==> (#[trigger] m[k]).name != t@.name,
        decreases n - j,
    {
        if cache[j].name == t.name {
            proof {
                lemma_keyed_insert_update(m, tool_key(), t@, j as int);
            }
            cache[j] = t;
            proof {
                assert(tools_view(cache@) =~= m.update(j as int, t@));
            }
            return;
        }
        j = j + 1;
    }
    proof {
        lemma_keyed_insert_push(m, tool_key(), t@);
    }
    cache.push(t);
    proof {
        assert(tools_view(cache@) =~= m.push(t@));
    }
}

/// Inserts a resource into a URI-keyed catalog.
pub fn insert_resource_keyed(cache: &mut Vec<Resource>, r: Resource)
    requires
        unique_keys(resources_view(old(cache)@), resource_key()),
    ensures
        resources_view(final(cache)@) == keyed_insert(
            resources_view(old(cache)@),
            resource_key(),
            r@,
        ),
        unique_keys(resources_view(final(cache)@), resource_key()),
{
    let ghost m = resources_view(cache@);
    let mut j: usize = 0;
    let n = cache.len();
    while j < n
        invariant
            j <= n,
            n == cache@.len(),
            m == resources_view(cache@),
            m == resources_view(old(cache)@),
            unique_keys(m, resource_key()),
            forall|k: int| 0 <= k < j as int ==> (#[trigger] m[k]).uri != r@.uri,
        decreases n - j,
    {
        if cache[j].uri == r.uri {
            proof {
                lemma_keyed_insert_update(m, resource_key(), r@, j as int);
            }
            cache[j] = r;
            proof {
                assert(resources_view(cache@) =~= m.update(j as int, r@));
                let mm = m.update(j as int, r@);
                assert forall|x: int, y: int| 0 <= x < y < mm.len() implies (
                #[trigger] mm[x]).uri != (#[trigger] mm[y]).uri by {
                    if x != j {
                        assert(mm[x] == m[x]);
                    }
                    if y != j {
                        assert(mm[y] == m[y]);
                    }
                    assert(m[j as int].uri == r@.uri);
                }
            }
            return;
        }
        j = j + 1;
    }
    proof {
        lemma_keyed_insert_push(m, resource_key(), r@);
    }
    cache.push(r);
    proof {
        assert(resources_view(cache@) =~= m.push(r@));
    }
}

/// Inserts a prompt into a name-keyed catalog.
pub fn insert_prompt_keyed(cache: &mut Vec<Prompt>, p: Prompt)
    requires
        unique_keys(prompts_view(old(cache)@), prompt_key()),
    ensures
        prompts_view(final(cache)@) == keyed_insert(prompts_view(old(cache)@), prompt_key(), p@),
        unique_keys(prompts_view(final(cache)@), prompt_key()),
{
    let ghost m = prompts_view(cache@);
    let mut j: usize = 0;
    let n = cache.len();
    while j < n
        invariant
            j <= n,
            n == cache@.len(),
            m == prompts_view(cache@),
            m == prompts_view(old(cache)@),
            unique_keys(m, prompt_key()),
            forall|k: int| 0 <= k < j as int ==> (#[trigger] m[k]).name != p@.name,
        decreases n - j,
    {
        if cache[j].name == p.name {
            proof {
                lemma_keyed_insert_update(m, prompt_key(), p@, j as int);
            }
            cache[j] = p;
            proof {
                assert(prompts_view(cache@) =~= m.update(j as int, p@));
            }
            return;
        }
        j = j + 1;
    }
    proof {
        lemma_keyed_insert_push(m, prompt_key(), p@);
    }
    cache.push(p);
    proof {
        assert(prompts_view(cache@) =~= m.push(p@));
    }
}

/// The catalog a fresh listing builds: each entry inserted in order into
/// an empty catalog.
pub fn catalog_from_tools(listing: &Vec<Tool>) -> (r: Vec<Tool>)
    ensures
        tools_view(r@) == keyed_from(tools_view(listing@), tool_key()),
        unique_keys(tools_view(r@), tool_key()),
{
    let ghost lrep = tools_view(listing@);
    let mut cache: Vec<Tool> = Vec::new();
    let mut i: usize = 0;
    proof {
        assert(lrep.take(0) =~= Seq::<ToolRep>::empty());
        assert(keyed_from(lrep.take(0), tool_key()) =~= tools_view(cache@));
    }
    while i < listing.len()
        invariant
            i <= listing.len(),
            lrep == tools_view(listing@),
            lrep.len() == listing@.len(),
            tools_view(cache@) == keyed_from(lrep.take(i as int), tool_key()),
            unique_keys(tools_view(cache@), tool_key()),
        decreases listing@.len() - i,
    {
        proof {
            assert(lrep.take(i as int + 1).drop_last() =~= lrep.take(i as int));
            assert(lrep.take(i as int + 1).last() == lrep[i as int]);
        }
        insert_tool_keyed(&mut cache, listing[i].clone());
        i = i + 1;
    }
    proof {
        assert(lrep.take(listing@.len() as int) =~= lrep);
    }
    cache
}

/// The catalog a fresh resource listing builds.
pub fn catalog_from_resources(listing: &Vec<Resource>) -> (r: Vec<Resource>)
    ensures
        resources_view(r@) == keyed_from(resources_view(listing@), resource_key()),
        unique_keys(resources_view(r@), resource_key()),
{
    let ghost lrep = resources_view(listing@);
    let mut cache: Vec<Resource> = Vec::new();
    let mut i: usize = 0;
    proof {
        assert(lrep.take(0) =~= Seq::<ResourceRep>::empty());
        assert(keyed_from(lrep.take(0), resource_key()) =~= resources_view(cache@));
    }
    while i < listing.len()
        invariant
            i <= listing.len(),
            lrep == resources_view(listing@),
            lrep.len() == listing@.len(),
            resources_view(cache@) == keyed_from(lrep.take(i as int), resource_key()),
            unique_keys(resources_view(cache@), resource_key()),
        decreases listing@.len() - i,
    {
        proof {
            assert(lrep.take(i as int + 1).drop_last() =~= lrep.take(i as int));
            assert(lrep.take(i as int + 1).last() == lrep[i as int]);
        }
        insert_resource_keyed(&mut cache, listing[i].clone());
        i = i + 1;
    }
    proof {
        assert(lrep.take(listing@.len() as int) =~= lrep);
    }
    cache
}

/// The catalog a fresh prompt listing builds.
pub fn catalog_from_prompts(listing: &Vec<Prompt>) -> (r: Vec<Prompt>)
    ensures
        prompts_view(r@) == keyed_from(prompts_view(listing@), prompt_key()),
        unique_keys(prompts_view(r@), prompt_key()),
{
    let ghost lrep = prompts_view(listing@);
    let mut cache: Vec<Prompt> = Vec::new();
    let mut i: usize = 0;
    proof {
        assert(lrep.take(0) =~= Seq::<PromptRep>::empty());
        assert(keyed_from(lrep.take(0), prompt_key()) =~= prompts_view(cache@));
    }
    while i < listing.len()
        invariant
            i <= listing.len(),
            lrep == prompts_view(listing@),
            lrep.len() == listing@.len(),
            prompts_view(cache@) == keyed_from(lrep.take(i as int), prompt_key()),
            unique_keys(prompts_view(cache@), prompt_key()),
        decreases listing@.len() - i,
    {
        proof {
            assert(lrep.take(i as int + 1).drop_last() =~= lrep.take(i as int));
            assert(lrep.take(i as int + 1).last() == lrep[i as int]);
        }
        insert_prompt_keyed(&mut cache, listing[i].clone());
        i = i + 1;
    }
    proof {
        assert(lrep.take(listing@.len() as int) =~= lrep);
    }
    cache
}

/// Finds the first tool under a name.
pub fn find_tool<'a>(cache: &'a Vec<Tool>, name: &str) -> (r: Option<&'a Tool>)
    ensures
        match r {
            Some(t) => lookup_by_key(tools_view(cache@), tool_key(), name@) == Some(t@),
            None => lookup_by_key(tools_view(cache@), tool_key(), name@) is None,
        },
{
    let ghost m = tools_view(cache@);
    let key_string = String::from_str(name);
    let mut i: usize = 0;
    proof {
        assert(m.skip(0) =~= m);
    }
    while i < cache.len()
        invariant
            i <= cache.len(),
            m == tools_view(cache@),
            m.len() == cache@.len(),
            key_string@ == name@,
            lookup_by_key(m, tool_key(), name@) == lookup_by_key(
                m.skip(i as int),
                tool_key(),
                name@,
            ),
        decreases cache@.len() - i,
    {
        proof {
            assert(m.skip(i as int).first() == m[i as int]);
            assert(m.skip(i as int).drop_first() =~= m.skip(i as int + 1));
        }
        if cache[i].name == key_string {
            return Some(&cache[i]);
        }
        i = i + 1;
    }
    proof {
        assert(m.skip(cache@.len() as int) =~= Seq::<ToolRep>::empty());
    }
    None
}

/// Finds the first resource under a URI.
pub fn find_resource<'a>(cache: &'a Vec<Resource>, uri: &str) -> (r: Option<&'a Resource>)
    ensures
        match r {
            Some(res) => lookup_by_key(resources_view(cache@), resource_key(), uri@) == Some(res@),
            None => lookup_by_key(resources_view(cache@), resource_key(), uri@) is None,
        },
{
    let ghost m = resources_view(cache@);
    let key_string = String::from_str(uri);
    let mut i: usize = 0;
    proof {
        assert(m.skip(0) =~= m);
    }
    while i < cache.len()
        invariant
            i <= cache.len(),
            m == resources_view(cache@),
            m.len() == cache@.len(),
            key_string@ == uri@,
            lookup_by_key(m, resource_key(), uri@) == lookup_by_key(
                m.skip(i as int),
                resource_key(),
                uri@,
            ),
        decreases cache@.len() - i,
    {
        proof {
            assert(m.skip(i as int).first() == m[i as int]);
            assert(m.skip(i as int).drop_first() =~= m.skip(i as int + 1));
        }
        if cache[i].uri == key_string {
            return Some(&cache[i]);
        }
        i = i + 1;
    }
    proof {
        assert(m.skip(cache@.len() as int) =~= Seq::<ResourceRep>::empty());
    }
    None
}

/// Finds the first prompt under a name.
pub fn find_prompt<'a>(cache: &'a Vec<Prompt>, name: &str) -> (r: Option<&'a Prompt>)
    ensures
        match r {
            Some(p) => lookup_by_key(prompts_view(cache@), prompt_key(), name@) == Some(p@),
            None => lookup_by_key(prompts_view(cache@), prompt_key(), name@) is None,
        },
{
    let ghost m = prompts_view(cache@);
    let key_string = String::from_str(name);
    let mut i: usize = 0;
    proof {
        assert(m.skip(0) =~= m);
    }
    while i < cache.len()
        invariant
            i <= cache.len(),
            m == prompts_view(cache@),
            m.len() == cache@.len(),
            key_string@ == name@,
            lookup_by_key(m, prompt_key(), name@) == lookup_by_key(
                m.skip(i as int),
                prompt_key(),
                name@,
            ),
        decreases cache@.len() - i,
    {
        proof {
            assert(m.skip(i as int).first() == m[i as int]);
            assert(m.skip(i as int).drop_first() =~= m.skip(i as int + 1));
        }
        if cache[i].name == key_string {
            return Some(&cache[i]);
        }
        i = i + 1;
    }
    proof {
        assert(m.skip(cache@.len() as int) =~= Seq::<PromptRep>::empty());
    }
    None
}

/// Removes the first entry under the key `k`, if any.
pub open spec fn remove_by_key<A>(s: Seq<A>, key: spec_fn(A) -> Seq<char>, k: Seq<char>) -> Seq<A>
    decreases s.len(),
{
    if s.len() == 0 {
        s
    } else if key(s.first()) == k {
        s.drop_first()
    } else {
        seq![s.first()] + remove_by_key(s.drop_first(), key, k)
    }
}

/// Removing the entry found at `i` is removal by its key.
pub proof fn lemma_remove_by_key_at<A>(s: Seq<A>, key: spec_fn(A) -> Seq<char>, k: Seq<char>, i: int)
    requires
        0 <= i < s.len(),
        key(s[i]) == k,
        forall|j: int| 0 <= j < i ==> key(#[trigger] s[j]) != k,
    ensures
        remove_by_key(s, key, k) == s.remove(i),
    decreases s.len(),
{
    if i == 0 {
        assert(remove_by_key(s, key, k) =~= s.remove(0));
    } else {
        assert(key(s.first()) != k);
        assert forall|j: int| 0 <= j < i - 1 implies key(#[trigger] s.drop_first()[j]) != k by {
            assert(s.drop_first()[j] == s[j + 1]);
        }
        assert(s.drop_first()[i - 1] == s[i]);
        lemma_remove_by_key_at(s.drop_first(), key, k, i - 1);
        assert(remove_by_key(s, key, k) =~= s.remove(i));
    }
}

/// Removal under an absent key changes nothing.
pub proof fn lemma_remove_by_key_absent<A>(s: Seq<A>, key: spec_fn(A) -> Seq<char>, k: Seq<char>)
    requires
        forall|j: int| 0 <= j < s.len() ==> key(#[trigger] s[j]) != k,
    ensures
        remove_by_key(s, key, k) == s,
    decreases s.len(),
{
    if s.len() > 0 {
        assert forall|j: int| 0 <= j < s.drop_first().len() implies key(
            #[trigger] s.drop_first()[j],
        ) != k by {
            assert(s.drop_first()[j] == s[j + 1]);
        }
        lemma_remove_by_key_absent(s.drop_first(), key, k);
        assert(remove_by_key(s, key, k) =~= s);
    }
}

/// Removing an entry keeps the remaining keys unique.
pub proof fn lemma_remove_keeps_unique<A>(s: Seq<A>, key: spec_fn(A) -> Seq<char>, i: int)
    requires
        0 <= i < s.len(),
        unique_keys(s, key),
    ensures
        unique_keys(s.remove(i), key),
{
    let t = s.remove(i);
    assert forall|x: int, y: int| 0 <= x < y < t.len() implies key(#[trigger] t[x]) != key(
        #[trigger] t[y],
    ) by {
        let x0: int = if x < i { x } else { x + 1 };
        let y0: int = if y < i { y } else { y + 1 };
        assert(t[x] == s[x0]);
        assert(t[y] == s[y0]);
    }
}

/// Keyed insertion loses no key: whatever key the catalog held, the
/// catalog after the insertion still holds.
pub proof fn lemma_keyed_insert_preserves_key<A>(
    s: Seq<A>,
    key: spec_fn(A) -> Seq<char>,
    a: A,
    k: Seq<char>,
)
    requires
        contains_key(s, key, k),
    ensures
        contains_key(keyed_insert(s, key, a), key, k),
    decreases s.len(),
{
    let out = keyed_insert(s, key, a);
    let w = choose|i: int| 0 <= i < s.len() && key(#[trigger] s[i]) == k;
    if key(s.first()) == key(a) {
        if w == 0 {
            assert(out[0] == a);
        } else {
            assert(out[w] == s.drop_first()[w - 1]);
            assert(s.drop_first()[w - 1] == s[w]);
        }
    } else {
        if w == 0 {
            assert(out[0] == s.first());
        } else {
            assert(s.drop_first()[w - 1] == s[w]);
            lemma_keyed_insert_preserves_key(s.drop_first(), key, a, k);
            let inner = keyed_insert(s.drop_first(), key, a);
            let v = choose|i: int| 0 <= i < inner.len() && key(#[trigger] inner[i]) == k;
            assert(out[v + 1] == inner[v]);
        }
    }
}

/// Every entry of a keyed insertion is the inserted element or an entry
/// the catalog already held.
pub proof fn lemma_keyed_insert_entries<A>(s: Seq<A>, key: spec_fn(A) -> Seq<char>, a: A)
    ensures
        forall|i: int|
            0 <= i < keyed_insert(s, key, a).len() ==> #[trigger] keyed_insert(s, key, a)[i] == a
                || exists|j: int| 0 <= j < s.len() && s[j] == keyed_insert(s, key, a)[i],
    decreases s.len(),
{
    let out = keyed_insert(s, key, a);
    if s.len() == 0 {
        assert(out[0] == a);
    } else if key(s.first()) == key(a) {
        assert forall|i: int| 0 <= i < out.len() implies #[trigger] out[i] == a || exists|j: int|
            0 <= j < s.len() && s[j] == out[i] by {
            if i > 0 {
                assert(out[i] == s.drop_first()[i - 1]);
                assert(s[i] == out[i]);
            }
        }
    } else {
        lemma_keyed_insert_entries(s.drop_first(), key, a);
        let inner = keyed_insert(s.drop_first(), key, a);
        assert forall|i: int| 0 <= i < out.len() implies #[trigger] out[i] == a || exists|j: int|
            0 <= j < s.len() && s[j] == out[i] by {
            if i == 0 {
                assert(out[0] == s.first());
                assert(s[0] == out[0]);
            } else {
                assert(out[i] == inner[i - 1]);
                if !(inner[i - 1] == a) {
                    let j = choose|j: int|
                        0 <= j < s.drop_first().len() && #[trigger] s.drop_first()[j] == inner[i
                            - 1];
                    assert(s[j + 1] == s.drop_first()[j]);
                }
            }
        }
    }
}

} // verus!
