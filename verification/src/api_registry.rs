//! The registry of api providers: providers by api slug, and the apis each
//! source registered so that a source can withdraw all of its providers.
use vstd::prelude::*;

verus! {

/// The map an association list denotes; later entries win.
pub open spec fn assoc_map<V>(s: Seq<(Seq<char>, V)>) -> Map<Seq<char>, V>
    decreases s.len(),
{
    if s.len() == 0 {
        Map::empty()
    } else {
        assoc_map(s.drop_last()).insert(s.last().0, s.last().1)
    }
}

/// No key occurs twice in an association list.
pub open spec fn keys_unique<V>(s: Seq<(Seq<char>, V)>) -> bool {
    forall|i: int, j: int| 0 <= i < j < s.len() ==> s[i].0 != s[j].0
}

/// A key no entry holds is not in the map.
pub proof fn lemma_assoc_absent<V>(s: Seq<(Seq<char>, V)>, k: Seq<char>)
    requires
        forall|i: int| 0 <= i < s.len() ==> s[i].0 != k,
    ensures
        !assoc_map(s).contains_key(k),
    decreases s.len(),
{
    if s.len() > 0 {
        lemma_assoc_absent(s.drop_last(), k);
    }
}

/// In a list without repeated keys, each entry is what the map holds for its key.
pub proof fn lemma_assoc_lookup<V>(s: Seq<(Seq<char>, V)>, i: int)
    requires
        keys_unique(s),
        0 <= i < s.len(),
    ensures
        assoc_map(s).contains_key(s[i].0),
        assoc_map(s)[s[i].0] == s[i].1,
    decreases s.len(),
{
    if i < s.len() - 1 {
        lemma_assoc_lookup(s.drop_last(), i);
    }
}

/// Removing the entry of a key from a list without repeated keys removes the key from the map.
pub proof fn lemma_assoc_remove<V>(s: Seq<(Seq<char>, V)>, i: int)
    requires
        keys_unique(s),
        0 <= i < s.len(),
    ensures
        assoc_map(s.remove(i)) == assoc_map(s).remove(s[i].0),
    decreases s.len(),
{
    let n = s.len();
    if i == n - 1 {
        assert(s.remove(i) =~= s.drop_last());
        lemma_assoc_absent(s.drop_last(), s[i].0);
        assert(assoc_map(s.drop_last()) =~= assoc_map(s).remove(s[i].0));
    } else {
        let d = s.drop_last();
        lemma_assoc_remove(d, i);
        assert(s.remove(i) =~= d.remove(i).push(s.last()));
        assert(s.remove(i).drop_last() =~= d.remove(i));
        assert(s[i].0 != s.last().0);
        assert(assoc_map(s.remove(i)) =~= assoc_map(s).remove(s[i].0));
    }
}

/// The registry's contents: the provider of each api, and the apis each source registered.
pub struct RegistryView<P> {
    pub providers: Map<Seq<char>, P>,
    pub by_source: Map<Seq<char>, Seq<Seq<char>>>,
}

/// The registry after registering `provider` for `api`, on behalf of `source` if given.
pub open spec fn spec_register<P>(
    r: RegistryView<P>,
    api: Seq<char>,
    provider: P,
    source: Option<Seq<char>>,
) -> RegistryView<P> {
    RegistryView {
        providers: r.providers.insert(api, provider),
        by_source: match source {
            Some(s) => r.by_source.insert(
                s,
                if r.by_source.contains_key(s) {
                    r.by_source[s]
                } else {
                    Seq::empty()
                }.push(api),
            ),
            None => r.by_source,
        },
    }
}

/// The registry after withdrawing every api that `source` registered.
pub open spec fn spec_unregister<P>(r: RegistryView<P>, source: Seq<char>) -> RegistryView<P> {
    if r.by_source.contains_key(source) {
        RegistryView {
            providers: r.providers.remove_keys(r.by_source[source].to_set()),
            by_source: r.by_source.remove(source),
        }
    } else {
        r
    }
}

/// The provider registered for `api`, if any.
pub open spec fn spec_get<P>(r: RegistryView<P>, api: Seq<char>) -> Option<P> {
    if r.providers.contains_key(api) {
        Some(r.providers[api])
    } else {
        None
    }
}

/// Providers keyed by api slug, and the apis registered by each source.
pub struct ApiRegistry<P> {
    providers: Vec<(String, P)>,
    by_source: Vec<(String, Vec<String>)>,
}

/// The provider entries with their api slugs as character sequences.
pub open spec fn provider_entries<P>(v: Seq<(String, P)>) -> Seq<(Seq<char>, P)> {
    v.map_values(|e: (String, P)| (e.0@, e.1))
}

/// The source entries with their names as character sequences.
pub open spec fn source_entries(v: Seq<(String, Vec<String>)>) -> Seq<(Seq<char>, Seq<Seq<char>>)> {
    v.map_values(|e: (String, Vec<String>)| (e.0@, e.1.deep_view()))
}

impl<P> ApiRegistry<P> {
    #[verifier::type_invariant]
    spec fn wf(self) -> bool {
        &&& keys_unique(provider_entries(self.providers@))
        &&& keys_unique(source_entries(self.by_source@))
    }

    /// The providers by api slug, and the apis each source registered.
    pub closed spec fn view(self) -> RegistryView<P> {
        RegistryView {
            providers: assoc_map(provider_entries(self.providers@)),
            by_source: assoc_map(source_entries(self.by_source@)),
        }
    }

    /// An empty registry.
    pub fn new() -> (r: Self)
        ensures
            r.view().providers == Map::<Seq<char>, P>::empty(),
            r.view().by_source == Map::<Seq<char>, Seq<Seq<char>>>::empty(),
    {
        let r = ApiRegistry { providers: Vec::new(), by_source: Vec::new() };
        assert(provider_entries(r.providers@) =~= Seq::empty());
        assert(source_entries(r.by_source@) =~= Seq::empty());
        r
    }
}

fn find_provider<P>(v: &Vec<(String, P)>, key: &str) -> (r: Option<usize>)
    ensures
        match r {
            Some(i) => i < v.len() && provider_entries(v@)[i as int].0 == key@,
            None => forall|i: int| 0 <= i < v.len() ==> provider_entries(v@)[i].0 != key@,
        },
{
    let k = key.to_owned();
    let mut i: usize = 0;
    while i < v.len()
        invariant
            i <= v.len(),
            k@ == key@,
            forall|j: int| 0 <= j < i ==> provider_entries(v@)[j].0 != key@,
        decreases v.len() - i,
    {
        if v[i].0 == k {
            return Some(i);
        }
        i = i + 1;
    }
    None
}

fn find_source(v: &Vec<(String, Vec<String>)>, key: &str) -> (r: Option<usize>)
    ensures
        match r {
            Some(i) => i < v.len() && source_entries(v@)[i as int].0 == key@,
            None => forall|i: int| 0 <= i < v.len() ==> source_entries(v@)[i].0 != key@,
        },
{
    let k = key.to_owned();
    let mut i: usize = 0;
    while i < v.len()
        invariant
            i <= v.len(),
            k@ == key@,
            forall|j: int| 0 <= j < i ==> source_entries(v@)[j].0 != key@,
        decreases v.len() - i,
    {
        if v[i].0 == k {
            return Some(i);
        }
        i = i + 1;
    }
    None
}

/// Registers `provider` for `api`, replacing any provider of that api, and
/// records `api` under `source_id` when one is given.
pub fn register_api_provider<P>(
    registry: &mut ApiRegistry<P>,
    api: &str,
    provider: P,
    source_id: Option<&str>,
)
    ensures
        final(registry).view() == spec_register(
            old(registry).view(),
            api@,
            provider,
            match source_id {
                Some(s) => Some(s@),
                None => None,
            },
        ),
{
    proof {
        use_type_invariant(&*registry);
    }
    let ghost old_view = registry.view();
    let mut providers: Vec<(String, P)> = Vec::new();
    let mut by_source: Vec<(String, Vec<String>)> = Vec::new();
    std::mem::swap(&mut providers, &mut registry.providers);
    std::mem::swap(&mut by_source, &mut registry.by_source);
    let ghost p0 = provider_entries(providers@);
    let found = find_provider(&providers, api);
    match found {
        Some(i) => {
            providers.remove(i);
            proof {
                lemma_assoc_remove(p0, i as int);
                assert(provider_entries(providers@) =~= p0.remove(i as int));
            }
        },
        None => {
            assert(provider_entries(providers@) =~= p0);
            proof {
                lemma_assoc_absent(p0, api@);
                assert(assoc_map(p0) =~= assoc_map(p0).remove(api@));
            }
        },
    }
    let ghost p1 = provider_entries(providers@);
    providers.push((api.to_owned(), provider));
    proof {
        assert(provider_entries(providers@) =~= p1.push((api@, provider)));
        assert(provider_entries(providers@).drop_last() =~= p1);
        assert(assoc_map(provider_entries(providers@)) =~= old_view.providers.insert(
            api@,
            provider,
        ));
        assert forall|a: int, b: int|
            0 <= a < b < provider_entries(providers@).len() implies provider_entries(
            providers@,
        )[a].0 != provider_entries(providers@)[b].0 by {
            if b == provider_entries(providers@).len() - 1 {
                if a < p1.len() {
                    lemma_assoc_absent(p1, api@);
                    if p1[a].0 == api@ {
                        lemma_assoc_lookup(p1, a);
                    }
                }
            }
        }
    }
    match source_id {
        Some(s) => {
            let ghost s0 = source_entries(by_source@);
            let found = find_source(&by_source, s);
            let mut apis: Vec<String> = match found {
                Some(i) => {
                    let (_, apis) = by_source.remove(i);
                    proof {
                        lemma_assoc_remove(s0, i as int);
                        lemma_assoc_lookup(s0, i as int);
                        assert(source_entries(by_source@) =~= s0.remove(i as int));
                    }
                    apis
                },
                None => {
                    proof {
                        lemma_assoc_absent(s0, s@);
                        assert(source_entries(by_source@) =~= s0);
                        assert(assoc_map(s0) =~= assoc_map(s0).remove(s@));
                    }
                    let fresh: Vec<String> = Vec::new();
                    assert(fresh.deep_view() =~= Seq::<Seq<char>>::empty());
                    fresh
                },
            };
            let ghost s1 = source_entries(by_source@);
            let ghost before = apis.deep_view();
            apis.push(api.to_owned());
            assert(apis.deep_view() =~= before.push(api@));
            by_source.push((s.to_owned(), apis));
            proof {
                assert(source_entries(by_source@) =~= s1.push((s@, apis.deep_view())));
                assert(source_entries(by_source@).drop_last() =~= s1);
                assert(assoc_map(source_entries(by_source@)) =~= spec_register(
                    old_view,
                    api@,
                    provider,
                    Some(s@),
                ).by_source);
                assert forall|a: int, b: int|
                    0 <= a < b < source_entries(by_source@).len() implies source_entries(
                    by_source@,
                )[a].0 != source_entries(by_source@)[b].0 by {
                    if b == source_entries(by_source@).len() - 1 {
                        if a < s1.len() {
                            lemma_assoc_absent(s1, s@);
                            if s1[a].0 == s@ {
                                lemma_assoc_lookup(s1, a);
                            }
                        }
                    }
                }
            }
        },
        None => {},
    }
    registry.providers = providers;
    registry.by_source = by_source;
}

/// The provider registered for `api`, if any.
pub fn get_api_provider<'a, P>(registry: &'a ApiRegistry<P>, api: &str) -> (r: Option<&'a P>)
    ensures
        match r {
            Some(p) => spec_get(registry.view(), api@) == Some(*p),
            None => spec_get(registry.view(), api@) is None,
        },
{
    proof {
        use_type_invariant(registry);
    }
    match find_provider(&registry.providers, api) {
        Some(i) => {
            proof {
                lemma_assoc_lookup(provider_entries(registry.providers@), i as int);
            }
            Some(&registry.providers[i].1)
        },
        None => {
            proof {
                lemma_assoc_absent(provider_entries(registry.providers@), api@);
            }
            None
        },
    }
}

/// Withdraws every provider whose api `source_id` registered, and forgets the source.
pub fn unregister_api_providers<P>(registry: &mut ApiRegistry<P>, source_id: &str)
    ensures
        final(registry).view() == spec_unregister(old(registry).view(), source_id@),
{
    proof {
        use_type_invariant(&*registry);
    }
    let ghost old_view = registry.view();
    let found = find_source(&registry.by_source, source_id);
    let i = match found {
        Some(i) => i,
        None => {
            proof {
                lemma_assoc_absent(source_entries(registry.by_source@), source_id@);
            }
            return;
        },
    };
    let mut providers: Vec<(String, P)> = Vec::new();
    let mut by_source: Vec<(String, Vec<String>)> = Vec::new();
    std::mem::swap(&mut providers, &mut registry.providers);
    std::mem::swap(&mut by_source, &mut registry.by_source);
    let ghost s0 = source_entries(by_source@);
    let (_, apis) = by_source.remove(i);
    proof {
        lemma_assoc_remove(s0, i as int);
        lemma_assoc_lookup(s0, i as int);
        assert(source_entries(by_source@) =~= s0.remove(i as int));
        assert(apis.deep_view() == old_view.by_source[source_id@]);
        assert forall|a: int, b: int|
            0 <= a < b < source_entries(by_source@).len() implies source_entries(by_source@)[a].0
            != source_entries(by_source@)[b].0 by {
            let a0 = if a < i { a } else { a + 1 };
            let b0 = if b < i { b } else { b + 1 };
            assert(source_entries(by_source@)[a] == s0[a0]);
            assert(source_entries(by_source@)[b] == s0[b0]);
        }
    }
    let ghost names = apis.deep_view();
    let mut k: usize = 0;
    while k < apis.len()
        invariant
            k <= apis.len(),
            names == apis.deep_view(),
            keys_unique(provider_entries(providers@)),
            assoc_map(provider_entries(providers@)) == old_view.providers.remove_keys(
                names.take(k as int).to_set(),
            ),
        decreases apis.len() - k,
    {
        let ghost p0 = provider_entries(providers@);
        let ghost before = names.take(k as int).to_set();
        let ghost t = names.take(k + 1);
        assert(t.drop_last() =~= names.take(k as int));
        assert(t.drop_last().to_set().insert(t.last()) =~= t.to_set());
        assert(names.take(k + 1).to_set() =~= before.insert(names[k as int]));
        match find_provider(&providers, apis[k].as_str()) {
            Some(j) => {
                providers.remove(j);
                proof {
                    lemma_assoc_remove(p0, j as int);
                    assert(provider_entries(providers@) =~= p0.remove(j as int));
                    assert(assoc_map(provider_entries(providers@)) =~= old_view.providers.remove_keys(
                        names.take(k + 1).to_set(),
                    ));
                    assert forall|a: int, b: int|
                        0 <= a < b < provider_entries(providers@).len() implies provider_entries(
                        providers@,
                    )[a].0 != provider_entries(providers@)[b].0 by {
                        let a0 = if a < j { a } else { a + 1 };
                        let b0 = if b < j { b } else { b + 1 };
                        assert(provider_entries(providers@)[a] == p0[a0]);
                        assert(provider_entries(providers@)[b] == p0[b0]);
                    }
                }
            },
            None => {
                proof {
                    lemma_assoc_absent(p0, names[k as int]);
                    assert(assoc_map(p0) =~= old_view.providers.remove_keys(
                        names.take(k + 1).to_set(),
                    ));
                }
            },
        }
        k = k + 1;
    }
    assert(names.take(k as int) =~= names);
    registry.providers = providers;
    registry.by_source = by_source;
    assert(registry.view().providers =~= spec_unregister(old_view, source_id@).providers);
}

/// Withdraws every provider and forgets every source.
pub fn clear_api_providers<P>(registry: &mut ApiRegistry<P>)
    ensures
        final(registry).view().providers == Map::<Seq<char>, P>::empty(),
        final(registry).view().by_source == Map::<Seq<char>, Seq<Seq<char>>>::empty(),
{
    proof {
        use_type_invariant(&*registry);
    }
    registry.providers = Vec::new();
    registry.by_source = Vec::new();
    assert(provider_entries(registry.providers@) =~= Seq::empty());
    assert(source_entries(registry.by_source@) =~= Seq::empty());
}

/// A lookup after a registration finds the registered provider; other apis
/// keep their providers.
pub proof fn law_register_then_get<P>(
    r: RegistryView<P>,
    api: Seq<char>,
    provider: P,
    source: Option<Seq<char>>,
    other: Seq<char>,
)
    ensures
        spec_get(spec_register(r, api, provider, source), api) == Some(provider),
        other != api ==> spec_get(spec_register(r, api, provider, source), other) == spec_get(
            r,
            other,
        ),
{
}

/// Withdrawing a source removes every api it registered, the one just
/// registered included, and forgets the source.
pub proof fn law_unregister_withdraws_source<P>(
    r: RegistryView<P>,
    api: Seq<char>,
    provider: P,
    source: Seq<char>,
)
    ensures
        spec_get(spec_unregister(spec_register(r, api, provider, Some(source)), source), api)
            is None,
        !spec_unregister(spec_register(r, api, provider, Some(source)), source).by_source.contains_key(
            source,
        ),
{
    let r1 = spec_register(r, api, provider, Some(source));
    assert(r1.by_source.contains_key(source));
    let apis = r1.by_source[source];
    assert(apis[apis.len() - 1] == api);
    assert(apis.to_set().contains(api));
}

/// Withdrawing a source keeps the provider of every api the source did not register.
pub proof fn law_unregister_keeps_others<P>(r: RegistryView<P>, source: Seq<char>, api: Seq<char>)
    requires
        r.by_source.contains_key(source) ==> !r.by_source[source].contains(api),
    ensures
        spec_get(spec_unregister(r, source), api) == spec_get(r, api),
{
}

/// After a clear no api has a provider.
pub proof fn law_clear_empties<P>(api: Seq<char>)
    ensures
        spec_get(
            RegistryView::<P> { providers: Map::empty(), by_source: Map::empty() },
            api,
        ) is None,
{
}

} // verus!
