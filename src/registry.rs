use vstd::prelude::*;

use crate::backend::Backend;

verus! {

/// Why a backend could not be registered.
#[derive(Clone, Copy, Debug, PartialEq, Eq)]
pub enum RegistryError {
    DuplicateBackendName,
}

/// The views of a sequence of strings.
pub open spec fn string_views(s: Seq<String>) -> Seq<Seq<char>> {
    s.map_values(|x: String| x@)
}

/// The backends of `s` whose name is in `names`, in the order of `s`.
pub open spec fn selected(s: Seq<Backend>, names: Seq<Seq<char>>) -> Seq<Backend>
    decreases s.len(),
{
    if s.len() == 0 {
        Seq::empty()
    } else {
        let rest = selected(s.drop_last(), names);
        if names.contains(s.last().name@) {
            rest.push(s.last())
        } else {
            rest
        }
    }
}

/// The participants of one request: the production backend first, then the
/// sandboxes that the selection names, in registry order.
pub open spec fn participants_of(
    production: Backend,
    sandboxes: Seq<Backend>,
    selection: Option<Seq<Seq<char>>>,
) -> Seq<Backend> {
    match selection {
        None => seq![production],
        Some(names) => seq![production] + selected(sandboxes, names),
    }
}

/// Whether `name` is used by a backend of `s`.
pub open spec fn name_in(s: Seq<Backend>, name: Seq<char>) -> bool {
    exists|i: int| 0 <= i < s.len() && #[trigger] s[i].name@ == name
}

/// No two backends of `s` share a name.
pub open spec fn distinct_backend_names(s: Seq<Backend>) -> bool {
    forall|i: int, j: int| 0 <= i < j < s.len() ==> s[i].name@ != s[j].name@
}

/// What a selection keeps comes from the registry, in registry order, is
/// named in the selection, and keeps the registry's names distinct.
pub proof fn lemma_selected_from_registry(s: Seq<Backend>, names: Seq<Seq<char>>)
    ensures
        forall|k: int| #![trigger selected(s, names)[k]] 0 <= k < selected(s, names).len() ==> {
            &&& names.contains(selected(s, names)[k].name@)
            &&& exists|i: int| 0 <= i < s.len() && s[i] == selected(s, names)[k]
        },
        selected(s, names).len() <= s.len(),
        distinct_backend_names(s) ==> distinct_backend_names(selected(s, names)),
    decreases s.len(),
{
    if s.len() > 0 {
        let rest = selected(s.drop_last(), names);
        lemma_selected_from_registry(s.drop_last(), names);
        assert forall|k: int| 0 <= k < rest.len() implies exists|i: int|
            0 <= i < s.len() && s[i] == #[trigger] rest[k] by {
            let i = choose|i: int| 0 <= i < s.drop_last().len() && s.drop_last()[i] == rest[k];
            assert(s[i] == rest[k]);
        }
        if distinct_backend_names(s) && names.contains(s.last().name@) {
            assert forall|k: int| 0 <= k < rest.len() implies rest[k].name@ != s.last().name@ by {
                let i = choose|i: int| 0 <= i < s.drop_last().len() && s.drop_last()[i] == rest[k];
                assert(s[i] == rest[k]);
            }
        }
    }
}

/// A name that no sandbox has changes nothing in a selection: it is
/// dropped without a dispatch and without an error.
pub proof fn lemma_unknown_name_ignored(s: Seq<Backend>, names: Seq<Seq<char>>, unknown: Seq<char>)
    requires
        !name_in(s, unknown),
    ensures
        selected(s, names.push(unknown)) == selected(s, names),
    decreases s.len(),
{
    if s.len() > 0 {
        assert(!name_in(s.drop_last(), unknown)) by {
            if name_in(s.drop_last(), unknown) {
                let i = choose|i: int| 0 <= i < s.drop_last().len() && #[trigger] s.drop_last()[i].name@ == unknown;
                assert(s[i].name@ == unknown);
            }
        }
        lemma_unknown_name_ignored(s.drop_last(), names, unknown);
        assert(s[s.len() - 1].name@ != unknown);
        assert(names.push(unknown).contains(s.last().name@) == names.contains(s.last().name@)) by {
            if names.push(unknown).contains(s.last().name@) {
                let k = choose|k: int| 0 <= k < names.push(unknown).len() && names.push(unknown)[k] == s.last().name@;
                assert(names[k] == s.last().name@);
            }
            if names.contains(s.last().name@) {
                let k = choose|k: int| 0 <= k < names.len() && names[k] == s.last().name@;
                assert(names.push(unknown)[k] == s.last().name@);
            }
        }
    }
}

/// With no selection hook, or one that names no backend, the production
/// backend is the only participant.
pub proof fn lemma_pass_through(production: Backend, sandboxes: Seq<Backend>, selection: Option<Seq<Seq<char>>>)
    requires
        selection is None || selection == Some(Seq::<Seq<char>>::empty()),
    ensures
        participants_of(production, sandboxes, selection) == seq![production],
    decreases sandboxes.len(),
{
    if selection is Some {
        lemma_selected_none(sandboxes);
        assert(seq![production] + Seq::<Backend>::empty() =~= seq![production]);
    }
}

proof fn lemma_selected_none(s: Seq<Backend>)
    ensures
        selected(s, Seq::<Seq<char>>::empty()) == Seq::<Backend>::empty(),
    decreases s.len(),
{
    if s.len() > 0 {
        lemma_selected_none(s.drop_last());
    }
}

/// The participants of a well-formed registry's request have distinct
/// names, production first.
pub proof fn lemma_participants_distinct(production: Backend, sandboxes: Seq<Backend>, selection: Option<Seq<Seq<char>>>)
    requires
        !name_in(sandboxes, production.name@),
        distinct_backend_names(sandboxes),
    ensures
        distinct_backend_names(participants_of(production, sandboxes, selection)),
        participants_of(production, sandboxes, selection).len() >= 1,
        participants_of(production, sandboxes, selection)[0] == production,
{
    if let Some(names) = selection {
        let sel = selected(sandboxes, names);
        let p = participants_of(production, sandboxes, selection);
        lemma_selected_from_registry(sandboxes, names);
        assert forall|i: int, j: int| 0 <= i < j < p.len() implies p[i].name@ != p[j].name@ by {
            if i == 0 {
                assert(p[j] == sel[j - 1]);
                let k = choose|k: int| 0 <= k < sandboxes.len() && sandboxes[k] == sel[j - 1];
                assert(sandboxes[k].name@ != production.name@);
            } else {
                assert(p[i] == sel[i - 1] && p[j] == sel[j - 1]);
            }
        }
    }
}

/// Whether `name` is in `names`.
pub fn contains_name(names: &Vec<String>, name: &String) -> (r: bool)
    ensures
        r == string_views(names@).contains(name@),
{
    let mut i: usize = 0;
    while i < names.len()
        invariant
            i <= names.len(),
            forall|j: int| 0 <= j < i ==> names@[j]@ != name@,
        decreases names.len() - i,
    {
        if names[i] == *name {
            assert(string_views(names@)[i as int] == name@);
            return true;
        }
        i = i + 1;
    }
    proof {
        if string_views(names@).contains(name@) {
            let j = choose|j: int| 0 <= j < string_views(names@).len() && string_views(names@)[j] == name@;
            assert(names@[j]@ == name@);
        }
    }
    false
}

/// The proxy's configuration: where it listens, its production backend and
/// its sandbox backends.
#[derive(Debug)]
pub struct ProxyServer {
    host: String,
    port: u16,
    production: Backend,
    sandboxes: Vec<Backend>,
}

impl ProxyServer {
    /// No two backends, production included, share a name.
    pub open spec fn wf(&self) -> bool {
        &&& !name_in(self.sandboxes_spec(), self.production_spec().name@)
        &&& forall|i: int, j: int|
            0 <= i < j < self.sandboxes_spec().len() ==> self.sandboxes_spec()[i].name@
                != self.sandboxes_spec()[j].name@
    }

    pub closed spec fn host_spec(&self) -> Seq<char> {
        self.host@
    }

    pub closed spec fn port_spec(&self) -> u16 {
        self.port
    }

    pub closed spec fn production_spec(&self) -> Backend {
        self.production
    }

    pub closed spec fn sandboxes_spec(&self) -> Seq<Backend> {
        self.sandboxes@
    }

    /// Whether a registered backend, production included, uses `name`.
    pub open spec fn name_taken(&self, name: Seq<char>) -> bool {
        self.production_spec().name@ == name || name_in(self.sandboxes_spec(), name)
    }

    pub fn new(host: String, port: u16, production: Backend) -> (r: ProxyServer)
        ensures
            r.wf(),
            r.host_spec() == host@,
            r.port_spec() == port,
            r.production_spec() == production,
            r.sandboxes_spec() == Seq::<Backend>::empty(),
    {
        ProxyServer { host, port, production, sandboxes: Vec::new() }
    }

    /// The address the proxy listens on.
    pub fn host(&self) -> (r: &String)
        ensures
            r@ == self.host_spec(),
    {
        &self.host
    }

    pub fn port(&self) -> (r: u16)
        ensures
            r == self.port_spec(),
    {
        self.port
    }

    pub fn production(&self) -> (r: &Backend)
        ensures
            *r == self.production_spec(),
    {
        &self.production
    }

    pub fn sandboxes(&self) -> (r: &Vec<Backend>)
        ensures
            r@ == self.sandboxes_spec(),
    {
        &self.sandboxes
    }

    /// Registers a sandbox backend, unless its name is already in use.
    pub fn add_backend(&mut self, backend: Backend) -> (r: Result<(), RegistryError>)
        requires
            old(self).wf(),
        ensures
            final(self).wf(),
            final(self).host_spec() == old(self).host_spec(),
            final(self).port_spec() == old(self).port_spec(),
            final(self).production_spec() == old(self).production_spec(),
            r is Ok <==> !old(self).name_taken(backend.name@),
            r is Ok ==> final(self).sandboxes_spec() == old(self).sandboxes_spec().push(backend),
            r is Err ==> r == Err::<(), RegistryError>(RegistryError::DuplicateBackendName)
                && final(self).sandboxes_spec() == old(self).sandboxes_spec(),
    {
        if backend.name == self.production.name {
            return Err(RegistryError::DuplicateBackendName);
        }
        let mut i: usize = 0;
        while i < self.sandboxes.len()
            invariant
                i <= self.sandboxes.len(),
                self.wf(),
                *self == *old(self),
                forall|j: int| 0 <= j < i ==> self.sandboxes@[j].name@ != backend.name@,
            decreases self.sandboxes.len() - i,
        {
            if self.sandboxes[i].name == backend.name {
                return Err(RegistryError::DuplicateBackendName);
            }
            i = i + 1;
        }
        let ghost before = self.sandboxes@;
        self.sandboxes.push(backend);
        proof {
            assert(self.sandboxes@ == before.push(backend));
            assert forall|k: int| 0 <= k < self.sandboxes@.len()
                implies self.sandboxes@[k].name@ != self.production.name@ by {
                if k < before.len() {
                    assert(before[k] == self.sandboxes@[k]);
                }
            }
        }
        Ok(())
    }

    /// The sandboxes whose name is in `names`, in registry order; names that
    /// match no sandbox are dropped.
    pub fn select_by_names(&self, names: &Vec<String>) -> (r: Vec<Backend>)
        ensures
            r@ == selected(self.sandboxes_spec(), string_views(names@)),
    {
        let ghost ns = string_views(names@);
        let mut r: Vec<Backend> = Vec::new();
        let mut i: usize = 0;
        while i < self.sandboxes.len()
            invariant
                i <= self.sandboxes.len(),
                ns == string_views(names@),
                r@ == selected(self.sandboxes@.subrange(0, i as int), ns),
            decreases self.sandboxes.len() - i,
        {
            let ghost prefix = self.sandboxes@.subrange(0, i + 1);
            assert(prefix.drop_last() =~= self.sandboxes@.subrange(0, i as int));
            assert(prefix.last() == self.sandboxes@[i as int]);
            if contains_name(names, &self.sandboxes[i].name) {
                r.push(self.sandboxes[i].duplicate());
            }
            i = i + 1;
        }
        assert(self.sandboxes@.subrange(0, i as int) =~= self.sandboxes@);
        r
    }

    /// The participants of a request, given what the selection hook
    /// returned (`None` where no hook is set).
    pub fn participants(&self, selection: &Option<Vec<String>>) -> (r: Vec<Backend>)
        ensures
            r@ == participants_of(
                self.production_spec(),
                self.sandboxes_spec(),
                match selection {
                    None => None,
                    Some(n) => Some(string_views(n@)),
                },
            ),
    {
        let mut r: Vec<Backend> = Vec::new();
        r.push(self.production.duplicate());
        match selection {
            None => {
                assert(r@ =~= seq![self.production]);
            },
            Some(names) => {
                let mut chosen = self.select_by_names(names);
                let ghost first = r@;
                let ghost rest = chosen@;
                r.append(&mut chosen);
                assert(r@ =~= seq![self.production] + selected(self.sandboxes@, string_views(names@)));
            },
        }
        r
    }
}

} // verus!
