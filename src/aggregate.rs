use vstd::prelude::*;

use crate::message::Response;

verus! {

/// Why a request could not be delivered to a backend.
#[derive(Clone, Copy, Debug, PartialEq, Eq)]
pub enum DispatchError {
    /// Connection refused, timeout or another transport failure.
    Unreachable,
}

/// The abstract value of a response: status, headers and body.
pub type ResponseView = (u16, Seq<(Seq<char>, Seq<u8>)>, Seq<u8>);

/// The abstract value of an outcome.
pub enum OutcomeView {
    Success(ResponseView),
    Failure(DispatchError),
}

/// What one backend answered: a response, or the failure to reach it.
#[derive(Clone, Debug, PartialEq, Eq)]
pub enum ResponseOutcome {
    Success(Response),
    Failure(DispatchError),
}

impl View for ResponseOutcome {
    type V = OutcomeView;

    open spec fn view(&self) -> OutcomeView {
        match self {
            ResponseOutcome::Success(r) => OutcomeView::Success(r@),
            ResponseOutcome::Failure(e) => OutcomeView::Failure(*e),
        }
    }
}

/// The outcome that a dispatch result stands for.
pub open spec fn outcome_of(result: Result<Response, DispatchError>) -> OutcomeView {
    match result {
        Ok(r) => OutcomeView::Success(r@),
        Err(e) => OutcomeView::Failure(e),
    }
}

impl ResponseOutcome {
    /// The outcome of a dispatch: a failure is kept as a failure outcome.
    pub fn from_result(result: Result<Response, DispatchError>) -> (r: ResponseOutcome)
        ensures
            r@ == outcome_of(result),
    {
        match result {
            Ok(resp) => ResponseOutcome::Success(resp),
            Err(e) => ResponseOutcome::Failure(e),
        }
    }

    pub fn is_success(&self) -> (r: bool)
        ensures
            r == (self@ is Success),
    {
        match self {
            ResponseOutcome::Success(_) => true,
            ResponseOutcome::Failure(_) => false,
        }
    }
}

/// The outcome stored under `name` in `s`, if any.
pub open spec fn lookup(s: Seq<(Seq<char>, OutcomeView)>, name: Seq<char>) -> Option<OutcomeView>
    decreases s.len(),
{
    if s.len() == 0 {
        None
    } else if s.last().0 == name {
        Some(s.last().1)
    } else {
        lookup(s.drop_last(), name)
    }
}

/// No two entries of `s` share a name.
pub open spec fn distinct_names(s: Seq<(Seq<char>, OutcomeView)>) -> bool {
    forall|i: int, j: int| 0 <= i < j < s.len() ==> s[i].0 != s[j].0
}

proof fn lemma_lookup_some(s: Seq<(Seq<char>, OutcomeView)>, name: Seq<char>)
    ensures
        lookup(s, name) is Some <==> exists|i: int| 0 <= i < s.len() && s[i].0 == name,
    decreases s.len(),
{
    if s.len() > 0 {
        lemma_lookup_some(s.drop_last(), name);
        if lookup(s.drop_last(), name) is Some {
            let i = choose|i: int| 0 <= i < s.drop_last().len() && s.drop_last()[i].0 == name;
            assert(s[i].0 == name);
        }
        if exists|i: int| 0 <= i < s.len() && s[i].0 == name {
            let i = choose|i: int| 0 <= i < s.len() && s[i].0 == name;
            if i < s.len() - 1 {
                assert(s.drop_last()[i].0 == name);
            }
        }
    }
}

proof fn lemma_lookup_update(s: Seq<(Seq<char>, OutcomeView)>, i: int, v: OutcomeView, name: Seq<char>)
    requires
        distinct_names(s),
        0 <= i < s.len(),
    ensures
        lookup(s.update(i, (s[i].0, v)), name) == if name == s[i].0 {
            Some(v)
        } else {
            lookup(s, name)
        },
    decreases s.len(),
{
    let t = s.update(i, (s[i].0, v));
    if i == s.len() - 1 {
        assert(t.drop_last() =~= s.drop_last());
    } else {
        assert(t.drop_last() =~= s.drop_last().update(i, (s[i].0, v)));
        lemma_lookup_update(s.drop_last(), i, v, name);
        assert(s.last().0 != s[i].0);
    }
}

/// The outcomes of one request, by backend name: at most one per name.
#[derive(Debug)]
pub struct ResponseAggregate {
    entries: Vec<(String, ResponseOutcome)>,
}

impl View for ResponseAggregate {
    type V = Seq<(Seq<char>, OutcomeView)>;

    closed spec fn view(&self) -> Seq<(Seq<char>, OutcomeView)> {
        self.entries@.map_values(|e: (String, ResponseOutcome)| (e.0@, e.1@))
    }
}

impl ResponseAggregate {
    pub open spec fn wf(&self) -> bool {
        distinct_names(self@)
    }

    /// The outcome recorded for `name`.
    pub open spec fn outcome(&self, name: Seq<char>) -> Option<OutcomeView> {
        lookup(self@, name)
    }

    pub fn new() -> (r: ResponseAggregate)
        ensures
            r.wf(),
            r@ == Seq::<(Seq<char>, OutcomeView)>::empty(),
    {
        let r = ResponseAggregate { entries: Vec::new() };
        assert(r@ =~= Seq::<(Seq<char>, OutcomeView)>::empty());
        r
    }

    /// The number of backends with a recorded outcome.
    pub fn len(&self) -> (r: usize)
        ensures
            r == self@.len(),
    {
        self.entries.len()
    }

    fn find(&self, name: &String) -> (r: Option<usize>)
        ensures
            match r {
                Some(i) => i < self@.len() && self@[i as int].0 == name@,
                None => forall|i: int| 0 <= i < self@.len() ==> self@[i].0 != name@,
            },
    {
        let mut i: usize = 0;
        while i < self.entries.len()
            invariant
                i <= self.entries.len(),
                forall|j: int| 0 <= j < i ==> self@[j].0 != name@,
            decreases self.entries.len() - i,
        {
            if self.entries[i].0 == *name {
                return Some(i);
            }
            i = i + 1;
        }
        None
    }

    /// The outcome recorded for `name`.
    pub fn get(&self, name: &String) -> (r: Option<&ResponseOutcome>)
        requires
            self.wf(),
        ensures
            match r {
                Some(o) => self.outcome(name@) == Some(o@),
                None => self.outcome(name@) is None,
            },
    {
        proof {
            lemma_lookup_some(self@, name@);
        }
        match self.find(name) {
            Some(i) => {
                proof {
                    let v = self@[i as int].1;
                    assert(self@.update(i as int, (name@, v)) =~= self@);
                    lemma_lookup_update(self@, i as int, v, name@);
                }
                Some(&self.entries[i].1)
            },
            None => None,
        }
    }

    /// Records `outcome` under `name`, replacing an earlier one of that name.
    pub fn insert(&mut self, name: String, outcome: ResponseOutcome)
        requires
            old(self).wf(),
        ensures
            final(self).wf(),
            final(self).outcome(name@) == Some(outcome@),
            forall|n: Seq<char>| n != name@ ==> final(self).outcome(n) == old(self).outcome(n),
            final(self)@.len() == old(self)@.len() + if old(self).outcome(name@) is Some {
                0int
            } else {
                1int
            },
    {
        proof {
            lemma_lookup_some(self@, name@);
        }
        let ghost v = outcome@;
        let ghost before = self@;
        match self.find(&name) {
            Some(i) => {
                self.entries.set(i, (name, outcome));
                proof {
                    assert(self@ =~= before.update(i as int, (before[i as int].0, v)));
                    assert forall|n: Seq<char>| true implies self.outcome(n) == if n == before[i as int].0 {
                        Some(v)
                    } else {
                        lookup(before, n)
                    } by {
                        lemma_lookup_update(before, i as int, v, n);
                    }
                }
            },
            None => {
                self.entries.push((name, outcome));
                assert(self@ =~= before.push((name@, v)));
                assert(self@.drop_last() =~= before);
            },
        }
    }

    /// Records what dispatching to backend `name` gave: a response as a
    /// success outcome, a failure as a failure outcome.
    pub fn record(&mut self, name: String, result: Result<Response, DispatchError>)
        requires
            old(self).wf(),
        ensures
            final(self).wf(),
            final(self).outcome(name@) == Some(outcome_of(result)),
            forall|n: Seq<char>| n != name@ ==> final(self).outcome(n) == old(self).outcome(n),
            final(self)@.len() == old(self)@.len() + if old(self).outcome(name@) is Some {
                0int
            } else {
                1int
            },
    {
        let outcome = ResponseOutcome::from_result(result);
        self.insert(name, outcome);
    }
}

} // verus!
