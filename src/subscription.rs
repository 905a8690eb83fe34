//! Bookkeeping of the two signal-match rules installed on the bus, so that a
//! replaced observer never leaves a stale rule behind.
use vstd::prelude::*;

verus! {

/// The two kinds of match rule.
#[derive(Clone, Copy, Debug, PartialEq, Eq, Structural)]
pub enum RuleKind {
    /// Devices announced by the object manager.
    InterfacesAdded,
    /// Properties of a device changed.
    PropertiesChanged,
}

/// The tokens recorded for `(InterfacesAdded, PropertiesChanged)`.
pub type Tokens = (Option<usize>, Option<usize>);

/// The token recorded for `kind`.
pub open spec fn token_of(tokens: Tokens, kind: RuleKind) -> Option<usize> {
    match kind {
        RuleKind::InterfacesAdded => tokens.0,
        RuleKind::PropertiesChanged => tokens.1,
    }
}

/// `tokens` with the token of `kind` set to `token`.
pub open spec fn with_token(tokens: Tokens, kind: RuleKind, token: Option<usize>) -> Tokens {
    match kind {
        RuleKind::InterfacesAdded => (token, tokens.1),
        RuleKind::PropertiesChanged => (tokens.0, token),
    }
}

/// The tokens of `kind` among the rules `live` on the bus.
pub open spec fn live_of_kind(live: Map<usize, RuleKind>, kind: RuleKind) -> Set<usize> {
    live.dom().filter(|t: usize| live[t] == kind)
}

/// The set that holds the token, if any.
pub open spec fn token_set(token: Option<usize>) -> Set<usize> {
    match token {
        Some(t) => set![t],
        None => Set::empty(),
    }
}

/// The rules live on the bus are exactly the recorded ones: one rule of a
/// kind at most.
pub open spec fn in_sync(live: Map<usize, RuleKind>, tokens: Tokens) -> bool {
    &&& live_of_kind(live, RuleKind::InterfacesAdded) == token_set(tokens.0)
    &&& live_of_kind(live, RuleKind::PropertiesChanged) == token_set(tokens.1)
}

/// One replacement of the rule of `kind`: the recorded token is taken and its
/// rule removed from the bus, then a rule is installed under `fresh` and
/// recorded. Gives the rules then live and the tokens then recorded.
pub open spec fn replaced(live: Map<usize, RuleKind>, tokens: Tokens, kind: RuleKind, fresh: usize) -> (Map<usize, RuleKind>, Tokens) {
    let remaining = match token_of(tokens, kind) {
        Some(t) => live.remove(t),
        None => live,
    };
    (remaining.insert(fresh, kind), with_token(tokens, kind, Some(fresh)))
}

/// The state after the replacements `steps`, each a kind and the fresh token
/// its new rule got, in order.
pub open spec fn replayed(live: Map<usize, RuleKind>, tokens: Tokens, steps: Seq<(RuleKind, usize)>) -> (Map<usize, RuleKind>, Tokens)
    decreases steps.len(),
{
    if steps.len() == 0 {
        (live, tokens)
    } else {
        let (l, t) = replayed(live, tokens, steps.drop_last());
        replaced(l, t, steps.last().0, steps.last().1)
    }
}

/// The tokens of the installed match rules, one slot for each kind.
pub struct Subscriptions {
    interfaces_added: Option<usize>,
    properties_changed: Option<usize>,
}

impl View for Subscriptions {
    type V = Tokens;

    closed spec fn view(&self) -> Tokens {
        (self.interfaces_added, self.properties_changed)
    }
}

impl Subscriptions {
    /// No rule installed.
    pub fn new() -> (r: Subscriptions)
        ensures
            r@ == (None::<usize>, None::<usize>),
    {
        Subscriptions { interfaces_added: None, properties_changed: None }
    }

    /// The token recorded for `kind`.
    pub fn token(&self, kind: RuleKind) -> (r: Option<usize>)
        ensures
            r == token_of(self@, kind),
    {
        match kind {
            RuleKind::InterfacesAdded => self.interfaces_added,
            RuleKind::PropertiesChanged => self.properties_changed,
        }
    }

    /// Takes the token of `kind` out, to remove its rule from the bus before a
    /// new one is installed.
    pub fn take(&mut self, kind: RuleKind) -> (r: Option<usize>)
        ensures
            r == token_of(old(self)@, kind),
            final(self)@ == with_token(old(self)@, kind, None),
    {
        match kind {
            RuleKind::InterfacesAdded => {
                let r = self.interfaces_added;
                self.interfaces_added = None;
                r
            },
            RuleKind::PropertiesChanged => {
                let r = self.properties_changed;
                self.properties_changed = None;
                r
            },
        }
    }

    /// Records the token of a newly installed rule of `kind`. Returns the token
    /// it displaces, whose rule must then be removed as well; `None` when the
    /// slot was taken first.
    pub fn record(&mut self, kind: RuleKind, token: usize) -> (r: Option<usize>)
        ensures
            r == token_of(old(self)@, kind),
            final(self)@ == with_token(old(self)@, kind, Some(token)),
    {
        match kind {
            RuleKind::InterfacesAdded => {
                let r = self.interfaces_added;
                self.interfaces_added = Some(token);
                r
            },
            RuleKind::PropertiesChanged => {
                let r = self.properties_changed;
                self.properties_changed = Some(token);
                r
            },
        }
    }
}

proof fn lemma_replaced_kind(live: Map<usize, RuleKind>, tokens: Tokens, kind: RuleKind, fresh: usize, other: RuleKind)
    requires
        in_sync(live, tokens),
        !live.dom().contains(fresh),
    ensures
        live_of_kind(replaced(live, tokens, kind, fresh).0, other) == token_set(
            token_of(replaced(live, tokens, kind, fresh).1, other),
        ),
{
    let (l, t) = replaced(live, tokens, kind, fresh);
    assert forall|k: RuleKind| #[trigger] live_of_kind(live, k) == token_set(token_of(tokens, k)) by {
        match k {
            RuleKind::InterfacesAdded => {},
            RuleKind::PropertiesChanged => {},
        }
    }
    assert forall|x: usize| live_of_kind(l, other).contains(x) == token_set(token_of(t, other)).contains(x) by {
        if x == fresh {
            match token_of(tokens, other) {
                Some(o) => {
                    assert(live_of_kind(live, other).contains(o));
                },
                None => {},
            }
        } else {
            if live.dom().contains(x) {
                assert(live_of_kind(live, live[x]).contains(x));
            }
            match token_of(tokens, other) {
                Some(o) => {
                    assert(live_of_kind(live, other).contains(o));
                },
                None => {},
            }
            match token_of(tokens, kind) {
                Some(o) => {
                    assert(live_of_kind(live, kind).contains(o));
                },
                None => {},
            }
        }
    }
    assert(live_of_kind(l, other) =~= token_set(token_of(t, other)));
}

proof fn lemma_replaced_in_sync(live: Map<usize, RuleKind>, tokens: Tokens, kind: RuleKind, fresh: usize)
    requires
        in_sync(live, tokens),
        !live.dom().contains(fresh),
    ensures
        in_sync(replaced(live, tokens, kind, fresh).0, replaced(live, tokens, kind, fresh).1),
{
    lemma_replaced_kind(live, tokens, kind, fresh, RuleKind::InterfacesAdded);
    lemma_replaced_kind(live, tokens, kind, fresh, RuleKind::PropertiesChanged);
}

/// Replacing the rules any number of times, each time by taking the recorded
/// token, removing its rule and recording the fresh one, keeps the bus in
/// step with the record: no rule is left behind and no kind is ever served
/// by two rules.
pub proof fn lemma_replacements_leave_one_rule_per_kind(
    live: Map<usize, RuleKind>,
    tokens: Tokens,
    steps: Seq<(RuleKind, usize)>,
)
    requires
        in_sync(live, tokens),
        forall|i: int| 0 <= i < steps.len() ==> !live.dom().contains(#[trigger] steps[i].1),
        forall|i: int, j: int| 0 <= i < j < steps.len() ==> #[trigger] steps[i].1 != #[trigger] steps[j].1,
    ensures
        in_sync(replayed(live, tokens, steps).0, replayed(live, tokens, steps).1),
        live_of_kind(replayed(live, tokens, steps).0, RuleKind::InterfacesAdded).len() <= 1,
        live_of_kind(replayed(live, tokens, steps).0, RuleKind::PropertiesChanged).len() <= 1,
        replayed(live, tokens, steps).0.dom().subset_of(live.dom().union(steps.map_values(|s: (RuleKind, usize)| s.1).to_set())),
    decreases steps.len(),
{
    if steps.len() > 0 {
        let shorter = steps.drop_last();
        lemma_replacements_leave_one_rule_per_kind(live, tokens, shorter);
        let (l, t) = replayed(live, tokens, shorter);
        let fresh = steps.last().1;
        assert(!l.dom().contains(fresh)) by {
            if l.dom().contains(fresh) {
                let ids = shorter.map_values(|s: (RuleKind, usize)| s.1);
                assert(ids.to_set().contains(fresh));
                let k = choose|k: int| 0 <= k < ids.len() && ids[k] == fresh;
                assert(steps[k].1 == steps[steps.len() - 1].1);
            }
        }
        lemma_replaced_in_sync(l, t, steps.last().0, fresh);
        let ids = steps.map_values(|s: (RuleKind, usize)| s.1);
        assert(ids[ids.len() - 1] == fresh);
        assert(ids.to_set().contains(fresh));
        assert forall|x: usize| shorter.map_values(|s: (RuleKind, usize)| s.1).to_set().contains(x) implies ids.to_set().contains(x) by {
            let sids = shorter.map_values(|s: (RuleKind, usize)| s.1);
            let k = choose|k: int| 0 <= k < sids.len() && sids[k] == x;
            assert(ids[k] == x);
        }
    }
    let (l, t) = replayed(live, tokens, steps);
    assert(token_set(t.0).len() <= 1);
    assert(token_set(t.1).len() <= 1);
}

} // verus!
