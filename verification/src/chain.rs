//! The fallback chain: an ordered list of probes, tried strictly in
//! order, first success wins.
//!
//! Each probe either succeeds with an address or fails; the chain
//! swallows every per-probe error, moves to the next probe, and fails as
//! a whole only when the list is exhausted. Probes after the first
//! success are never invoked. The probes themselves do network work, so
//! the runner drives them through `ChainRun`, a small state machine whose
//! contracts pin the order and the stopping rule; `resolve_public_address`
//! is the same policy over a fully supplied sequence of outcomes.

use vstd::prelude::*;

use crate::errors::AllProbesFailedError;
use crate::probe::Probe;
use crate::probe::dns_akamai;
use crate::probe::https_icanhazip;
use crate::probe::https_ifconfig_co;
use crate::probe::https_ifconfig_me;
use crate::probe::https_ipv4_icanhazip;

verus! {

/// The final answer of a successful resolution: an address and the
/// provider that supplied it.
#[derive(Clone, Debug, PartialEq, Eq)]
pub struct ResolutionResult {
    /// Label of the probe that produced the address.
    pub provider: String,
    /// The address, as non-empty whitespace-free text.
    pub address: String,
}

/// The labels of a chain, in order.
pub open spec fn labels_of(chain: Seq<Probe>) -> Seq<Seq<char>> {
    chain.map_values(|p: Probe| p.label@)
}

/// The text of each outcome, in order.
pub open spec fn outcome_views(s: Seq<Option<String>>) -> Seq<Option<Seq<char>>> {
    s.map_values(
        |o: Option<String>|
            match o {
                Some(a) => Some(a@),
                None => None,
            },
    )
}

/// First success wins: the provider and address of the first probe whose
/// outcome is a success, or `None` when every probe failed.
pub open spec fn spec_resolve(labels: Seq<Seq<char>>, outcomes: Seq<Option<Seq<char>>>) -> Option<
    (Seq<char>, Seq<char>),
>
    recommends
        labels.len() == outcomes.len(),
    decreases outcomes.len(),
{
    if outcomes.len() == 0 {
        None
    } else {
        match outcomes[0] {
            Some(a) => Some((labels[0], a)),
            None => spec_resolve(labels.drop_first(), outcomes.drop_first()),
        }
    }
}

/// The chain fails as a whole exactly when every probe in it fails.
pub proof fn lemma_resolve_none_iff_all_fail(
    labels: Seq<Seq<char>>,
    outcomes: Seq<Option<Seq<char>>>,
)
    requires
        labels.len() == outcomes.len(),
    ensures
        spec_resolve(labels, outcomes) is None <==> (forall|i: int|
            0 <= i < outcomes.len() ==> outcomes[i] is None),
    decreases outcomes.len(),
{
    if outcomes.len() > 0 {
        let od = outcomes.drop_first();
        lemma_resolve_none_iff_all_fail(labels.drop_first(), od);
        if outcomes[0] is None {
            if forall|i: int| 0 <= i < od.len() ==> #[trigger] od[i] is None {
                assert forall|i: int| 0 <= i < outcomes.len() implies #[trigger] outcomes[i]
                    is None by {
                    if i > 0 {
                        assert(od[i - 1] == outcomes[i]);
                    }
                }
            }
            if forall|i: int| 0 <= i < outcomes.len() ==> #[trigger] outcomes[i] is None {
                assert forall|i: int| 0 <= i < od.len() implies #[trigger] od[i] is None by {
                    assert(od[i] == outcomes[i + 1]);
                }
            }
        }
    }
}

/// When every probe before `i` fails and probe `i` succeeds, the chain
/// answers with probe `i`'s label and address — later probes never
/// matter.
pub proof fn lemma_resolve_first_success(
    labels: Seq<Seq<char>>,
    outcomes: Seq<Option<Seq<char>>>,
    i: int,
)
    requires
        labels.len() == outcomes.len(),
        0 <= i < outcomes.len(),
        outcomes[i] is Some,
        forall|j: int| 0 <= j < i ==> outcomes[j] is None,
    ensures
        spec_resolve(labels, outcomes) == Some((labels[i], outcomes[i]->Some_0)),
    decreases i,
{
    if i > 0 {
        lemma_resolve_first_success(labels.drop_first(), outcomes.drop_first(), i - 1);
        assert(forall|j: int|
            0 <= j < outcomes.len() - 1 ==> outcomes.drop_first()[j] == outcomes[j + 1]);
    }
}

/// Resolution is a function of the chain and the probe outcomes alone:
/// two runs against the same deterministic fixture chain answer alike.
pub proof fn lemma_resolution_idempotent(
    labels: Seq<Seq<char>>,
    outcomes: Seq<Option<Seq<char>>>,
    r1: Option<(Seq<char>, Seq<char>)>,
    r2: Option<(Seq<char>, Seq<char>)>,
)
    requires
        r1 == spec_resolve(labels, outcomes),
        r2 == spec_resolve(labels, outcomes),
    ensures
        r1 == r2,
{
}

/// The runner's cursor over a chain: which probe to try next, and
/// whether a probe has already succeeded.
pub struct ChainRun {
    /// Index of the probe to try next.
    pub next_index: usize,
    /// Whether some probe has succeeded; once set, no probe is offered
    /// again.
    pub finished: bool,
}

impl ChainRun {
    /// A fresh run: at the head of the chain, nothing succeeded yet.
    pub fn new() -> (s: Self)
        ensures
            s.next_index == 0,
            !s.finished,
    {
        ChainRun { next_index: 0, finished: false }
    }

    /// The probe to try now: the one at the cursor, in strict chain
    /// order. `None` once a probe has succeeded — later probes are never
    /// offered — or when the chain is exhausted.
    pub fn next_probe(&self, chain: &Vec<Probe>) -> (r: Option<usize>)
        ensures
            r == (if !self.finished && self.next_index < chain@.len() {
                Some(self.next_index)
            } else {
                None::<usize>
            }),
    {
        if !self.finished && self.next_index < chain.len() {
            Some(self.next_index)
        } else {
            None
        }
    }

    /// A probe failed: discard its error and move to the next probe.
    pub fn record_failure(&mut self)
        requires
            old(self).next_index < usize::MAX,
        ensures
            final(self).next_index == old(self).next_index + 1,
            final(self).finished == old(self).finished,
    {
        self.next_index = self.next_index + 1;
    }

    /// A probe succeeded: stop; no further probe will be offered.
    pub fn record_success(&mut self)
        ensures
            final(self).next_index == old(self).next_index,
            final(self).finished,
    {
        self.finished = true;
    }
}

/// Pairs a successful probe's label with the address it produced.
pub fn success_result(probe: &Probe, address: String) -> (r: ResolutionResult)
    ensures
        r.provider@ == probe.label@,
        r.address@ == address@,
{
    ResolutionResult { provider: probe.label.clone(), address }
}

/// First success wins over a fully supplied sequence of outcomes, one
/// per probe: the answer is the first success, in chain order, and the
/// chain fails only when every outcome is a failure.
pub fn resolve_public_address(chain: &Vec<Probe>, outcomes: &Vec<Option<String>>) -> (r: Result<
    ResolutionResult,
    AllProbesFailedError,
>)
    requires
        chain@.len() == outcomes@.len(),
    ensures
        (r matches Ok(res) ==> spec_resolve(labels_of(chain@), outcome_views(outcomes@)) == Some(
            (res.provider@, res.address@),
        )),
        (r matches Err(_) ==> spec_resolve(labels_of(chain@), outcome_views(outcomes@)) is None),
{
    let ghost views = outcome_views(outcomes@);
    let mut i: usize = 0;
    while i < chain.len()
        invariant
            0 <= i <= chain@.len(),
            chain@.len() == outcomes@.len(),
            views == outcome_views(outcomes@),
            views.len() == outcomes@.len(),
            forall|j: int| 0 <= j < i ==> views[j] is None,
        decreases chain@.len() - i,
    {
        match &outcomes[i] {
            Some(a) => {
                proof {
                    lemma_resolve_first_success(labels_of(chain@), views, i as int);
                }
                return Ok(success_result(&chain[i], a.clone()));
            },
            None => {
            },
        }
        i += 1;
    }
    proof {
        lemma_resolve_none_iff_all_fail(labels_of(chain@), views);
    }
    Err(AllProbesFailedError)
}

/// The default chain: the DNS provider first —
/// a DNS round trip is cheaper than a TLS handshake — then the
/// IPv4-specific HTTPS endpoint before the dual-stack ones.
pub fn default_chain() -> (c: Vec<Probe>)
    ensures
        c@.len() == 5,
        c@[0].label@ == "akamai (DNS)"@,
        c@[1].label@ == "icanhazip (ipv4, https)"@,
        c@[2].label@ == "icanhazip (https)"@,
        c@[3].label@ == "ifconfig.me (https)"@,
        c@[4].label@ == "ifconfig.co (https)"@,
{
    let mut c: Vec<Probe> = Vec::new();
    c.push(dns_akamai());
    c.push(https_ipv4_icanhazip());
    c.push(https_icanhazip());
    c.push(https_ifconfig_me());
    c.push(https_ifconfig_co());
    c
}

} // verus!
