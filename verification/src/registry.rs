//! The registry of probes by kind, and the worker pool that runs rounds
//! with them.
use std::sync::Arc;
use vstd::prelude::*;

use crate::kinds::ProbeKind;

verus! {

/// The probe of each kind, at most one per kind.
pub struct ProbeRegistry<P> {
    icmp: Option<P>,
    http: Option<P>,
    tcp: Option<P>,
    dns: Option<P>,
}

impl<P> ProbeRegistry<P> {
    /// The registered probes by kind.
    pub closed spec fn spec_probes(&self) -> Map<ProbeKind, P> {
        Map::new(
            |k: ProbeKind| self.slot(k) is Some,
            |k: ProbeKind| self.slot(k)->0,
        )
    }

    /// The slot of a kind.
    pub closed spec fn slot(&self, k: ProbeKind) -> Option<P> {
        match k {
            ProbeKind::Icmp => self.icmp,
            ProbeKind::Http => self.http,
            ProbeKind::Tcp => self.tcp,
            ProbeKind::Dns => self.dns,
        }
    }

    /// A registry with no probes.
    pub fn new() -> (r: Self)
        ensures
            r.spec_probes() == Map::<ProbeKind, P>::empty(),
    {
        let r = Self { icmp: None, http: None, tcp: None, dns: None };
        assert(r.spec_probes() =~= Map::<ProbeKind, P>::empty());
        r
    }

    /// Registers `probe` as the probe of `kind`, replacing any earlier one.
    pub fn register(&mut self, kind: ProbeKind, probe: P)
        ensures
            final(self).spec_probes() == old(self).spec_probes().insert(kind, probe),
    {
        match kind {
            ProbeKind::Icmp => {
                self.icmp = Some(probe);
            },
            ProbeKind::Http => {
                self.http = Some(probe);
            },
            ProbeKind::Tcp => {
                self.tcp = Some(probe);
            },
            ProbeKind::Dns => {
                self.dns = Some(probe);
            },
        }
        assert(self.spec_probes() =~= old(self).spec_probes().insert(kind, probe));
    }

    /// The probe of `kind`, if one is registered.
    pub fn get(&self, kind: ProbeKind) -> (r: Option<&P>)
        ensures
            match r {
                Some(p) => self.spec_probes().contains_key(kind) && *p == self.spec_probes()[kind],
                None => !self.spec_probes().contains_key(kind),
            },
    {
        match kind {
            ProbeKind::Icmp => self.icmp.as_ref(),
            ProbeKind::Http => self.http.as_ref(),
            ProbeKind::Tcp => self.tcp.as_ref(),
            ProbeKind::Dns => self.dns.as_ref(),
        }
    }
}

impl<P: crate::probe::Probe> ProbeRegistry<P> {
    /// Registers `probe` as the probe of its kind, replacing any earlier
    /// one.
    pub fn register_probe(&mut self, probe: P)
        ensures
            final(self).spec_probes() == old(self).spec_probes().insert(probe.spec_kind(), probe),
    {
        let kind = probe.kind();
        self.register(kind, probe);
    }
}

/// A registry gives back the probe last registered for a kind, and
/// registering leaves the other kinds as they were.
pub proof fn law_registry_get_after_register<P>(probes: Map<ProbeKind, P>, kind: ProbeKind, other: ProbeKind, probe: P)
    requires
        other != kind,
    ensures
        probes.insert(kind, probe)[kind] == probe,
        probes.insert(kind, probe).contains_key(other) == probes.contains_key(other),
        probes.contains_key(other) ==> probes.insert(kind, probe)[other] == probes[other],
{
}

/// The pool of workers that run rounds with the registered probes.
pub struct WorkerPool<P> {
    registry: Arc<ProbeRegistry<P>>,
    num_workers: usize,
}

impl<P> WorkerPool<P> {
    /// A pool of `num_workers` workers using the probes of `registry`.
    pub fn new(registry: Arc<ProbeRegistry<P>>, num_workers: usize) -> (r: Self)
        ensures
            r.spec_workers() == num_workers,
            r.spec_registry() == registry,
    {
        Self { registry, num_workers }
    }

    /// The number of workers.
    pub closed spec fn spec_workers(&self) -> usize {
        self.num_workers
    }

    /// The registry of the pool.
    pub closed spec fn spec_registry(&self) -> Arc<ProbeRegistry<P>> {
        self.registry
    }

    /// The number of workers.
    pub fn num_workers(&self) -> (r: usize)
        ensures
            r == self.spec_workers(),
    {
        self.num_workers
    }

    /// The registry of the pool.
    pub fn registry(&self) -> (r: &Arc<ProbeRegistry<P>>)
        ensures
            *r == self.spec_registry(),
    {
        &self.registry
    }
}

} // verus!
