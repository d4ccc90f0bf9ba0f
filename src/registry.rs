//! The registry of blocks deferred until their missing event proofs arrive.
use vstd::prelude::*;

use crate::hash::{Hash256, HASH_LEN};
use crate::quorum::{hashes_view, keys_view, verification, verify_proofs, ProofBundle};
use crate::signature::{VerifyError, VerifyResult};

verus! {

/// A deferred block and the events it still lacks a quorum for, by their bytes.
pub type EntryModel = (Seq<u8>, Seq<Seq<u8>>);

/// The registry's contents: block hash to outstanding event ids.
pub type RegistryModel = Map<Seq<u8>, Seq<Seq<u8>>>;

/// One deferred block with its outstanding events, in order.
#[derive(Clone, Debug, PartialEq, Eq)]
pub struct DeferredEntry {
    pub block: Hash256,
    pub unwitnessed: Vec<Hash256>,
}

impl View for DeferredEntry {
    type V = EntryModel;

    open spec fn view(&self) -> EntryModel {
        (self.block@, hashes_view(self.unwitnessed@))
    }
}

/// What a deferral asks of the lookup network.
#[derive(Clone, Copy, Debug, PartialEq, Eq)]
pub enum DeferAction {
    /// Request the proofs under the block's lookup key.
    RequestLookup,
    /// The block was already deferred: nothing new is requested.
    AlreadyDeferred,
    /// No lookup network is bound: the deferral is dropped.
    NetworkUnavailable,
}

/// What became of one value found on the lookup network.
#[derive(Clone, Debug, PartialEq, Eq)]
pub enum FoundOutcome {
    /// The key is not the encoding of a block hash: skipped.
    BadKey,
    /// No block is deferred under that hash: ignored.
    NotDeferred,
    /// The value could not be decoded as a proof bundle: the deferral stays.
    Undecodable,
    /// The bundle lacks a quorum for some outstanding event: the deferral stays.
    Insufficient,
    /// The authority set could not be resolved (the client's message): the deferral stays.
    AuthoritiesUnavailable(String),
    /// The bundle is malformed: the deferral stays.
    Rejected(VerifyError),
    /// The bundle holds a quorum for every outstanding event: the deferral is removed
    /// and the bundle is to be added to the proof store.
    Completed(ProofBundle),
}

/// The views of a sequence of entries.
pub open spec fn entry_views(s: Seq<DeferredEntry>) -> Seq<EntryModel> {
    s.map_values(|e: DeferredEntry| e@)
}

/// The map a sequence of entries stands for.
pub open spec fn entries_map(s: Seq<EntryModel>) -> RegistryModel
    decreases s.len(),
{
    if s.len() == 0 {
        Map::empty()
    } else {
        entries_map(s.drop_last()).insert(s.last().0, s.last().1)
    }
}

/// No block hash occurs twice.
pub open spec fn keys_unique(s: Seq<EntryModel>) -> bool {
    forall|i: int, j: int| 0 <= i < j < s.len() ==> s[i].0 != s[j].0
}

/// The registry after a deferral of block `h` with outstanding events `evs`.
pub open spec fn deferred_after(m: RegistryModel, h: Seq<u8>, evs: Seq<Seq<u8>>, network_available: bool) -> RegistryModel {
    if network_available && !m.dom().contains(h) {
        m.insert(h, evs)
    } else {
        m
    }
}

/// What a deferral of block `h` asks of the lookup network.
pub open spec fn defer_action_of(m: RegistryModel, h: Seq<u8>, network_available: bool) -> DeferAction {
    if !network_available {
        DeferAction::NetworkUnavailable
    } else if m.dom().contains(h) {
        DeferAction::AlreadyDeferred
    } else {
        DeferAction::RequestLookup
    }
}

proof fn lemma_map_has(s: Seq<EntryModel>, k: Seq<u8>)
    ensures
        entries_map(s).dom().contains(k) <==> (exists|i: int| 0 <= i < s.len() && s[i].0 == k),
    decreases s.len(),
{
    if s.len() > 0 {
        let d = s.drop_last();
        lemma_map_has(d, k);
        if exists|i: int| 0 <= i < d.len() && d[i].0 == k {
            let i = choose|i: int| 0 <= i < d.len() && d[i].0 == k;
            assert(s[i].0 == k);
        }
        if exists|i: int| 0 <= i < s.len() && s[i].0 == k {
            let i = choose|i: int| 0 <= i < s.len() && s[i].0 == k;
            if i < s.len() - 1 {
                assert(d[i].0 == k);
            }
        }
    }
}

proof fn lemma_map_at(s: Seq<EntryModel>, i: int)
    requires
        keys_unique(s),
        0 <= i < s.len(),
    ensures
        entries_map(s).dom().contains(s[i].0),
        entries_map(s)[s[i].0] == s[i].1,
    decreases s.len(),
{
    if i < s.len() - 1 {
        let d = s.drop_last();
        assert(keys_unique(d));
        assert(d[i] == s[i]);
        lemma_map_at(d, i);
        assert(s.last().0 != s[i].0);
    }
}

proof fn lemma_map_push(s: Seq<EntryModel>, x: EntryModel)
    requires
        keys_unique(s),
        !entries_map(s).dom().contains(x.0),
    ensures
        keys_unique(s.push(x)),
        entries_map(s.push(x)) == entries_map(s).insert(x.0, x.1),
{
    assert(s.push(x).drop_last() =~= s);
    lemma_map_has(s, x.0);
    assert forall|i: int, j: int| 0 <= i < j < s.push(x).len() implies s.push(x)[i].0 != s.push(x)[j].0 by {
        if j == s.len() {
            assert(s[i].0 != x.0);
        }
    }
}

proof fn lemma_map_remove(s: Seq<EntryModel>, i: int)
    requires
        keys_unique(s),
        0 <= i < s.len(),
    ensures
        keys_unique(s.remove(i)),
        entries_map(s.remove(i)) == entries_map(s).remove(s[i].0),
    decreases s.len(),
{
    let k = s[i].0;
    let d = s.drop_last();
    assert(keys_unique(d));
    if i == s.len() - 1 {
        assert(s.remove(i) =~= d);
        lemma_map_has(d, k);
        assert(!entries_map(d).dom().contains(k));
        assert(entries_map(s).remove(k) =~= entries_map(d));
    } else {
        lemma_map_remove(d, i);
        assert(s.remove(i).drop_last() =~= d.remove(i));
        assert(s.remove(i).last() == s.last());
        assert(s.last().0 != k);
        assert(entries_map(s.remove(i)) =~= entries_map(s).remove(k));
        assert forall|a: int, b: int| 0 <= a < b < s.remove(i).len() implies s.remove(i)[a].0 != s.remove(i)[b].0 by {
            let a2 = if a < i { a } else { a + 1 };
            let b2 = if b < i { b } else { b + 1 };
            assert(s.remove(i)[a] == s[a2]);
            assert(s.remove(i)[b] == s[b2]);
        }
    }
}

/// A copy of a sequence of hashes.
fn copy_hashes(v: &Vec<Hash256>) -> (r: Vec<Hash256>)
    ensures
        hashes_view(r@) == hashes_view(v@),
{
    let mut r: Vec<Hash256> = Vec::new();
    let mut i: usize = 0;
    while i < v.len()
        invariant
            i <= v.len(),
            r@.len() == i,
            forall|k: int| 0 <= k < i ==> r@[k]@ == v@[k]@,
        decreases v.len() - i,
    {
        let h = v[i].duplicate();
        r.push(h);
        i += 1;
    }
    assert(hashes_view(r@) =~= hashes_view(v@));
    r
}

/// Blocks awaiting proofs, each with the events it still lacks a quorum for.
pub struct DefferedBlocks {
    inner: Vec<DeferredEntry>,
}

impl View for DefferedBlocks {
    type V = RegistryModel;

    closed spec fn view(&self) -> RegistryModel {
        entries_map(entry_views(self.inner@))
    }
}

impl DefferedBlocks {
    #[verifier::type_invariant]
    spec fn inv(&self) -> bool {
        keys_unique(entry_views(self.inner@))
    }

    /// An empty registry.
    pub fn new() -> (r: DefferedBlocks)
        ensures
            r@ == RegistryModel::empty(),
    {
        DefferedBlocks { inner: Vec::new() }
    }

    /// The index of the entry for block `h`, if there is one.
    fn find(&self, h: &Vec<u8>) -> (r: Option<usize>)
        ensures
            match r {
                Some(i) => i < self.inner@.len() && self.inner@[i as int].block@ == h@ && self@.dom().contains(h@) && self@[h@] == entry_views(self.inner@)[i as int].1,
                None => !self@.dom().contains(h@),
            },
    {
        proof {
            use_type_invariant(self);
        }
        let ghost s = entry_views(self.inner@);
        let mut i: usize = 0;
        while i < self.inner.len()
            invariant
                i <= self.inner.len(),
                s == entry_views(self.inner@),
                keys_unique(s),
                forall|k: int| 0 <= k < i ==> s[k].0 != h@,
            decreases self.inner.len() - i,
        {
            if crate::hash::bytes_eq(&self.inner[i].block.bytes, h) {
                proof {
                    lemma_map_at(s, i as int);
                }
                return Some(i);
            }
            i += 1;
        }
        proof {
            lemma_map_has(s, h@);
        }
        None
    }

    /// Whether block `h` is deferred.
    pub fn contains(&self, h: &Hash256) -> (r: bool)
        ensures
            r == self@.dom().contains(h@),
    {
        self.find(&h.bytes).is_some()
    }

    /// The outstanding events of block `h`, if it is deferred.
    pub fn unwitnessed_of(&self, h: &Hash256) -> (r: Option<Vec<Hash256>>)
        ensures
            r.is_some() == self@.dom().contains(h@),
            r.is_some() ==> hashes_view(r.unwrap()@) == self@[h@],
    {
        match self.find(&h.bytes) {
            Some(i) => Some(copy_hashes(&self.inner[i].unwitnessed)),
            None => None,
        }
    }

    /// Defers block `block_hash` with its outstanding events. Only with a bound lookup
    /// network, and only the first time for a given block, is an entry made and a
    /// lookup requested; otherwise the registry is left as it is.
    pub fn deffer_block(&mut self, block_hash: &Hash256, unwitnessed_events: &Vec<Hash256>, network_available: bool) -> (r: DeferAction)
        ensures
            final(self)@ == deferred_after(old(self)@, block_hash@, hashes_view(unwitnessed_events@), network_available),
            r == defer_action_of(old(self)@, block_hash@, network_available),
    {
        proof {
            use_type_invariant(&*self);
        }
        if !network_available {
            return DeferAction::NetworkUnavailable;
        }
        if self.find(&block_hash.bytes).is_some() {
            return DeferAction::AlreadyDeferred;
        }
        let entry = DeferredEntry { block: block_hash.duplicate(), unwitnessed: copy_hashes(unwitnessed_events) };
        let mut v: Vec<DeferredEntry> = Vec::new();
        std::mem::swap(&mut v, &mut self.inner);
        let ghost s = entry_views(v@);
        proof {
            lemma_map_push(s, entry@);
            assert(entry_views(v@.push(entry)) =~= s.push(entry@));
        }
        v.push(entry);
        self.inner = v;
        DeferAction::RequestLookup
    }

    /// Handles one value found on the lookup network under `key`: `proofs` is the
    /// decoded bundle (`None` where decoding failed) and `authorities` the authority
    /// set at the current best height (or the client's error where it could not be
    /// resolved). The
    /// deferral is removed exactly when the bundle verifies for all of its events.
    pub fn handle_found_proof(&mut self, key: &Vec<u8>, proofs: Option<ProofBundle>, authorities: &Result<Vec<Vec<u8>>, String>) -> (r: FoundOutcome)
        ensures
            (final(self)@, r) == found_step(old(self)@, key@, proofs, authorities_view(*authorities)),
    {
        proof {
            use_type_invariant(&*self);
        }
        let block = match Hash256::from_slice(key) {
            Some(h) => h,
            None => return FoundOutcome::BadKey,
        };
        let i = match self.find(&block.bytes) {
            Some(i) => i,
            None => return FoundOutcome::NotDeferred,
        };
        let bundle = match proofs {
            Some(b) => b,
            None => return FoundOutcome::Undecodable,
        };
        let auths = match authorities {
            Ok(a) => a,
            Err(m) => return FoundOutcome::AuthoritiesUnavailable(m.clone()),
        };
        let verdict = verify_proofs(&bundle, &self.inner[i].unwitnessed, auths);
        match verdict {
            Ok(true) => {
                let mut v: Vec<DeferredEntry> = Vec::new();
                std::mem::swap(&mut v, &mut self.inner);
                let ghost s = entry_views(v@);
                proof {
                    lemma_map_remove(s, i as int);
                    assert(entry_views(v@.remove(i as int)) =~= s.remove(i as int));
                }
                v.remove(i);
                self.inner = v;
                FoundOutcome::Completed(bundle)
            },
            Ok(false) => FoundOutcome::Insufficient,
            Err(e) => FoundOutcome::Rejected(e),
        }
    }

    /// Handles the values of one lookup-network notification, in the order delivered.
    pub fn handle_found_proofs(&mut self, values: Vec<(Vec<u8>, Option<ProofBundle>)>, authorities: &Result<Vec<Vec<u8>>, String>) -> (r: Vec<FoundOutcome>)
        ensures
            (final(self)@, r@) == found_fold(old(self)@, values@, authorities_view(*authorities), values@.len()),
    {
        let ghost all = values@;
        let ghost auths = authorities_view(*authorities);
        let mut rest = values;
        let mut out: Vec<FoundOutcome> = Vec::new();
        let mut i: usize = 0;
        assert(all.len() == rest.len());
        while rest.len() > 0
            invariant
                i + rest@.len() == all.len(),
                all.len() <= usize::MAX,
                rest@ == all.subrange(i as int, all.len() as int),
                auths == authorities_view(*authorities),
                (self@, out@) == found_fold(old(self)@, all, auths, i as nat),
            decreases rest.len(),
        {
            let (key, proofs) = rest.remove(0);
            assert(all[i as int] == (key, proofs));
            let o = self.handle_found_proof(&key, proofs, authorities);
            out.push(o);
            i += 1;
        }
        out
    }
}

/// Deferring the same block twice makes one entry, with the events of the first
/// deferral, and the second deferral requests no further lookup.
pub proof fn lemma_defer_twice(m: RegistryModel, h: Seq<u8>, evs1: Seq<Seq<u8>>, evs2: Seq<Seq<u8>>, network_available: bool)
    ensures
        deferred_after(deferred_after(m, h, evs1, network_available), h, evs2, network_available) == deferred_after(m, h, evs1, network_available),
        network_available ==> defer_action_of(deferred_after(m, h, evs1, network_available), h, network_available) == DeferAction::AlreadyDeferred,
        network_available ==> deferred_after(m, h, evs1, network_available).dom().contains(h),
        network_available && !m.dom().contains(h) ==> deferred_after(m, h, evs1, network_available)[h] == evs1,
{
}

/// The authority set as byte strings, if it was resolved.
pub open spec fn authorities_view(a: Result<Vec<Vec<u8>>, String>) -> Result<Seq<Seq<u8>>, String> {
    match a {
        Ok(v) => Ok(keys_view(v@)),
        Err(m) => Err(m),
    }
}

/// The registry and the outcome after a value is found under `key`.
pub open spec fn found_step(m: RegistryModel, key: Seq<u8>, proofs: Option<ProofBundle>, auths: Result<Seq<Seq<u8>>, String>) -> (RegistryModel, FoundOutcome) {
    if key.len() != HASH_LEN {
        (m, FoundOutcome::BadKey)
    } else if !m.dom().contains(key) {
        (m, FoundOutcome::NotDeferred)
    } else if proofs is None {
        (m, FoundOutcome::Undecodable)
    } else if auths is Err {
        (m, FoundOutcome::AuthoritiesUnavailable(auths->Err_0))
    } else {
        let o = found_verdict(verification(proofs->0@, m[key], auths->Ok_0), proofs->0);
        (if o is Completed { m.remove(key) } else { m }, o)
    }
}

/// The registry and the outcomes after the first `n` found values, handled in order.
pub open spec fn found_fold(m: RegistryModel, values: Seq<(Vec<u8>, Option<ProofBundle>)>, auths: Result<Seq<Seq<u8>>, String>, n: nat) -> (RegistryModel, Seq<FoundOutcome>)
    decreases n,
{
    if n == 0 {
        (m, Seq::empty())
    } else {
        let prev = found_fold(m, values, auths, (n - 1) as nat);
        let next = found_step(prev.0, values[n - 1].0@, values[n - 1].1, auths);
        (next.0, prev.1.push(next.1))
    }
}

/// The outcome for a deferred block whose bundle `b` got the verdict `v`.
pub open spec fn found_verdict(v: VerifyResult, b: ProofBundle) -> FoundOutcome {
    match v {
        Ok(true) => FoundOutcome::Completed(b),
        Ok(false) => FoundOutcome::Insufficient,
        Err(e) => FoundOutcome::Rejected(e),
    }
}

} // verus!
