//! Quorum verification of witness proof bundles.
use vstd::prelude::*;

use crate::hash::{bytes_eq, Hash256};
use crate::signature::{
    sr25519_accepts, sr25519_check, VerifyError, VerifyResult, PUBLIC_KEY_LEN, SIGNATURE_LEN,
};

verus! {

/// A validator key and a signature, by their byte encodings.
pub type WitnessModel = (Seq<u8>, Seq<u8>);

/// The witnesses of one event, in bundle order.
pub type WitnessesModel = Seq<WitnessModel>;

/// A bundle: event id bytes with the witnesses of that event, in bundle order.
pub type BundleModel = Seq<(Seq<u8>, WitnessesModel)>;

/// One witness: a validator's public key and its signature over the event id bytes.
#[derive(Clone, Debug, PartialEq, Eq)]
pub struct WitnessProof {
    pub validator: Vec<u8>,
    pub signature: Vec<u8>,
}

impl View for WitnessProof {
    type V = WitnessModel;

    open spec fn view(&self) -> WitnessModel {
        (self.validator@, self.signature@)
    }
}

/// The witnesses gathered for one event.
#[derive(Clone, Debug, PartialEq, Eq)]
pub struct EventProofs {
    pub event: Hash256,
    pub proofs: Vec<WitnessProof>,
}

impl View for EventProofs {
    type V = (Seq<u8>, WitnessesModel);

    open spec fn view(&self) -> (Seq<u8>, WitnessesModel) {
        (self.event@, self.proofs@.map_values(|p: WitnessProof| p@))
    }
}

/// A proof bundle: for each event, the witnesses gathered for it.
#[derive(Clone, Debug, PartialEq, Eq)]
pub struct ProofBundle {
    pub entries: Vec<EventProofs>,
}

impl View for ProofBundle {
    type V = BundleModel;

    open spec fn view(&self) -> BundleModel {
        self.entries@.map_values(|e: EventProofs| e@)
    }
}

/// The byte strings of a sequence of hashes.
pub open spec fn hashes_view(s: Seq<Hash256>) -> Seq<Seq<u8>> {
    s.map_values(|h: Hash256| h@)
}

/// The byte strings of a sequence of keys.
pub open spec fn keys_view(s: Seq<Vec<u8>>) -> Seq<Seq<u8>> {
    s.map_values(|k: Vec<u8>| k@)
}

/// Byzantine quorum for `n` authorities: `floor(2 * (n - 1) / 3) + 1` signatures. An
/// empty authority set can witness nothing; one signature is still asked for there.
pub open spec fn quorum_threshold_of(n: nat) -> nat {
    if n == 0 {
        1
    } else {
        ((2 * (n - 1)) / 3 + 1) as nat
    }
}

/// `i` is the first entry of the bundle for event `e`.
pub open spec fn first_entry(b: BundleModel, e: Seq<u8>, i: int) -> bool {
    &&& 0 <= i < b.len()
    &&& b[i].0 == e
    &&& forall|k: int| 0 <= k < i ==> b[k].0 != e
}

/// The witnesses a bundle holds for event `e` (in a well-formed bundle, its only entry for `e`).
pub open spec fn proofs_of(b: BundleModel, e: Seq<u8>) -> Option<WitnessesModel> {
    if exists|i: int| first_entry(b, e, i) {
        Some(b[choose|i: int| first_entry(b, e, i)].1)
    } else {
        None
    }
}

/// No validator signs twice among these witnesses.
pub open spec fn witnesses_unique(ps: WitnessesModel) -> bool {
    forall|j: int, k: int| 0 <= j < k < ps.len() ==> ps[j].0 != ps[k].0
}

/// No event has two entries.
pub open spec fn events_unique(b: BundleModel) -> bool {
    forall|i: int, k: int| 0 <= i < k < b.len() ==> b[i].0 != b[k].0
}

/// A well-formed bundle is a map: from event id to a map from validator to signature.
pub open spec fn bundle_wf(b: BundleModel) -> bool {
    &&& events_unique(b)
    &&& forall|i: int| 0 <= i < b.len() ==> witnesses_unique(#[trigger] b[i].1)
}

impl ProofBundle {
    /// No event occurs twice, and within one event no validator occurs twice.
    pub open spec fn wf(&self) -> bool {
        bundle_wf(self@)
    }
}

/// The signature (`signature == true`) or the key (`false`) of a witness is not a
/// valid sr25519 encoding.
pub open spec fn witness_malformed(w: WitnessModel, signature: bool) -> bool {
    if signature {
        w.1.len() != SIGNATURE_LEN
    } else {
        w.0.len() != PUBLIC_KEY_LEN
    }
}

/// Some witness of event `e` has a malformed signature (or key).
pub open spec fn entry_malformed(b: BundleModel, e: Seq<u8>, signature: bool) -> bool {
    match proofs_of(b, e) {
        None => false,
        Some(ps) => exists|j: int| 0 <= j < ps.len() && witness_malformed(#[trigger] ps[j], signature),
    }
}

/// Some witness of an outstanding event has a malformed signature (or key).
pub open spec fn malformed_in(b: BundleModel, evs: Seq<Seq<u8>>, signature: bool) -> bool {
    exists|i: int| 0 <= i < evs.len() && #[trigger] entry_malformed(b, evs[i], signature)
}

/// Every witness is signed by a member of the authority set.
pub open spec fn all_authorized(ps: WitnessesModel, auths: Seq<Seq<u8>>) -> bool {
    forall|j: int| 0 <= j < ps.len() ==> auths.contains(#[trigger] ps[j].0)
}

/// A witness with well-formed encodings whose signature verifies over `msg`.
pub open spec fn witness_valid(w: WitnessModel, msg: Seq<u8>) -> bool {
    &&& !witness_malformed(w, true)
    &&& !witness_malformed(w, false)
    &&& sr25519_accepts(w.0, msg, w.1)
}

/// Event `e` has at least `t` witnesses in the bundle, all of them authorities with
/// valid signatures.
pub open spec fn event_quorate(b: BundleModel, e: Seq<u8>, auths: Seq<Seq<u8>>, t: nat) -> bool {
    match proofs_of(b, e) {
        None => false,
        Some(ps) => {
            &&& all_authorized(ps, auths)
            &&& forall|j: int| 0 <= j < ps.len() ==> witness_valid(#[trigger] ps[j], e)
            &&& ps.len() >= t
        },
    }
}

/// Every outstanding event has a quorum of the authority set.
pub open spec fn all_quorate(b: BundleModel, evs: Seq<Seq<u8>>, auths: Seq<Seq<u8>>) -> bool {
    forall|i: int| 0 <= i < evs.len() ==> #[trigger] event_quorate(b, evs[i], auths, quorum_threshold_of(auths.len()))
}

/// The verdict on a bundle for the outstanding events `evs` under the authority set
/// `auths`. A bundle that is not a map, or that holds a malformed encoding under an
/// outstanding event, is a structural error; otherwise the verdict says whether every
/// outstanding event has a quorum.
pub open spec fn verification(b: BundleModel, evs: Seq<Seq<u8>>, auths: Seq<Seq<u8>>) -> VerifyResult {
    if !bundle_wf(b) {
        Err(VerifyError::DuplicateEntry)
    } else if malformed_in(b, evs, true) {
        Err(VerifyError::BadSignature)
    } else if malformed_in(b, evs, false) {
        Err(VerifyError::BadPublicKey)
    } else {
        Ok(all_quorate(b, evs, auths))
    }
}

proof fn lemma_first_entry(b: BundleModel, e: Seq<u8>, i: int)
    requires
        first_entry(b, e, i),
    ensures
        proofs_of(b, e) == Some(b[i].1),
{
    let k = choose|k: int| first_entry(b, e, k);
    assert(first_entry(b, e, k));
    if k < i {
        assert(b[k].0 != e);
    } else if k > i {
        assert(b[i].0 != e);
    }
}

proof fn lemma_entry_witness(b: BundleModel, e: Seq<u8>, j: int, signature: bool)
    requires
        proofs_of(b, e) is Some,
        0 <= j < proofs_of(b, e)->0.len(),
    ensures
        witness_malformed(proofs_of(b, e)->0[j], signature) ==> entry_malformed(b, e, signature),
{
    if witness_malformed(proofs_of(b, e)->0[j], signature) {
        let ps = proofs_of(b, e)->0;
        assert(0 <= j < ps.len() && witness_malformed(ps[j], signature));
    }
}

/// A well-formed bundle with well-formed encodings verifies exactly when every
/// outstanding event has at least `floor(2 * (n - 1) / 3) + 1` witnesses from the `n`
/// authorities, each with a valid signature: that many suffice and no more are required.
pub proof fn lemma_quorum_exact(b: BundleModel, evs: Seq<Seq<u8>>, auths: Seq<Seq<u8>>)
    requires
        bundle_wf(b),
        !malformed_in(b, evs, true),
        !malformed_in(b, evs, false),
    ensures
        verification(b, evs, auths) is Ok,
        verification(b, evs, auths) == VerifyResult::Ok(true) <==> (forall|i: int| 0 <= i < evs.len() ==> #[trigger] event_quorate(b, evs[i], auths, quorum_threshold_of(auths.len()))),
{
}

/// Verification fails with an error, rather than answering `false`, exactly when the
/// bundle is not a map or a witness of an outstanding event has a bad signature or
/// key encoding. A bundle that is a map never yields `DuplicateEntry`.
pub proof fn lemma_malformed_is_error(b: BundleModel, evs: Seq<Seq<u8>>, auths: Seq<Seq<u8>>)
    ensures
        verification(b, evs, auths) is Err <==> (!bundle_wf(b) || malformed_in(b, evs, true) || malformed_in(b, evs, false)),
        bundle_wf(b) ==> verification(b, evs, auths) != VerifyResult::Err(VerifyError::DuplicateEntry),
        malformed_in(b, evs, true) ==> verification(b, evs, auths) is Err,
        malformed_in(b, evs, false) ==> verification(b, evs, auths) is Err,
{
}

/// Verification is a function of its inputs: the same bundle, outstanding events and
/// authority set always give the same verdict.
pub proof fn lemma_verification_deterministic(b1: BundleModel, b2: BundleModel, evs1: Seq<Seq<u8>>, evs2: Seq<Seq<u8>>, auths1: Seq<Seq<u8>>, auths2: Seq<Seq<u8>>)
    requires
        b1 == b2,
        evs1 == evs2,
        auths1 == auths2,
    ensures
        verification(b1, evs1, auths1) == verification(b2, evs2, auths2),
{
}

/// A witness from a key outside the authority set makes the bundle fail for its event,
/// whatever other valid witnesses it holds: the verdict is `false` where the encodings
/// are well formed, and an error otherwise.
pub proof fn lemma_unknown_signer_fails(b: BundleModel, evs: Seq<Seq<u8>>, auths: Seq<Seq<u8>>, i: int, j: int)
    requires
        0 <= i < evs.len(),
        proofs_of(b, evs[i]) is Some,
        0 <= j < proofs_of(b, evs[i])->0.len(),
        !auths.contains(proofs_of(b, evs[i])->0[j].0),
    ensures
        verification(b, evs, auths) != VerifyResult::Ok(true),
        bundle_wf(b) && !malformed_in(b, evs, true) && !malformed_in(b, evs, false) ==> verification(b, evs, auths) == VerifyResult::Ok(false),
{
    assert(!event_quorate(b, evs[i], auths, quorum_threshold_of(auths.len())));
}

/// The quorum for an authority set of `n` members.
pub fn quorum_threshold(n: usize) -> (t: usize)
    ensures
        t == quorum_threshold_of(n as nat),
        n >= 1 ==> 1 <= t <= n,
{
    if n == 0 {
        return 1;
    }
    let m: usize = n - 1;
    let extra: usize = if m % 3 == 2 { 1 } else { 0 };
    assert(2 * (m / 3) + extra <= m);
    assert(2 * (m / 3) + extra == (2 * m) / 3);
    2 * (m / 3) + extra + 1
}

/// Whether `key` is one of `keys`.
fn contains_key(keys: &Vec<Vec<u8>>, key: &Vec<u8>) -> (r: bool)
    ensures
        r == keys_view(keys@).contains(key@),
{
    let mut i: usize = 0;
    while i < keys.len()
        invariant
            i <= keys.len(),
            forall|k: int| 0 <= k < i ==> keys@[k]@ != key@,
        decreases keys.len() - i,
    {
        if bytes_eq(&keys[i], key) {
            assert(keys_view(keys@)[i as int] == key@);
            return true;
        }
        i += 1;
    }
    assert(!keys_view(keys@).contains(key@)) by {
        if exists|k: int| 0 <= k < keys_view(keys@).len() && keys_view(keys@)[k] == key@ {
            let k = choose|k: int| 0 <= k < keys_view(keys@).len() && keys_view(keys@)[k] == key@;
            assert(keys@[k]@ == key@);
        }
    }
    false
}

/// The first entry of the bundle for `event`, if any.
fn find_event(proofs: &ProofBundle, event: &Hash256) -> (r: Option<usize>)
    ensures
        match r {
            Some(i) => first_entry(proofs@, event@, i as int) && proofs_of(proofs@, event@) == Some(proofs@[i as int].1),
            None => proofs_of(proofs@, event@) is None,
        },
{
    let mut i: usize = 0;
    while i < proofs.entries.len()
        invariant
            i <= proofs.entries.len(),
            forall|k: int| 0 <= k < i ==> proofs@[k].0 != event@,
        decreases proofs.entries.len() - i,
    {
        if proofs.entries[i].event.same(event) {
            proof {
                lemma_first_entry(proofs@, event@, i as int);
            }
            return Some(i);
        }
        i += 1;
    }
    assert(!exists|i: int| first_entry(proofs@, event@, i));
    None
}

/// Whether no validator occurs twice among `ps`.
fn witnesses_distinct(ps: &Vec<WitnessProof>) -> (r: bool)
    ensures
        r == witnesses_unique(ps@.map_values(|p: WitnessProof| p@)),
{
    let ghost s = ps@.map_values(|p: WitnessProof| p@);
    let mut k: usize = 0;
    while k < ps.len()
        invariant
            k <= ps.len(),
            s == ps@.map_values(|p: WitnessProof| p@),
            forall|x: int, y: int| 0 <= x < y < k ==> s[x].0 != s[y].0,
        decreases ps.len() - k,
    {
        let mut a: usize = 0;
        while a < k
            invariant
                a <= k < ps.len(),
                s == ps@.map_values(|p: WitnessProof| p@),
                forall|x: int| 0 <= x < a ==> s[x].0 != s[k as int].0,
            decreases k - a,
        {
            if bytes_eq(&ps[a].validator, &ps[k].validator) {
                assert(s[a as int].0 == s[k as int].0);
                return false;
            }
            a += 1;
        }
        assert forall|x: int, y: int| 0 <= x < y < k + 1 implies s[x].0 != s[y].0 by {
            if y < k {
            } else {
                assert(s[x].0 != s[k as int].0);
            }
        }
        k += 1;
    }
    true
}

/// Whether no event has two entries in the bundle.
fn events_distinct(proofs: &ProofBundle) -> (r: bool)
    ensures
        r == events_unique(proofs@),
{
    let ghost s = proofs@;
    let mut k: usize = 0;
    while k < proofs.entries.len()
        invariant
            k <= proofs.entries.len(),
            s == proofs@,
            forall|x: int, y: int| 0 <= x < y < k ==> s[x].0 != s[y].0,
        decreases proofs.entries.len() - k,
    {
        let mut a: usize = 0;
        while a < k
            invariant
                a <= k < proofs.entries.len(),
                s == proofs@,
                forall|x: int| 0 <= x < a ==> s[x].0 != s[k as int].0,
            decreases k - a,
        {
            if proofs.entries[a].event.same(&proofs.entries[k].event) {
                assert(s[a as int].0 == s[k as int].0);
                return false;
            }
            a += 1;
        }
        assert forall|x: int, y: int| 0 <= x < y < k + 1 implies s[x].0 != s[y].0 by {
            if y < k {
            } else {
                assert(s[x].0 != s[k as int].0);
            }
        }
        k += 1;
    }
    true
}

/// Whether the bundle is a map (see `bundle_wf`).
fn bundle_is_wf(proofs: &ProofBundle) -> (r: bool)
    ensures
        r == bundle_wf(proofs@),
{
    if !events_distinct(proofs) {
        return false;
    }
    let mut i: usize = 0;
    while i < proofs.entries.len()
        invariant
            i <= proofs.entries.len(),
            events_unique(proofs@),
            forall|k: int| 0 <= k < i ==> witnesses_unique(#[trigger] proofs@[k].1),
        decreases proofs.entries.len() - i,
    {
        let ok = witnesses_distinct(&proofs.entries[i].proofs);
        assert(proofs@[i as int].1 == proofs.entries@[i as int].proofs@.map_values(|p: WitnessProof| p@));
        if !ok {
            return false;
        }
        i += 1;
    }
    true
}

/// Whether some witness of `event` has a malformed signature (or key).
fn entry_has_malformed(proofs: &ProofBundle, event: &Hash256, signature: bool) -> (r: bool)
    ensures
        r == entry_malformed(proofs@, event@, signature),
{
    match find_event(proofs, event) {
        None => false,
        Some(i) => {
            let ps = &proofs.entries[i].proofs;
            let ghost psv = ps@.map_values(|p: WitnessProof| p@);
            assert(proofs@[i as int].1 == psv);
            let mut j: usize = 0;
            while j < ps.len()
                invariant
                    j <= ps.len(),
                    psv == ps@.map_values(|p: WitnessProof| p@),
                    proofs_of(proofs@, event@) == Some(psv),
                    forall|l: int| 0 <= l < j ==> !witness_malformed(#[trigger] psv[l], signature),
                decreases ps.len() - j,
            {
                let bad = if signature {
                    ps[j].signature.len() != 64
                } else {
                    ps[j].validator.len() != 32
                };
                assert(bad == witness_malformed(psv[j as int], signature));
                proof {
                    lemma_entry_witness(proofs@, event@, j as int, signature);
                }
                if bad {
                    return true;
                }
                j += 1;
            }
            false
        },
    }
}

/// Whether some witness of an outstanding event has a malformed signature (or key).
fn any_malformed(proofs: &ProofBundle, events: &Vec<Hash256>, signature: bool) -> (r: bool)
    ensures
        r == malformed_in(proofs@, hashes_view(events@), signature),
{
    let ghost evs = hashes_view(events@);
    let mut i: usize = 0;
    while i < events.len()
        invariant
            i <= events.len(),
            evs == hashes_view(events@),
            forall|k: int| 0 <= k < i ==> !#[trigger] entry_malformed(proofs@, evs[k], signature),
        decreases events.len() - i,
    {
        let bad = entry_has_malformed(proofs, &events[i], signature);
        assert(evs[i as int] == events@[i as int]@);
        if bad {
            assert(entry_malformed(proofs@, evs[i as int], signature));
            return true;
        }
        i += 1;
    }
    false
}

/// Whether `event` has a quorum of `target` valid witnesses from the authorities,
/// for a bundle whose witnesses of `event` are well formed.
fn event_has_quorum(proofs: &ProofBundle, event: &Hash256, authorities: &Vec<Vec<u8>>, target: usize) -> (r: bool)
    requires
        !entry_malformed(proofs@, event@, true),
        !entry_malformed(proofs@, event@, false),
    ensures
        r == event_quorate(proofs@, event@, keys_view(authorities@), target as nat),
{
    let ghost auths = keys_view(authorities@);
    match find_event(proofs, event) {
        None => false,
        Some(i) => {
            let ps = &proofs.entries[i].proofs;
            let ghost psv = ps@.map_values(|p: WitnessProof| p@);
            assert(proofs@[i as int].1 == psv);
            let mut j: usize = 0;
            while j < ps.len()
                invariant
                    j <= ps.len(),
                    psv == ps@.map_values(|p: WitnessProof| p@),
                    proofs_of(proofs@, event@) == Some(psv),
                    auths == keys_view(authorities@),
                    forall|l: int| 0 <= l < j ==> auths.contains(#[trigger] psv[l].0),
                decreases ps.len() - j,
            {
                if !contains_key(authorities, &ps[j].validator) {
                    assert(psv[j as int].0 == ps@[j as int].validator@);
                    assert(!all_authorized(psv, auths));
                    return false;
                }
                j += 1;
            }
            let msg = event.as_bytes();
            let mut j: usize = 0;
            while j < ps.len()
                invariant
                    j <= ps.len(),
                    psv == ps@.map_values(|p: WitnessProof| p@),
                    proofs_of(proofs@, event@) == Some(psv),
                    !entry_malformed(proofs@, event@, true),
                    !entry_malformed(proofs@, event@, false),
                    all_authorized(psv, auths),
                    auths == keys_view(authorities@),
                    msg@ == event@,
                    forall|l: int| 0 <= l < j ==> witness_valid(#[trigger] psv[l], event@),
                decreases ps.len() - j,
            {
                proof {
                    lemma_entry_witness(proofs@, event@, j as int, true);
                    lemma_entry_witness(proofs@, event@, j as int, false);
                }
                let checked = sr25519_check(&ps[j].validator, &ps[j].signature, msg);
                match checked {
                    Ok(true) => {},
                    _ => {
                        assert(!witness_valid(psv[j as int], event@));
                        return false;
                    },
                }
                j += 1;
            }
            ps.len() >= target
        },
    }
}

/// Verifies a proof bundle for the outstanding events against the authority set.
/// A bundle that is not a map, or a malformed signature or key under an outstanding
/// event, is an error; otherwise the result is `Ok(true)` exactly when every
/// outstanding event has a quorum of valid witnesses, all from authorities.
pub fn verify_proofs(proofs: &ProofBundle, unwitnessed_events: &Vec<Hash256>, authorities: &Vec<Vec<u8>>) -> (r: VerifyResult)
    ensures
        r == verification(proofs@, hashes_view(unwitnessed_events@), keys_view(authorities@)),
        proofs.wf() <==> r != VerifyResult::Err(VerifyError::DuplicateEntry),
{
    let ghost evs = hashes_view(unwitnessed_events@);
    let ghost auths = keys_view(authorities@);
    if !bundle_is_wf(proofs) {
        return Err(VerifyError::DuplicateEntry);
    }
    if any_malformed(proofs, unwitnessed_events, true) {
        return Err(VerifyError::BadSignature);
    }
    if any_malformed(proofs, unwitnessed_events, false) {
        return Err(VerifyError::BadPublicKey);
    }
    let target = quorum_threshold(authorities.len());
    let mut i: usize = 0;
    while i < unwitnessed_events.len()
        invariant
            i <= unwitnessed_events.len(),
            evs == hashes_view(unwitnessed_events@),
            auths == keys_view(authorities@),
            target == quorum_threshold_of(auths.len()),
            bundle_wf(proofs@),
            !malformed_in(proofs@, evs, true),
            !malformed_in(proofs@, evs, false),
            forall|k: int| 0 <= k < i ==> #[trigger] event_quorate(proofs@, evs[k], auths, target as nat),
        decreases unwitnessed_events.len() - i,
    {
        assert(evs[i as int] == unwitnessed_events@[i as int]@);
        assert(!entry_malformed(proofs@, evs[i as int], true));
        assert(!entry_malformed(proofs@, evs[i as int], false));
        if !event_has_quorum(proofs, &unwitnessed_events[i], authorities, target) {
            assert(!all_quorate(proofs@, evs, auths));
            return Ok(false);
        }
        i += 1;
    }
    Ok(true)
}

} // verus!
