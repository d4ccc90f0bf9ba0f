//! Decisions of the import interceptor: delegate a block to the inner import stage,
//! defer it until its events are witnessed, or fail the attempt.
use vstd::prelude::*;

use crate::hash::{lookup_key_of, Hash256};
use crate::quorum::hashes_view;
use crate::registry::{defer_action_of, deferred_after, DeferAction, DefferedBlocks};

verus! {

/// Why an import attempt failed.
#[derive(Clone, Debug, PartialEq, Eq)]
pub enum ImportError {
    /// The block references events that lack a quorum. It has been handed to the
    /// registry; the import is to be retried once the proofs have arrived.
    UnwitnessedEvents,
    /// An error of the inner import stage or of the client, with its message.
    ClientImport(String),
}

/// What to do with a block that carries a transaction body, once the events
/// lacking a quorum are known.
#[derive(Clone, Debug, PartialEq, Eq)]
pub enum ImportDecision {
    /// Every event is witnessed: hand the block to the inner import stage.
    Delegate,
    /// Some events lack a quorum: the block was deferred (with this request to the
    /// lookup network) and the attempt fails with `ImportError::UnwitnessedEvents`.
    Deferred(DeferAction),
    /// The events could not be checked: the attempt fails with this error.
    Failed(ImportError),
}

/// How an attempt ends once the inner import stage has answered.
#[derive(Debug, PartialEq, Eq)]
pub struct ImportCompletion<R> {
    /// What the attempt reports.
    pub result: Result<R, ImportError>,
    /// The lookup key to publish the block's proofs under, if they are to be published.
    pub publish_under: Option<Vec<u8>>,
}

/// An answer of the inner import stage as the interceptor reports it.
pub open spec fn inner_mapped<R>(inner: Result<R, String>) -> Result<R, ImportError> {
    match inner {
        Ok(v) => Ok(v),
        Err(m) => Err(ImportError::ClientImport(m)),
    }
}

/// Reports an answer of the inner stage: its errors become client-import errors
/// carrying the inner message. This is all a block check does, and all a
/// header-only import does.
pub fn check_block<R>(inner: Result<R, String>) -> (r: Result<R, ImportError>)
    ensures
        r == inner_mapped(inner),
{
    match inner {
        Ok(v) => Ok(v),
        Err(m) => Err(ImportError::ClientImport(m)),
    }
}

/// Whether the events of a block are to be checked: only a block with a body
/// references events; a header-only import goes straight to the inner stage.
pub fn needs_event_check(has_body: bool) -> (r: bool)
    ensures
        r == has_body,
{
    has_body
}

/// The event ids of a block's body. Where extraction failed the block is taken to
/// reference no events, which admits it.
pub fn extracted_event_ids(extracted: Option<Vec<Hash256>>) -> (r: Vec<Hash256>)
    ensures
        extracted.is_some() ==> r == extracted.unwrap(),
        extracted.is_none() ==> r@.len() == 0,
{
    match extracted {
        Some(ids) => ids,
        None => Vec::new(),
    }
}

/// Decides on a block with a body, given which of its events lack a quorum (or the
/// error of the event service). With outstanding events the block is deferred in
/// the registry; with none it is delegated; an error fails the attempt.
pub fn decide_import(deffered_blocks: &mut DefferedBlocks, block_hash: &Hash256, unwitnessed: Result<Vec<Hash256>, String>, network_available: bool) -> (r: ImportDecision)
    ensures
        unwitnessed.is_err() ==> r == ImportDecision::Failed(ImportError::ClientImport(unwitnessed->Err_0)) && final(deffered_blocks)@ == old(deffered_blocks)@,
        unwitnessed.is_ok() && unwitnessed->Ok_0@.len() == 0 ==> r == ImportDecision::Delegate && final(deffered_blocks)@ == old(deffered_blocks)@,
        unwitnessed.is_ok() && unwitnessed->Ok_0@.len() > 0 ==> r == ImportDecision::Deferred(defer_action_of(old(deffered_blocks)@, block_hash@, network_available)),
        unwitnessed.is_ok() && unwitnessed->Ok_0@.len() > 0 ==> final(deffered_blocks)@ == deferred_after(old(deffered_blocks)@, block_hash@, hashes_view(unwitnessed->Ok_0@), network_available),
{
    match unwitnessed {
        Err(m) => ImportDecision::Failed(ImportError::ClientImport(m)),
        Ok(ids) => {
            if ids.len() == 0 {
                ImportDecision::Delegate
            } else {
                let action = deffered_blocks.deffer_block(block_hash, &ids, network_available);
                ImportDecision::Deferred(action)
            }
        },
    }
}

/// The key to publish the proofs of block `block_hash` under, where a lookup network
/// is bound; publication is skipped otherwise.
pub fn provide_block_proofs(network_available: bool, block_hash: &Hash256) -> (r: Option<Vec<u8>>)
    ensures
        network_available ==> r.is_some() && r.unwrap()@ == lookup_key_of(block_hash@),
        !network_available ==> r.is_none(),
{
    if network_available {
        Some(block_hash.lookup_key())
    } else {
        None
    }
}

/// Ends an attempt that was delegated after an event check: the inner stage's answer
/// is reported, and on success the block's proofs are published where a lookup
/// network is bound. Success is reported whether or not they can be published.
pub fn finish_import<R>(inner: Result<R, String>, block_hash: &Hash256, network_available: bool) -> (r: ImportCompletion<R>)
    ensures
        r.result == inner_mapped(inner),
        inner.is_ok() && network_available ==> r.publish_under.is_some() && r.publish_under.unwrap()@ == lookup_key_of(block_hash@),
        !(inner.is_ok() && network_available) ==> r.publish_under.is_none(),
{
    let ok = inner.is_ok();
    let result = check_block(inner);
    let publish_under = if ok {
        provide_block_proofs(network_available, block_hash)
    } else {
        None
    };
    ImportCompletion { result, publish_under }
}

} // verus!
