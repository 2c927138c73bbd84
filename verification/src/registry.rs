//! Connections: an alias for each peer DID, kept in both directions.

use vstd::prelude::*;
use crate::errors::{Role, WalletError};
use crate::paths::{did_path, in_dir, name_path, DIDS_DIR, NAMES_DIR};
use crate::store::{connected, leads, mirrored, WalletStore, WalletView};
use crate::text::same_text;

verus! {

/// What `connect` did for an alias.
pub enum Connection {
    /// The alias was free.
    Created,
    /// The alias stood for this DID before.
    Replaced(String),
}

/// What `connect` wrote, what it did for the alias, and what it forgot.
pub struct Connected {
    /// Where the DID of the alias is kept.
    pub name_path: String,
    /// Where the alias of the DID is kept.
    pub did_path: String,
    pub outcome: Connection,
    /// The other alias under which the DID was known before, and is no more.
    pub forgotten: Option<String>,
}

/// The other alias that a DID led to before it was connected to `alias`.
pub open spec fn forgotten_alias(store: WalletView, alias: Seq<char>, did: Seq<char>) -> Option<Seq<char>> {
    if store.dids.contains_key(did) && store.dids[did] != alias {
        Some(store.dids[did])
    } else {
        None
    }
}

/// The DID that an alias leads to.
pub open spec fn resolved_did(store: WalletView, alias: Seq<char>) -> Result<Seq<char>, WalletError> {
    if store.names.contains_key(alias) {
        Ok(store.names[alias])
    } else {
        Err(WalletError::UnknownConnection(Role::Peer))
    }
}

/// The alias that a DID leads to, or the DID itself where it leads to none.
pub open spec fn resolved_alias(store: WalletView, did: Seq<char>) -> Seq<char> {
    if store.dids.contains_key(did) {
        store.dids[did]
    } else {
        did
    }
}

/// Connects `alias` and `did`. The last connection wins: the DID that the
/// alias led to before is handed back and leads nowhere any more, and the
/// alias that the DID led to before is forgotten.
pub fn connect(store: &mut WalletStore, alias: &str, did: &str) -> (done: Connected)
    requires
        old(store).wf(),
    ensures
        final(store).wf(),
        final(store)@ == connected(old(store)@, alias@, did@),
        done.name_path@ == in_dir(NAMES_DIR@, alias@),
        done.did_path@ == in_dir(DIDS_DIR@, did@),
        match done.outcome {
            Connection::Created => !old(store)@.names.contains_key(alias@),
            Connection::Replaced(before) => old(store)@.names.contains_key(alias@) && old(store)@.names[alias@]
                == before@,
        },
        match done.forgotten {
            Some(other) => forgotten_alias(old(store)@, alias@, did@) == Some(other@),
            None => forgotten_alias(old(store)@, alias@, did@) is None,
        },
{
    let (did_before, alias_before) = store.link(alias, did);
    let outcome = match did_before {
        Some(did_before) => Connection::Replaced(did_before),
        None => Connection::Created,
    };
    let forgotten = match alias_before {
        Some(other) => {
            if same_text(other.as_str(), alias) {
                None
            } else {
                Some(other)
            }
        },
        None => None,
    };
    Connected { name_path: name_path(alias), did_path: did_path(did), outcome, forgotten }
}

/// The DID of the connection `alias`.
pub fn resolve_did(store: &WalletStore, alias: &str) -> (did: Result<String, WalletError>)
    requires
        store.wf(),
    ensures
        match did {
            Ok(d) => resolved_did(store@, alias@) == Ok::<Seq<char>, WalletError>(d@),
            Err(e) => resolved_did(store@, alias@) == Err::<Seq<char>, WalletError>(e),
        },
{
    match store.names().get(alias) {
        Some(did) => Ok(did),
        None => Err(WalletError::UnknownConnection(Role::Peer)),
    }
}

/// The alias under which `did` is known, or `did` itself.
pub fn resolve_alias(store: &WalletStore, did: &str) -> (alias: String)
    requires
        store.wf(),
    ensures
        alias@ == resolved_alias(store@, did@),
{
    match store.dids().get(did) {
        Some(alias) => alias,
        None => did.to_owned(),
    }
}

/// After `alias` and `did` are connected, the alias resolves to the DID and
/// the DID resolves to the alias.
pub proof fn lemma_connection_symmetry(store: WalletView, alias: Seq<char>, did: Seq<char>)
    ensures
        resolved_did(connected(store, alias, did), alias) == Ok::<Seq<char>, WalletError>(did),
        resolved_alias(connected(store, alias, did), did) == alias,
{
}

/// Connecting leaves every alias and every DID as it was that it does not
/// name and that did not lead to what it names.
pub proof fn lemma_connection_frame(
    store: WalletView,
    alias: Seq<char>,
    did: Seq<char>,
    other_alias: Seq<char>,
    other_did: Seq<char>,
)
    requires
        other_alias != alias,
        other_did != did,
        !leads(store.dids, did, other_alias),
        !leads(store.names, alias, other_did),
    ensures
        resolved_did(connected(store, alias, did), other_alias) == resolved_did(store, other_alias),
        resolved_alias(connected(store, alias, did), other_did) == resolved_alias(store, other_did),
{
}

/// Every alias has one DID and every DID one alias, after every connection:
/// an alias resolves to a DID exactly if that DID resolves to that alias.
pub proof fn lemma_connections_mirror(store: WalletView, alias: Seq<char>, did: Seq<char>)
    requires
        mirrored(store),
    ensures
        mirrored(connected(store, alias, did)),
        forall|a: Seq<char>, d: Seq<char>|
            resolved_did(connected(store, alias, did), a) == Ok::<Seq<char>, WalletError>(d) <==> leads(
                #[trigger] connected(store, alias, did).dids,
                d,
                a,
            ),
{
    crate::store::lemma_connected_mirrors(store, alias, did);
    let after = connected(store, alias, did);
    assert forall|a: Seq<char>, d: Seq<char>|
        resolved_did(after, a) == Ok::<Seq<char>, WalletError>(d) <==> leads(after.dids, d, a) by {
        assert(leads(after.names, a, d) <==> leads(after.dids, d, a));
    }
}

/// An alias that is connected anew takes its name away from the DID it led
/// to: that DID is known under no alias any more, and resolves to itself.
pub proof fn lemma_reconnected_alias_leaves_no_trace(
    store: WalletView,
    alias: Seq<char>,
    first: Seq<char>,
    second: Seq<char>,
)
    requires
        mirrored(store),
        first != second,
    ensures
        ({
            let after = connected(connected(store, alias, first), alias, second);
            &&& resolved_did(after, alias) == Ok::<Seq<char>, WalletError>(second)
            &&& resolved_alias(after, second) == alias
            &&& !after.dids.contains_key(first)
            &&& resolved_alias(after, first) == first
        }),
{
}

/// A connection stays until a later one names its alias or its DID: where
/// neither is named, the alias still resolves to the DID and the DID to the
/// alias.
pub proof fn lemma_connection_stays(
    store: WalletView,
    alias: Seq<char>,
    did: Seq<char>,
    other_alias: Seq<char>,
    other_did: Seq<char>,
)
    requires
        mirrored(store),
        leads(store.names, other_alias, other_did),
        other_alias != alias,
        other_did != did,
    ensures
        resolved_did(connected(store, alias, did), other_alias) == Ok::<Seq<char>, WalletError>(other_did),
        resolved_alias(connected(store, alias, did), other_did) == other_alias,
{
    assert(leads(store.dids, other_did, other_alias));
    if store.dids.contains_key(did) && store.dids[did] == other_alias {
        assert(leads(store.dids, did, other_alias));
        assert(leads(store.names, other_alias, did));
    }
    if store.names.contains_key(alias) && store.names[alias] == other_did {
        assert(leads(store.names, alias, other_did));
        assert(leads(store.dids, other_did, alias));
    }
}

} // verus!
