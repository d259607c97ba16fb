//! The registry of live flows: a concurrent map from address key to the
//! flow's I/O handle (a channel sender on the host, the client's write half
//! on the instance) and its cancellation token. Many tasks share it, so what
//! it holds can change between any two calls; each call states only what
//! holds of its own result.
use crate::frame::ADDR_KEY_SIZE;
use dashmap::DashMap;
use tokio_util::sync::CancellationToken;
use vstd::prelude::*;

verus! {

/// dashmap's sharded concurrent map, held opaque.
#[verifier::external_type_specification]
#[verifier::external_body]
#[verifier::reject_recursive_types(K)]
#[verifier::reject_recursive_types(V)]
#[verifier::reject_recursive_types(S)]
pub struct ExDashMap<K, V, S>(DashMap<K, V, S>);

/// tokio-util's cancellation token, held opaque.
#[verifier::external_type_specification]
#[verifier::external_body]
pub struct ExCancellationToken(CancellationToken);

/// Relies on `CancellationToken::cancel`: fires the token and every clone
/// of it; firing it again does nothing.
pub assume_specification[ CancellationToken::cancel ](token: &CancellationToken);

/// One flow in the registry.
pub struct FlowEntry<T> {
    pub io: T,
    pub token: CancellationToken,
}

/// The flows of one bridge, by address key.
#[verifier::reject_recursive_types(T)]
pub struct Registry<T> {
    map: DashMap<[u8; ADDR_KEY_SIZE], FlowEntry<T>>,
}

/// Relies on `DashMap::new`: an empty map.
#[verifier::external_body]
fn map_new<T>() -> DashMap<[u8; ADDR_KEY_SIZE], FlowEntry<T>> {
    DashMap::new()
}

/// Relies on `DashMap::insert`: stores the entry under the key, dropping
/// any earlier one.
#[verifier::external_body]
fn map_insert<T>(
    map: &DashMap<[u8; ADDR_KEY_SIZE], FlowEntry<T>>,
    key: [u8; ADDR_KEY_SIZE],
    entry: FlowEntry<T>,
) {
    map.insert(key, entry);
}

/// Relies on `DashMap::contains_key`: whether the key was present.
#[verifier::external_body]
fn map_contains<T>(map: &DashMap<[u8; ADDR_KEY_SIZE], FlowEntry<T>>, key: &[u8; ADDR_KEY_SIZE]) -> bool {
    map.contains_key(key)
}

/// Relies on `DashMap::remove`: takes out the entry of the key, if any.
#[verifier::external_body]
fn map_remove<T>(
    map: &DashMap<[u8; ADDR_KEY_SIZE], FlowEntry<T>>,
    key: &[u8; ADDR_KEY_SIZE],
) -> Option<FlowEntry<T>> {
    map.remove(key).map(|(_, entry)| entry)
}

/// Relies on `DashMap::get`: clones of the I/O handle and token of the
/// key's entry, if any. The read guard is dropped before returning, so no
/// later call on the map can deadlock on it.
#[verifier::external_body]
fn map_get<T: Clone>(
    map: &DashMap<[u8; ADDR_KEY_SIZE], FlowEntry<T>>,
    key: &[u8; ADDR_KEY_SIZE],
) -> Option<(T, CancellationToken)> {
    map.get(key).map(|entry| (entry.io.clone(), entry.token.clone()))
}

/// Relies on `DashMap::iter`: the keys present while the shards were walked.
#[verifier::external_body]
fn map_keys<T>(map: &DashMap<[u8; ADDR_KEY_SIZE], FlowEntry<T>>) -> Vec<[u8; ADDR_KEY_SIZE]> {
    map.iter().map(|entry| *entry.key()).collect()
}

/// Relies on `DashMap::len`: the number of entries.
#[verifier::external_body]
fn map_len<T>(map: &DashMap<[u8; ADDR_KEY_SIZE], FlowEntry<T>>) -> usize {
    map.len()
}

impl<T> Registry<T> {
    /// An empty registry.
    pub fn new() -> Self {
        Registry { map: map_new() }
    }

    /// Registers a flow under its key, before its tasks start.
    pub fn register(&self, key: [u8; ADDR_KEY_SIZE], io: T, token: CancellationToken) {
        map_insert(&self.map, key, FlowEntry { io, token });
    }

    /// Whether a flow is registered under the key.
    pub fn contains(&self, key: &[u8; ADDR_KEY_SIZE]) -> bool {
        map_contains(&self.map, key)
    }

    /// The number of registered flows.
    pub fn len(&self) -> usize {
        map_len(&self.map)
    }

    /// A clone of the I/O handle registered under the key.
    pub fn io_of(&self, key: &[u8; ADDR_KEY_SIZE]) -> Option<T> where T: Clone {
        match map_get(&self.map, key) {
            Some((io, _)) => Some(io),
            None => None,
        }
    }

    /// Ends a flow: removes its entry, cancels its token, and hands back its
    /// I/O handle for the caller to close. Running it twice does nothing more.
    pub fn clean_up(&self, key: &[u8; ADDR_KEY_SIZE]) -> (r: Option<T>) {
        match map_remove(&self.map, key) {
            Some(entry) => {
                entry.token.cancel();
                Some(entry.io)
            },
            None => None,
        }
    }

    /// Cancels every registered flow and leaves the entries in place: each
    /// flow's tasks remove their own entry as they exit. Returns how many
    /// tokens it cancelled.
    pub fn cancel_all(&self) -> (r: usize) where T: Clone {
        let keys = map_keys(&self.map);
        let mut cancelled: usize = 0;
        let mut i: usize = 0;
        while i < keys.len()
            invariant
                cancelled <= i <= keys@.len(),
            decreases keys@.len() - i,
        {
            if let Some((_, token)) = map_get(&self.map, &keys[i]) {
                token.cancel();
                cancelled = cancelled + 1;
            }
            i = i + 1;
        }
        cancelled
    }

    /// Ends every registered flow: removes each entry, cancels its token,
    /// and hands back the I/O handles for the caller to close.
    pub fn drain(&self) -> (r: Vec<T>) {
        let keys = map_keys(&self.map);
        let mut handles: Vec<T> = Vec::new();
        let mut i: usize = 0;
        while i < keys.len()
            invariant
                handles@.len() <= i <= keys@.len(),
            decreases keys@.len() - i,
        {
            if let Some(io) = self.clean_up(&keys[i]) {
                handles.push(io);
            }
            i = i + 1;
        }
        handles
    }
}

} // verus!
