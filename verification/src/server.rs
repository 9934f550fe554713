//! The checked core of the node server: its configuration and identity, and
//! the address-table logic its run loop relies on.  The run loop itself —
//! sockets, channels and retries — lives in the surrounding driver; it hands
//! plain configuration values in and takes plain addresses back.

use vstd::prelude::*;

verus! {

/// One node's identity in the cluster.
pub type UniqueId = u64;

/// One node's network address: an IPv4 address as its 32-bit value, and a
/// port.
#[derive(Clone, Copy, PartialEq, Eq, Structural, Debug)]
pub struct NodeAddress {
    pub ip: u32,
    pub port: u16,
}

/// The cluster configuration: each node's identity and address, in file
/// order.
pub type GlobalConfig = Vec<(UniqueId, NodeAddress)>;

/// The first configuration entry of node `id`.
pub open spec fn spec_config_lookup(entries: Seq<(UniqueId, NodeAddress)>, id: UniqueId) -> Option<
    NodeAddress,
>
    decreases entries,
{
    if entries.len() == 0 {
        None
    } else if entries[0].0 == id {
        Some(entries[0].1)
    } else {
        spec_config_lookup(entries.drop_first(), id)
    }
}

/// Whether no node identity repeats in the configuration.
pub open spec fn spec_config_ids_unique(entries: Seq<(UniqueId, NodeAddress)>) -> bool {
    forall|i: int, j: int|
        0 <= i < j < entries.len() ==> (#[trigger] entries[i]).0 != (#[trigger] entries[j]).0
}

/// One server node: the shared configuration and its own identity.
#[derive(Debug)]
pub struct Server {
    pub global_config: GlobalConfig,
    pub my_id: UniqueId,
}

impl Server {
    /// A server over the given configuration, acting as node `my_id`.
    pub fn new(global_config: GlobalConfig, my_id: UniqueId) -> (r: Server)
        ensures
            r.global_config == global_config,
            r.my_id == my_id,
    {
        Server { global_config, my_id }
    }

    /// The address of node `id` in the configuration, if any: what the run
    /// loop's address table answers, made total by first occurrence.
    pub fn lookup_address(&self, id: UniqueId) -> (r: Option<NodeAddress>)
        ensures
            r == spec_config_lookup(self.global_config@, id),
    {
        let ghost whole = self.global_config@;
        let mut i: usize = 0;
        proof {
            assert(whole.skip(0) =~= whole);
        }
        while i < self.global_config.len()
            invariant
                0 <= i <= whole.len(),
                whole == self.global_config@,
                spec_config_lookup(whole, id) == spec_config_lookup(whole.skip(i as int), id),
            decreases whole.len() - i,
        {
            proof {
                assert(whole.skip(i as int)[0] == whole[i as int]);
                assert(whole.skip(i as int).drop_first() =~= whole.skip(i + 1));
            }
            if self.global_config[i].0 == id {
                return Some(self.global_config[i].1);
            }
            i = i + 1;
        }
        proof {
            assert(whole.skip(whole.len() as int) =~= Seq::<(UniqueId, NodeAddress)>::empty());
        }
        None
    }

    /// Whether the configuration is usable as an address table: every node
    /// identity occurs once.  The driver checks this before serving; the
    /// run loop's address table depends on it.
    pub fn config_ids_unique(&self) -> (r: bool)
        ensures
            r == spec_config_ids_unique(self.global_config@),
    {
        let n = self.global_config.len();
        let mut i: usize = 0;
        while i < n
            invariant
                0 <= i <= n,
                n == self.global_config@.len(),
                forall|a: int, b: int|
                    0 <= a < b < self.global_config@.len() && a < i ==> (
                    #[trigger] self.global_config@[a]).0 != (
                    #[trigger] self.global_config@[b]).0,
            decreases n - i,
        {
            let mut j: usize = i + 1;
            while j < n
                invariant
                    i < j <= n,
                    i < n,
                    n == self.global_config@.len(),
                    forall|b: int|
                        i < b < j ==> (#[trigger] self.global_config@[b]).0
                            != self.global_config@[i as int].0,
                decreases n - j,
            {
                if self.global_config[j].0 == self.global_config[i].0 {
                    return false;
                }
                j = j + 1;
            }
            i = i + 1;
        }
        true
    }
}

} // verus!
