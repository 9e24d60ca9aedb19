//! The live roster: the clients currently connected, keyed by their
//! network address. Entries appear on a successful handshake and vanish
//! when the connection closes.

use vstd::prelude::*;

use crate::net::ScreenInfo;

verus! {

/// One connected client: the peer address it connected from and the
/// screen it advertised.
#[derive(Clone, Debug, PartialEq)]
pub struct ConnectedClient {
    pub addr: String,
    pub screen_info: ScreenInfo,
}

/// The index of the first entry from `addr`, or the length when none is.
pub open spec fn spec_addr_index(entries: Seq<ConnectedClient>, addr: Seq<char>) -> int
    decreases entries.len(),
{
    if entries.len() == 0 {
        0
    } else if entries[0].addr@ == addr {
        0
    } else {
        1 + spec_addr_index(entries.drop_first(), addr)
    }
}

/// True when some entry is from `addr`.
pub open spec fn spec_has_addr(entries: Seq<ConnectedClient>, addr: Seq<char>) -> bool {
    spec_addr_index(entries, addr) < entries.len()
}

/// The roster of connected clients. At most one entry per address.
pub struct Roster {
    pub entries: Vec<ConnectedClient>,
}

impl Roster {
    /// True when no two entries share an address.
    pub open spec fn wf(&self) -> bool {
        forall|k1: int, k2: int|
            0 <= k1 < k2 < self.entries@.len() ==> #[trigger] self.entries@[k1].addr@
                != #[trigger] self.entries@[k2].addr@
    }

    /// An empty roster.
    pub fn new() -> (r: Roster)
        ensures
            r.entries@.len() == 0,
            r.wf(),
    {
        Roster { entries: Vec::new() }
    }

    pub fn len(&self) -> (n: usize)
        ensures
            n == self.entries@.len(),
    {
        self.entries.len()
    }

    /// Registers a client: replaces the entry from the same address, or
    /// appends one. At most one entry per address survives.
    pub fn insert(&mut self, c: ConnectedClient)
        ensures
            final(self).entries@ == (if spec_has_addr(old(self).entries@, c.addr@) {
                old(self).entries@.update(spec_addr_index(old(self).entries@, c.addr@), c)
            } else {
                old(self).entries@.push(c)
            }),
            old(self).wf() ==> final(self).wf(),
    {
        let ghost addr = c.addr@;
        let n = self.entries.len();
        let mut k: usize = 0;
        while k < n
            invariant
                k <= n,
                n == self.entries@.len(),
                self.entries@ == old(self).entries@,
                forall|j: int| 0 <= j < k ==> self.entries@[j].addr@ != addr,
                c.addr@ == addr,
            decreases n - k,
        {
            if self.entries[k].addr == c.addr {
                proof {
                    lemma_addr_index_prefix_misses(self.entries@, addr, k as int);
                }
                self.entries.set(k, c);
                proof {
                    assert(old(self).wf() ==> self.wf()) by {
                        if old(self).wf() {
                            assert(forall|j: int|
                                0 <= j < old(self).entries@.len() && j != k ==> self.entries@[j]
                                    == old(self).entries@[j]);
                        }
                    }
                }
                return ;
            }
            k = k + 1;
        }
        proof {
            lemma_addr_index_prefix_misses(self.entries@, addr, n as int);
        }
        self.entries.push(c);
        proof {
            assert(old(self).wf() ==> self.wf()) by {
                if old(self).wf() {
                    assert(forall|j: int|
                        0 <= j < old(self).entries@.len() ==> self.entries@[j] == old(
                            self,
                        ).entries@[j]);
                }
            }
        }
    }

    /// Forgets the client from `addr`, if one is registered.
    pub fn remove(&mut self, addr: &String)
        ensures
            final(self).entries@ == (if spec_has_addr(old(self).entries@, addr@) {
                old(self).entries@.remove(spec_addr_index(old(self).entries@, addr@))
            } else {
                old(self).entries@
            }),
            old(self).wf() ==> final(self).wf(),
    {
        let n = self.entries.len();
        let mut k: usize = 0;
        while k < n
            invariant
                k <= n,
                n == self.entries@.len(),
                self.entries@ == old(self).entries@,
                forall|j: int| 0 <= j < k ==> self.entries@[j].addr@ != addr@,
            decreases n - k,
        {
            if self.entries[k].addr == *addr {
                proof {
                    lemma_addr_index_prefix_misses(self.entries@, addr@, k as int);
                }
                self.entries.remove(k);
                proof {
                    assert(old(self).wf() ==> self.wf()) by {
                        if old(self).wf() {
                            assert(forall|j: int|
                                0 <= j < k ==> self.entries@[j] == old(self).entries@[j]);
                            assert(forall|j: int|
                                k <= j < self.entries@.len() ==> self.entries@[j] == old(
                                    self,
                                ).entries@[j + 1]);
                        }
                    }
                }
                return ;
            }
            k = k + 1;
        }
        proof {
            lemma_addr_index_prefix_misses(self.entries@, addr@, n as int);
        }
    }

    /// The registered client from `addr`, if any.
    pub fn get(&self, addr: &String) -> (r: Option<&ConnectedClient>)
        ensures
            r matches Some(c) ==> spec_has_addr(self.entries@, addr@) && *c == self.entries@[
                spec_addr_index(self.entries@, addr@)
            ],
            r is None ==> !spec_has_addr(self.entries@, addr@),
    {
        let n = self.entries.len();
        let mut k: usize = 0;
        while k < n
            invariant
                k <= n,
                n == self.entries@.len(),
                forall|j: int| 0 <= j < k ==> self.entries@[j].addr@ != addr@,
            decreases n - k,
        {
            if self.entries[k].addr == *addr {
                proof {
                    lemma_addr_index_prefix_misses(self.entries@, addr@, k as int);
                }
                return Some(&self.entries[k]);
            }
            k = k + 1;
        }
        proof {
            lemma_addr_index_prefix_misses(self.entries@, addr@, n as int);
        }
        None
    }
}

/// An empty roster, ready to be shared between the connection tasks and
/// the reader paths.
pub fn create_connected_clients() -> (r: Roster)
    ensures
        r.entries@.len() == 0,
        r.wf(),
{
    Roster::new()
}

/// When none of the first `i` entries is from `addr`, the first matching
/// index over the whole list is the first matching index past them; in
/// particular, a hit at `i` makes `i` the answer, and no hit at all makes
/// the answer the length.
proof fn lemma_addr_index_prefix_misses(entries: Seq<ConnectedClient>, addr: Seq<char>, i: int)
    requires
        0 <= i <= entries.len(),
        forall|j: int| 0 <= j < i ==> entries[j].addr@ != addr,
    ensures
        i < entries.len() && entries[i].addr@ == addr ==> spec_addr_index(entries, addr) == i,
        (forall|j: int| 0 <= j < entries.len() ==> entries[j].addr@ != addr) ==> spec_addr_index(
            entries,
            addr,
        ) == entries.len(),
    decreases entries.len(),
{
    if entries.len() > 0 {
        if entries[0].addr@ != addr {
            let rest = entries.drop_first();
            assert(forall|j: int| 0 <= j < rest.len() ==> rest[j] == entries[j + 1]);
            if i > 0 {
                lemma_addr_index_prefix_misses(rest, addr, i - 1);
            } else {
                lemma_addr_index_prefix_misses(rest, addr, 0);
            }
        }
    }
}

} // verus!
