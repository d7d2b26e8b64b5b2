//! The cookies and keys of one NTS server, as they are handed out to tests
//! and refilled by further negotiations.
//!
//! Every cookie belongs to the keys of the negotiation that delivered it. The
//! pool is refilled only when it is empty, so all cookies in it belong to the
//! keys that are current, and one pair of keys is all that has to be kept.
//! Callers that share a server among threads hold it under a lock for the
//! whole of a take and of the refill that goes with it.

use crate::nts::NtsCookie;
use crate::util::result::{Fault, TestError, TestErrorView, TestResult};
use vstd::prelude::*;
use vstd::string::StringExecFns;

verus! {

/// Where NTP datagrams go: an IP address and a port, as numbers.
#[derive(Debug, Clone, Copy, PartialEq, Eq, Structural)]
pub enum UdpTarget {
    V4 { ip: u32, port: u16 },
    V6 { ip: u128, port: u16, flowinfo: u32, scope_id: u32 },
}

impl UdpTarget {
    /// The address to bind a socket to that talks to this target: any
    /// address of the same family, and any port.
    pub fn local_any(&self) -> (local: UdpTarget)
        ensures
            local == match *self {
                UdpTarget::V4 { .. } => UdpTarget::V4 { ip: 0, port: 0 },
                UdpTarget::V6 { .. } => UdpTarget::V6 { ip: 0, port: 0, flowinfo: 0, scope_id: 0 },
            },
    {
        match self {
            UdpTarget::V4 { .. } => UdpTarget::V4 { ip: 0, port: 0 },
            UdpTarget::V6 { .. } => UdpTarget::V6 { ip: 0, port: 0, flowinfo: 0, scope_id: 0 },
        }
    }

    /// The address to use of those that a name resolved to: the first. A
    /// name that resolved to none is a connection error.
    pub fn first_of(host: &str, resolved: &Vec<UdpTarget>) -> (out: TestResult<UdpTarget>)
        ensures
            match out {
                Ok(target) => resolved.len() > 0 && target == resolved[0],
                Err(e) => resolved.len() == 0 && e@ == TestErrorView::Error(
                    Fault::Connection,
                    "Host has no IP entries: "@ + host@,
                ),
            },
    {
        if resolved.len() > 0 {
            Ok(resolved[0])
        } else {
            Err(
                TestError::Error(
                    Fault::Connection,
                    String::from_str("Host has no IP entries: ").concat(host),
                ),
            )
        }
    }
}

/// The two keys of one negotiation, as exported from its TLS session: one
/// for each direction.
#[derive(Debug, Clone, Copy, PartialEq, Eq)]
pub struct KeyPair {
    pub c2s: [u8; 32],
    pub s2c: [u8; 32],
}

/// A cookie in the pool, with the keys of the negotiation that delivered it.
pub struct Pooled {
    pub cookie: Seq<u8>,
    pub keys: KeyPair,
}

/// The given cookies, each with the given keys.
pub open spec fn delivered(cookies: Seq<NtsCookie>, keys: KeyPair) -> Seq<Pooled> {
    Seq::new(cookies.len(), |i: int| Pooled { cookie: cookies[i]@, keys })
}

/// What taking one cookie from a pool gives: the cookie that was added last,
/// and the pool without it. An empty pool gives nothing.
pub open spec fn take(pool: Seq<Pooled>) -> Option<(Pooled, Seq<Pooled>)> {
    if pool.len() == 0 {
        None
    } else {
        Some((pool.last(), pool.drop_last()))
    }
}

/// What taking `n` cookies in a row gives, with no refill between: the
/// cookies in the order in which they were handed out, and what is left. It
/// gives nothing where one of the takes finds the pool empty.
pub open spec fn take_n(pool: Seq<Pooled>, n: nat) -> Option<(Seq<Pooled>, Seq<Pooled>)>
    decreases n,
{
    if n == 0 {
        Some((Seq::empty(), pool))
    } else {
        match take(pool) {
            None => None,
            Some((first, rest)) => match take_n(rest, (n - 1) as nat) {
                None => None,
                Some((more, left)) => Some((seq![first] + more, left)),
            },
        }
    }
}

/// A pool serves as many takes as it holds cookies and no more: with fewer
/// cookies than takes, one of the takes finds the pool empty and a refill is
/// due. The cookies come out last in, first out, each from a place of its
/// own in the pool and with the keys it was delivered with, so none is
/// handed out twice.
pub proof fn lemma_take_n(pool: Seq<Pooled>, n: nat)
    ensures
        take_n(pool, n) is Some <==> n <= pool.len(),
        take_n(pool, n) matches Some((handed, left)) ==> {
            &&& handed.len() == n
            &&& left == pool.take(pool.len() - n)
            &&& forall|k: int| 0 <= k < n ==> handed[k] == pool[pool.len() - 1 - k]
        },
    decreases n,
{
    if n == 0 {
        assert(pool.take(pool.len() as int) =~= pool);
    } else if pool.len() > 0 {
        let rest = pool.drop_last();
        lemma_take_n(rest, (n - 1) as nat);
        if n <= pool.len() {
            let (more, left) = take_n(rest, (n - 1) as nat)->0;
            let handed = seq![pool.last()] + more;
            assert(left =~= pool.take(pool.len() - n));
            assert forall|k: int| 0 <= k < n implies handed[k] == pool[pool.len() - 1 - k] by {
                if k > 0 {
                    assert(handed[k] == more[k - 1]);
                }
            }
        }
    }
}

/// Cookies that one negotiation delivered come out of the pool with the
/// keys of that negotiation, whichever of them is taken and whenever.
pub proof fn lemma_keys_follow_the_refill(cookies: Seq<NtsCookie>, keys: KeyPair, n: nat)
    requires
        n <= cookies.len(),
    ensures
        take_n(delivered(cookies, keys), n) matches Some((handed, left)) && handed.len() == n
            && left == delivered(cookies.take(cookies.len() - n), keys) && forall|k: int|
            0 <= k < n ==> (#[trigger] handed[k]).keys == keys && handed[k].cookie
                == cookies[cookies.len() - 1 - k]@,
{
    let pool = delivered(cookies, keys);
    lemma_take_n(pool, n);
    let (handed, left) = take_n(pool, n)->0;
    assert(left =~= delivered(cookies.take(cookies.len() - n), keys));
}

/// The reasons for which the outcome of a further negotiation is refused.
pub enum Refusal {
    /// The pool still holds cookies: their keys would be lost.
    PoolNotEmpty,
    /// The negotiation points to another UDP target than the first.
    OtherTarget,
    /// The negotiation delivered no cookie.
    NoCookies,
}

impl Refusal {
    /// The report of the refusal.
    pub open spec fn message(self) -> Seq<char> {
        match self {
            Refusal::PoolNotEmpty => "Refill of a pool that still holds cookies"@,
            Refusal::OtherTarget => "Server switched to which UDP host it points"@,
            Refusal::NoCookies => "Negotiation delivered no cookie"@,
        }
    }
}

/// Whether the outcome of a further negotiation is refused and why, given
/// the pool and the UDP target of the server. The pool is looked at first,
/// then the target, then the cookies.
pub open spec fn refusal(
    pool: Seq<Pooled>,
    target: UdpTarget,
    cookies: Seq<NtsCookie>,
    udp_host: UdpTarget,
) -> Option<Refusal> {
    if pool.len() != 0 {
        Some(Refusal::PoolNotEmpty)
    } else if udp_host != target {
        Some(Refusal::OtherTarget)
    } else if cookies.len() == 0 {
        Some(Refusal::NoCookies)
    } else {
        None
    }
}

/// One NTS server under test: where it is, and the cookies and keys that
/// are at hand for it.
#[derive(Debug)]
pub struct NtsServer {
    host: String,
    port: u16,
    udp_host: UdpTarget,
    cookies: Vec<NtsCookie>,
    keys: KeyPair,
}

impl NtsServer {
    /// The name of the key establishment server.
    pub closed spec fn host(&self) -> Seq<char> {
        self.host@
    }

    /// The port of the key establishment server.
    pub closed spec fn port(&self) -> u16 {
        self.port
    }

    /// The UDP target that the first negotiation pointed to.
    pub closed spec fn target(&self) -> UdpTarget {
        self.udp_host
    }

    /// The keys of the latest negotiation.
    pub closed spec fn keys(&self) -> KeyPair {
        self.keys
    }

    /// The unused cookies, each with the keys it was delivered with.
    pub closed spec fn pool(&self) -> Seq<Pooled> {
        delivered(self.cookies@, self.keys)
    }

    /// The server as the first negotiation leaves it.
    pub fn new(
        host: String,
        port: u16,
        cookies: Vec<NtsCookie>,
        udp_host: UdpTarget,
        keys: KeyPair,
    ) -> (server: NtsServer)
        ensures
            server.host() == host@,
            server.port() == port,
            server.target() == udp_host,
            server.keys() == keys,
            server.pool() == delivered(cookies@, keys),
    {
        NtsServer { host, port, udp_host, cookies, keys }
    }

    /// The name of the key establishment server.
    pub fn ke_host(&self) -> (host: &String)
        ensures
            host@ == self.host(),
    {
        &self.host
    }

    /// The port of the key establishment server.
    pub fn ke_port(&self) -> (port: u16)
        ensures
            port == self.port(),
    {
        self.port
    }

    /// The UDP target of the server.
    pub fn udp_host(&self) -> (target: UdpTarget)
        ensures
            target == self.target(),
    {
        self.udp_host
    }

    /// Hands out one cookie with the keys that belong to it. `None` says
    /// that the pool is empty: negotiate anew and hand the outcome to
    /// [`NtsServer::refill`], which hands out the cookie.
    pub fn take_cookie(&mut self) -> (out: Option<(NtsCookie, KeyPair)>)
        ensures
            match take(old(self).pool()) {
                Some((pooled, rest)) => out matches Some((cookie, keys)) && cookie@ == pooled.cookie
                    && keys == pooled.keys && final(self).pool() == rest,
                None => out is None && final(self).pool() == old(self).pool(),
            },
            final(self).keys() == old(self).keys(),
            final(self).target() == old(self).target(),
            final(self).host() == old(self).host(),
            final(self).port() == old(self).port(),
    {
        let ghost before = self.cookies@;
        match self.cookies.pop() {
            Some(cookie) => {
                assert(delivered(self.cookies@, self.keys) =~= delivered(
                    before,
                    self.keys,
                ).drop_last());
                Some((cookie, self.keys))
            },
            None => None,
        }
    }

    /// Takes in the outcome of a further negotiation and hands out one of
    /// its cookies: the new cookies fill the pool, the new keys replace
    /// the old, and one cookie is taken, all in one step. The outcome is
    /// refused, and nothing changes, where the pool still holds cookies,
    /// where the negotiation points to another UDP target than the first,
    /// and where it delivered no cookie.
    pub fn refill(&mut self, cookies: Vec<NtsCookie>, udp_host: UdpTarget, keys: KeyPair) -> (out:
        TestResult<(NtsCookie, KeyPair)>)
        ensures
            match refusal(old(self).pool(), old(self).target(), cookies@, udp_host) {
                Some(refusal) => out matches Err(e) && e@ == TestErrorView::Error(
                    Fault::Invariant,
                    refusal.message(),
                ) && final(self).pool() == old(self).pool() && final(self).keys() == old(
                    self,
                ).keys(),
                None => out matches Ok((cookie, taken_keys)) && take(delivered(cookies@, keys))
                    == Some(
                    (Pooled { cookie: cookie@, keys: taken_keys }, final(self).pool()),
                ) && final(self).keys() == keys,
            },
            final(self).target() == old(self).target(),
            final(self).host() == old(self).host(),
            final(self).port() == old(self).port(),
    {
        if self.cookies.len() != 0 {
            return Err(
                TestError::Error(
                    Fault::Invariant,
                    String::from_str("Refill of a pool that still holds cookies"),
                ),
            );
        }
        if udp_host != self.udp_host {
            return Err(
                TestError::Error(
                    Fault::Invariant,
                    String::from_str("Server switched to which UDP host it points"),
                ),
            );
        }
        let mut cookies = cookies;
        let ghost all = cookies@;
        match cookies.pop() {
            None => Err(
                TestError::Error(
                    Fault::Invariant,
                    String::from_str("Negotiation delivered no cookie"),
                ),
            ),
            Some(cookie) => {
                self.cookies = cookies;
                self.keys = keys;
                assert(delivered(self.cookies@, keys) =~= delivered(all, keys).drop_last());
                Ok((cookie, keys))
            },
        }
    }
}

} // verus!
