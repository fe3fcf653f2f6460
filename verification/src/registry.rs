//! The handle and ownership layer: configurations and sessions live in a
//! registry and are named across the boundary by integer handles, with
//! zero as the null handle. A configuration is shared: it stays alive
//! while any caller handle or any session built from it remains; a session
//! is exclusively owned. The registry's invariant ties every live
//! session to a live configuration and keeps the reference counts exact.

use vstd::prelude::*;
use std::sync::Arc;
use crate::engine;
use crate::result::RustlsResult;

verus! {

/// Progress of one session's conversation.
#[derive(Clone, Copy, Debug, PartialEq, Eq, Structural)]
pub enum ConnState {
    /// The handshake has not completed yet; the initial state.
    Handshaking,
    /// The handshake completed; plaintext may flow both ways.
    Established,
    /// The peer signalled graceful closure; terminal.
    Closed,
}

/// One live configuration: how many caller handles and how many sessions
/// hold it, and the engine configuration itself.
struct ConfigSlot {
    caller_refs: usize,
    session_refs: usize,
    cfg: Arc<rustls::ClientConfig>,
}

/// One live session: the configuration it retains, its tracked state,
/// the ingress ciphertext accepted from the caller but not yet handed to
/// the engine, and the engine conversation itself.
struct SessionSlot {
    config_ix: usize,
    state: ConnState,
    pending: Vec<u8>,
    engine: rustls::ClientSession,
}

/// Boundary-visible name of a configuration; zero is the null handle.
#[allow(non_camel_case_types)]
#[derive(Clone, Copy, Debug, PartialEq, Eq, Structural)]
pub struct rustls_client_config {
    pub id: usize,
}

/// Boundary-visible name of a session; zero is the null handle.
#[allow(non_camel_case_types)]
#[derive(Clone, Copy, Debug, PartialEq, Eq, Structural)]
pub struct rustls_client_session {
    pub id: usize,
}

/// What a destruction call found and did, for the caller's diagnostics.
#[derive(Clone, Copy, Debug, PartialEq, Eq, Structural)]
pub enum FreeOutcome {
    /// The handle was null; nothing was done.
    NullHandle,
    /// The handle named no live object, or no caller reference was
    /// outstanding: a double or foreign destruction. Nothing was done.
    Misuse,
    /// One reference was dropped; other owners keep the object alive.
    Released,
    /// The last reference was dropped and the object destroyed.
    Freed,
}

/// How many live sessions hold the configuration at index `j`.
spec fn slot_contrib(o: Option<SessionSlot>, j: int) -> nat {
    if o is Some && o->Some_0.config_ix == j {
        1nat
    } else {
        0nat
    }
}

spec fn count_refs(ss: Seq<Option<SessionSlot>>, j: int) -> nat
    decreases ss.len(),
{
    if ss.len() == 0 {
        0nat
    } else {
        count_refs(ss.drop_last(), j) + slot_contrib(ss.last(), j)
    }
}

proof fn lemma_count_push(ss: Seq<Option<SessionSlot>>, v: Option<SessionSlot>, j: int)
    ensures
        count_refs(ss.push(v), j) == count_refs(ss, j) + slot_contrib(v, j),
{
    assert(ss.push(v).drop_last() =~= ss);
    assert(ss.push(v).last() == v);
}

proof fn lemma_count_update(ss: Seq<Option<SessionSlot>>, i: int, v: Option<SessionSlot>, j: int)
    requires
        0 <= i < ss.len(),
    ensures
        count_refs(ss.update(i, v), j) + slot_contrib(ss[i], j) == count_refs(ss, j)
            + slot_contrib(v, j),
    decreases ss.len(),
{
    if i == ss.len() - 1 {
        assert(ss.update(i, v).drop_last() =~= ss.drop_last());
        assert(ss.update(i, v).last() == v);
        assert(ss.last() == ss[i]);
    } else {
        lemma_count_update(ss.drop_last(), i, v, j);
        assert(ss.update(i, v).drop_last() =~= ss.drop_last().update(i, v));
        assert(ss.update(i, v).last() == ss.last());
    }
}

proof fn lemma_count_member(ss: Seq<Option<SessionSlot>>, i: int, j: int)
    requires
        0 <= i < ss.len(),
        slot_contrib(ss[i], j) == 1,
    ensures
        count_refs(ss, j) >= 1,
    decreases ss.len(),
{
    if i == ss.len() - 1 {
        assert(ss.last() == ss[i]);
    } else {
        assert(ss.drop_last()[i] == ss[i]);
        lemma_count_member(ss.drop_last(), i, j);
    }
}

proof fn lemma_count_absent(ss: Seq<Option<SessionSlot>>, j: int)
    requires
        forall|i: int| 0 <= i < ss.len() ==> slot_contrib(#[trigger] ss[i], j) == 0,
    ensures
        count_refs(ss, j) == 0,
    decreases ss.len(),
{
    if ss.len() > 0 {
        assert(forall|i: int|
            0 <= i < ss.drop_last().len() ==> #[trigger] ss.drop_last()[i] == ss[i]);
        lemma_count_absent(ss.drop_last(), j);
        assert(ss.last() == ss[ss.len() - 1]);
    }
}

proof fn lemma_count_bound(ss: Seq<Option<SessionSlot>>, j: int)
    ensures
        count_refs(ss, j) <= ss.len(),
    decreases ss.len(),
{
    if ss.len() > 0 {
        lemma_count_bound(ss.drop_last(), j);
    }
}

/// The registry of all live configurations and sessions. Handle value
/// `n + 1` names slot index `n`; destroyed slots are never reused, so a
/// stale handle never names a later object: the tables grow with every
/// creation, the price of detecting stale handles instead of walking
/// into freed memory.
pub struct Registry {
    configs: Vec<Option<ConfigSlot>>,
    sessions: Vec<Option<SessionSlot>>,
}

impl Registry {
    pub closed spec fn configs_len(self) -> nat {
        self.configs@.len()
    }

    pub closed spec fn sessions_len(self) -> nat {
        self.sessions@.len()
    }

    pub closed spec fn config_live(self, j: int) -> bool {
        0 <= j < self.configs@.len() && self.configs@[j] is Some
    }

    pub closed spec fn config_caller_refs(self, j: int) -> nat {
        self.configs@[j]->Some_0.caller_refs as nat
    }

    pub closed spec fn config_session_refs(self, j: int) -> nat {
        self.configs@[j]->Some_0.session_refs as nat
    }

    pub closed spec fn session_live(self, i: int) -> bool {
        0 <= i < self.sessions@.len() && self.sessions@[i] is Some
    }

    pub closed spec fn session_config(self, i: int) -> int {
        self.sessions@[i]->Some_0.config_ix as int
    }

    pub closed spec fn session_state(self, i: int) -> ConnState {
        self.sessions@[i]->Some_0.state
    }

    /// The session's ingress ciphertext buffer: bytes fed by the caller
    /// and not yet consumed by the engine.
    pub closed spec fn session_pending(self, i: int) -> Seq<u8> {
        self.sessions@[i]->Some_0.pending@
    }

    /// The configuration handle names a live slot.
    pub open spec fn config_handle_live(self, h: rustls_client_config) -> bool {
        h.id >= 1 && self.config_live(h.id - 1)
    }

    /// The session handle names a live slot.
    pub open spec fn session_handle_live(self, h: rustls_client_session) -> bool {
        h.id >= 1 && self.session_live(h.id - 1)
    }

    /// Well-formedness: every live session retains a live configuration,
    /// and every live configuration's session count is exactly the number
    /// of live sessions holding it, with at least one owner in all.
    pub closed spec fn wf(self) -> bool {
        &&& forall|i: int|
            0 <= i < self.sessions@.len() && #[trigger] self.sessions@[i] is Some ==> {
                &&& 0 <= self.sessions@[i]->Some_0.config_ix < self.configs@.len()
                &&& self.configs@[self.sessions@[i]->Some_0.config_ix as int] is Some
            }
        &&& forall|j: int|
            0 <= j < self.configs@.len() && #[trigger] self.configs@[j] is Some ==> {
                &&& self.configs@[j]->Some_0.session_refs == count_refs(self.sessions@, j)
                &&& self.configs@[j]->Some_0.caller_refs + self.configs@[j]->Some_0.session_refs
                    >= 1
            }
    }

    /// The configuration at `j` looks the same in both registries.
    pub open spec fn same_config_at(self, other: Registry, j: int) -> bool {
        &&& self.config_live(j) == other.config_live(j)
        &&& (self.config_live(j) ==> {
            &&& self.config_caller_refs(j) == other.config_caller_refs(j)
            &&& self.config_session_refs(j) == other.config_session_refs(j)
        })
    }

    /// The session at `i` looks the same in both registries.
    pub open spec fn same_session_at(self, other: Registry, i: int) -> bool {
        &&& self.session_live(i) == other.session_live(i)
        &&& (self.session_live(i) ==> {
            &&& self.session_config(i) == other.session_config(i)
            &&& self.session_state(i) == other.session_state(i)
            &&& self.session_pending(i) == other.session_pending(i)
        })
    }

    /// No session was created, destroyed, rebound or moved to another state.
    pub open spec fn same_sessions(self, other: Registry) -> bool {
        &&& self.sessions_len() == other.sessions_len()
        &&& forall|i: int| 0 <= i < self.sessions_len() ==> self.same_session_at(other, i)
    }

    /// No configuration was created, destroyed or recounted.
    pub open spec fn same_configs(self, other: Registry) -> bool {
        &&& self.configs_len() == other.configs_len()
        &&& forall|j: int| 0 <= j < self.configs_len() ==> self.same_config_at(other, j)
    }

    /// An empty registry: no live object, trivially well-formed.
    pub fn new() -> (r: Registry)
        ensures
            r.wf(),
            r.configs_len() == 0,
            r.sessions_len() == 0,
    {
        Registry { configs: Vec::new(), sessions: Vec::new() }
    }

    /// Whether another object may be allocated: handles are slot indices
    /// plus one, so each table is bounded by the machine word.
    pub fn can_allocate(&self) -> (r: bool)
        ensures
            r == (self.configs_len() < usize::MAX && self.sessions_len() < usize::MAX),
    {
        self.configs.len() < usize::MAX && self.sessions.len() < usize::MAX
    }

    /// Build a configuration pre-populated with the default trust-anchor
    /// set, perform the one-time diagnostic-logging initialization, and
    /// hand the caller the sole reference.
    pub fn rustls_client_config_new(&mut self) -> (h: rustls_client_config)
        requires
            old(self).wf(),
            old(self).configs_len() < usize::MAX,
        ensures
            final(self).wf(),
            h.id == old(self).configs_len() + 1,
            final(self).config_handle_live(h),
            final(self).config_caller_refs(h.id - 1) == 1,
            final(self).config_session_refs(h.id - 1) == 0,
            final(self).configs_len() == old(self).configs_len() + 1,
            final(self).same_sessions(*old(self)),
            forall|j: int| 0 <= j < old(self).configs_len()
                ==> final(self).same_config_at(*old(self), j),
    {
        engine::init_diagnostic_logging();
        let cfg = engine::new_default_config();
        let index = self.configs.len();
        self.configs.push(Some(ConfigSlot { caller_refs: 1, session_refs: 0, cfg }));
        proof {
            let ghost cj = index as int;
            assert forall|i: int|
                0 <= i < self.sessions@.len() && #[trigger] self.sessions@[i] is Some implies {
                    &&& 0 <= self.sessions@[i]->Some_0.config_ix < self.configs@.len()
                    &&& self.configs@[self.sessions@[i]->Some_0.config_ix as int] is Some
                } by {
                assert(old(self).sessions@[i] is Some);
            }
            assert forall|i: int| 0 <= i < self.sessions@.len()
                implies slot_contrib(#[trigger] self.sessions@[i], cj) == 0 by {
                if self.sessions@[i] is Some {
                    assert(self.sessions@[i]->Some_0.config_ix < cj);
                }
            }
            lemma_count_absent(self.sessions@, cj);
        }
        rustls_client_config { id: index + 1 }
    }

    /// Drop the caller's reference to a configuration. A null handle, a
    /// handle naming no live configuration, or a configuration whose
    /// caller references are already gone is misuse: it is reported and
    /// nothing changes. Otherwise the count drops by one, and the
    /// configuration is destroyed only when no session holds it either —
    /// a configuration outlives the caller's own handle for as long as
    /// any session built from it lives.
    pub fn rustls_client_config_free(&mut self, h: rustls_client_config) -> (r: FreeOutcome)
        requires
            old(self).wf(),
        ensures
            final(self).wf(),
            final(self).same_sessions(*old(self)),
            final(self).configs_len() == old(self).configs_len(),
            h.id == 0 ==> r == FreeOutcome::NullHandle && final(self).same_configs(*old(self)),
            h.id >= 1 && !old(self).config_handle_live(h) ==> r == FreeOutcome::Misuse
                && final(self).same_configs(*old(self)),
            old(self).config_handle_live(h) && old(self).config_caller_refs(h.id - 1) == 0
                ==> r == FreeOutcome::Misuse && final(self).same_configs(*old(self)),
            old(self).config_handle_live(h) && old(self).config_caller_refs(h.id - 1) >= 1 ==> {
                &&& forall|j: int| 0 <= j < old(self).configs_len() && j != h.id - 1
                    ==> final(self).same_config_at(*old(self), j)
                &&& (old(self).config_caller_refs(h.id - 1) == 1
                        && old(self).config_session_refs(h.id - 1) == 0 ==> {
                    &&& r == FreeOutcome::Freed
                    &&& !final(self).config_live(h.id - 1)
                })
                &&& (old(self).config_caller_refs(h.id - 1) >= 2
                        || old(self).config_session_refs(h.id - 1) >= 1 ==> {
                    &&& r == FreeOutcome::Released
                    &&& final(self).config_live(h.id - 1)
                    &&& final(self).config_caller_refs(h.id - 1)
                        == old(self).config_caller_refs(h.id - 1) - 1
                    &&& final(self).config_session_refs(h.id - 1)
                        == old(self).config_session_refs(h.id - 1)
                })
            },
    {
        if h.id == 0 {
            return FreeOutcome::NullHandle;
        }
        let j = h.id - 1;
        if j >= self.configs.len() {
            return FreeOutcome::Misuse;
        }
        let (caller_refs, session_refs) = match &self.configs[j] {
            Some(c) => (c.caller_refs, c.session_refs),
            None => {
                return FreeOutcome::Misuse;
            },
        };
        if caller_refs == 0 {
            return FreeOutcome::Misuse;
        }
        if caller_refs == 1 && session_refs == 0 {
            self.configs[j] = None;
            proof {
                assert forall|i: int|
                    0 <= i < self.sessions@.len() && #[trigger] self.sessions@[i] is Some implies {
                        &&& 0 <= self.sessions@[i]->Some_0.config_ix < self.configs@.len()
                        &&& self.configs@[self.sessions@[i]->Some_0.config_ix as int] is Some
                    } by {
                    assert(old(self).sessions@[i] is Some);
                    if self.sessions@[i]->Some_0.config_ix == j {
                        lemma_count_member(self.sessions@, i, j as int);
                    }
                }
            }
            return FreeOutcome::Freed;
        }
        match &mut self.configs[j] {
            Some(c) => {
                c.caller_refs = c.caller_refs - 1;
            },
            None => {},
        }
        proof {
            assert(self.sessions@ =~= old(self).sessions@);
            assert forall|k: int|
                0 <= k < self.configs@.len() && #[trigger] self.configs@[k] is Some implies {
                    &&& self.configs@[k]->Some_0.session_refs == count_refs(self.sessions@, k)
                    &&& self.configs@[k]->Some_0.caller_refs
                        + self.configs@[k]->Some_0.session_refs >= 1
                } by {
                assert(old(self).configs@[k] is Some);
            }
        }
        FreeOutcome::Released
    }

    /// Create a session bound to a configuration and a server name. A null
    /// or dead configuration handle fails with NullParameter; a name that
    /// is not a valid DNS name fails with Io. On any failure the output
    /// slot is left untouched and the registry is unchanged. On success
    /// the output slot receives the fresh session's handle, the session
    /// starts in the handshaking state, and the configuration gains one
    /// session reference, so it stays alive even if the caller later
    /// destroys its own handle.
    pub fn rustls_client_session_new(
        &mut self,
        config: rustls_client_config,
        hostname: &str,
        session_out: &mut rustls_client_session,
    ) -> (r: RustlsResult)
        requires
            old(self).wf(),
            old(self).sessions_len() < usize::MAX,
        ensures
            final(self).wf(),
            !old(self).config_handle_live(config) ==> {
                &&& r == RustlsResult::NullParameter
                &&& final(self).same_configs(*old(self))
                &&& final(self).same_sessions(*old(self))
                &&& *final(session_out) == *old(session_out)
            },
            old(self).config_handle_live(config) && !engine::is_valid_dns_name(hostname@) ==> {
                &&& r == RustlsResult::Io
                &&& final(self).same_configs(*old(self))
                &&& final(self).same_sessions(*old(self))
                &&& *final(session_out) == *old(session_out)
            },
            old(self).config_handle_live(config) && engine::is_valid_dns_name(hostname@) ==> {
                &&& r == RustlsResult::Success
                &&& final(session_out).id == old(self).sessions_len() + 1
                &&& final(self).session_handle_live(*final(session_out))
                &&& final(self).session_config(final(session_out).id - 1) == config.id - 1
                &&& final(self).session_state(final(session_out).id - 1) == ConnState::Handshaking
                &&& final(self).session_pending(final(session_out).id - 1).len() == 0
                &&& final(self).sessions_len() == old(self).sessions_len() + 1
                &&& forall|i: int| 0 <= i < old(self).sessions_len()
                    ==> final(self).same_session_at(*old(self), i)
                &&& final(self).configs_len() == old(self).configs_len()
                &&& final(self).config_live(config.id - 1)
                &&& final(self).config_caller_refs(config.id - 1)
                    == old(self).config_caller_refs(config.id - 1)
                &&& final(self).config_session_refs(config.id - 1)
                    == old(self).config_session_refs(config.id - 1) + 1
                &&& forall|j: int| 0 <= j < old(self).configs_len() && j != config.id - 1
                    ==> final(self).same_config_at(*old(self), j)
            },
    {
        if config.id == 0 {
            return RustlsResult::NullParameter;
        }
        let j = config.id - 1;
        if j >= self.configs.len() {
            return RustlsResult::NullParameter;
        }
        let eng = match &self.configs[j] {
            Some(c) => {
                match engine::parse_dns_name(hostname) {
                    Some(name) => engine::new_client_session(&c.cfg, &name),
                    None => {
                        return RustlsResult::Io;
                    },
                }
            },
            None => {
                return RustlsResult::NullParameter;
            },
        };
        let sid = self.sessions.len();
        self.sessions.push(
            Some(
                SessionSlot {
                    config_ix: j,
                    state: ConnState::Handshaking,
                    pending: Vec::new(),
                    engine: eng,
                },
            ),
        );
        proof {
            lemma_count_bound(old(self).sessions@, j as int);
        }
        match &mut self.configs[j] {
            Some(c) => {
                c.session_refs = c.session_refs + 1;
            },
            None => {},
        }
        proof {
            let ghost newslot = self.sessions@.last();
            assert forall|i: int|
                0 <= i < self.sessions@.len() && #[trigger] self.sessions@[i] is Some implies {
                    &&& 0 <= self.sessions@[i]->Some_0.config_ix < self.configs@.len()
                    &&& self.configs@[self.sessions@[i]->Some_0.config_ix as int] is Some
                } by {
                if i < old(self).sessions@.len() {
                    assert(self.sessions@[i] == old(self).sessions@[i]);
                    assert(old(self).sessions@[i] is Some);
                }
            }
            assert forall|k: int|
                0 <= k < self.configs@.len() && #[trigger] self.configs@[k] is Some implies {
                    &&& self.configs@[k]->Some_0.session_refs == count_refs(self.sessions@, k)
                    &&& self.configs@[k]->Some_0.caller_refs
                        + self.configs@[k]->Some_0.session_refs >= 1
                } by {
                lemma_count_push(old(self).sessions@, newslot, k);
                assert(old(self).configs@[k] is Some);
            }
        }
        *session_out = rustls_client_session { id: sid + 1 };
        RustlsResult::Success
    }

    /// Destroy a session. A null handle or one naming no live session is
    /// reported and nothing changes. Otherwise the session is destroyed
    /// and its configuration reference released; the configuration itself
    /// is destroyed only when no caller handle and no other session holds
    /// it.
    pub fn rustls_client_session_free(&mut self, h: rustls_client_session) -> (r: FreeOutcome)
        requires
            old(self).wf(),
        ensures
            final(self).wf(),
            final(self).sessions_len() == old(self).sessions_len(),
            final(self).configs_len() == old(self).configs_len(),
            h.id == 0 ==> r == FreeOutcome::NullHandle && final(self).same_configs(*old(self))
                && final(self).same_sessions(*old(self)),
            h.id >= 1 && !old(self).session_handle_live(h) ==> r == FreeOutcome::Misuse
                && final(self).same_configs(*old(self)) && final(self).same_sessions(*old(self)),
            old(self).session_handle_live(h) ==> ({
                let j = old(self).session_config(h.id - 1);
                &&& r == FreeOutcome::Freed
                &&& !final(self).session_live(h.id - 1)
                &&& forall|i: int| 0 <= i < old(self).sessions_len() && i != h.id - 1
                    ==> final(self).same_session_at(*old(self), i)
                &&& (old(self).config_caller_refs(j) == 0
                        && old(self).config_session_refs(j) == 1
                    ==> !final(self).config_live(j))
                &&& (old(self).config_caller_refs(j) >= 1 || old(self).config_session_refs(j) >= 2
                    ==> {
                    &&& final(self).config_live(j)
                    &&& final(self).config_caller_refs(j) == old(self).config_caller_refs(j)
                    &&& final(self).config_session_refs(j)
                        == old(self).config_session_refs(j) - 1
                })
                &&& forall|k: int| 0 <= k < old(self).configs_len() && k != j
                    ==> final(self).same_config_at(*old(self), k)
            }),
    {
        if h.id == 0 {
            return FreeOutcome::NullHandle;
        }
        let i = h.id - 1;
        if i >= self.sessions.len() {
            return FreeOutcome::Misuse;
        }
        let j = match &self.sessions[i] {
            Some(s) => s.config_ix,
            None => {
                return FreeOutcome::Misuse;
            },
        };
        proof {
            lemma_count_member(self.sessions@, i as int, j as int);
        }
        let (caller_refs, session_refs) = match &self.configs[j] {
            Some(c) => (c.caller_refs, c.session_refs),
            None => (0, 0),
        };
        self.sessions[i] = None;
        proof {
            assert forall|k: int| 0 <= k < self.configs@.len()
                implies count_refs(self.sessions@, k) + slot_contrib(old(self).sessions@[i as int], k)
                    == count_refs(old(self).sessions@, k) by {
                lemma_count_update(old(self).sessions@, i as int, None, k);
            }
        }
        if caller_refs == 0 && session_refs == 1 {
            self.configs[j] = None;
            proof {
                assert forall|i2: int|
                    0 <= i2 < self.sessions@.len() && #[trigger] self.sessions@[i2] is Some
                    implies {
                        &&& 0 <= self.sessions@[i2]->Some_0.config_ix < self.configs@.len()
                        &&& self.configs@[self.sessions@[i2]->Some_0.config_ix as int] is Some
                    } by {
                    assert(old(self).sessions@[i2] is Some);
                    if self.sessions@[i2]->Some_0.config_ix == j {
                        lemma_count_member(self.sessions@, i2, j as int);
                    }
                }
                assert forall|k: int|
                    0 <= k < self.configs@.len() && #[trigger] self.configs@[k] is Some implies {
                        &&& self.configs@[k]->Some_0.session_refs
                            == count_refs(self.sessions@, k)
                        &&& self.configs@[k]->Some_0.caller_refs
                            + self.configs@[k]->Some_0.session_refs >= 1
                    } by {
                    assert(old(self).configs@[k] is Some);
                }
            }
            return FreeOutcome::Freed;
        }
        match &mut self.configs[j] {
            Some(c) => {
                c.session_refs = c.session_refs - 1;
            },
            None => {},
        }
        proof {
            assert forall|i2: int|
                0 <= i2 < self.sessions@.len() && #[trigger] self.sessions@[i2] is Some implies {
                    &&& 0 <= self.sessions@[i2]->Some_0.config_ix < self.configs@.len()
                    &&& self.configs@[self.sessions@[i2]->Some_0.config_ix as int] is Some
                } by {
                assert(old(self).sessions@[i2] is Some);
            }
            assert forall|k: int|
                0 <= k < self.configs@.len() && #[trigger] self.configs@[k] is Some implies {
                    &&& self.configs@[k]->Some_0.session_refs == count_refs(self.sessions@, k)
                    &&& self.configs@[k]->Some_0.caller_refs
                        + self.configs@[k]->Some_0.session_refs >= 1
                } by {
                assert(old(self).configs@[k] is Some);
            }
        }
        FreeOutcome::Freed
    }

    /// Whether the engine currently needs more ciphertext to make
    /// progress; false on a null or dead handle. Side-effect-free.
    pub fn rustls_client_session_wants_read(&self, h: rustls_client_session) -> (r: bool)
        ensures
            !self.session_handle_live(h) ==> r == false,
    {
        if h.id == 0 {
            return false;
        }
        let i = h.id - 1;
        if i >= self.sessions.len() {
            return false;
        }
        match &self.sessions[i] {
            Some(s) => engine::engine_wants_read(&s.engine),
            None => false,
        }
    }

    /// Whether the engine currently has ciphertext queued to be drained;
    /// false on a null or dead handle. Side-effect-free.
    pub fn rustls_client_session_wants_write(&self, h: rustls_client_session) -> (r: bool)
        ensures
            !self.session_handle_live(h) ==> r == false,
    {
        if h.id == 0 {
            return false;
        }
        let i = h.id - 1;
        if i >= self.sessions.len() {
            return false;
        }
        match &self.sessions[i] {
            Some(s) => engine::engine_wants_write(&s.engine),
            None => false,
        }
    }

    /// Whether the session is still handshaking: exactly its tracked
    /// state; false on a null or dead handle. Side-effect-free.
    pub fn rustls_client_session_is_handshaking(&self, h: rustls_client_session) -> (r: bool)
        ensures
            !self.session_handle_live(h) ==> r == false,
            self.session_handle_live(h) ==> r == (self.session_state(h.id - 1)
                == ConnState::Handshaking),
    {
        if h.id == 0 {
            return false;
        }
        let i = h.id - 1;
        if i >= self.sessions.len() {
            return false;
        }
        match &self.sessions[i] {
            Some(s) => s.state == ConnState::Handshaking,
            None => false,
        }
    }

    /// Drive the engine: the session's ingress buffer is handed to the
    /// engine for as long as it keeps taking, and the engine then consumes
    /// what it holds — this may decrypt plaintext, queue outbound
    /// ciphertext, and complete the handshake. Ingress bytes the engine
    /// had no room for survive as a suffix for the next call.
    /// Malformed ciphertext is an ordinary engine failure code, never a
    /// crash. Only a successful call can move a session out of the
    /// handshaking state, and no call moves one back into it.
    pub fn rustls_client_session_process_new_packets(
        &mut self,
        h: rustls_client_session,
    ) -> (r: RustlsResult)
        requires
            old(self).wf(),
        ensures
            final(self).wf(),
            final(self).same_configs(*old(self)),
            final(self).sessions_len() == old(self).sessions_len(),
            !old(self).session_handle_live(h) ==> r == RustlsResult::NullParameter
                && final(self).same_sessions(*old(self)),
            old(self).session_handle_live(h) ==> ({
                let i = h.id - 1;
                &&& forall|i2: int| 0 <= i2 < old(self).sessions_len() && i2 != i
                    ==> final(self).same_session_at(*old(self), i2)
                &&& final(self).session_live(i)
                &&& final(self).session_config(i) == old(self).session_config(i)
                &&& is_suffix_of(final(self).session_pending(i), old(self).session_pending(i))
                &&& state_progress(old(self).session_state(i), final(self).session_state(i))
                &&& (old(self).session_state(i) == ConnState::Handshaking
                    ==> final(self).session_state(i) == ConnState::Handshaking
                        || final(self).session_state(i) == ConnState::Established)
                &&& (old(self).session_state(i) != ConnState::Handshaking
                    ==> final(self).session_state(i) == old(self).session_state(i))
                &&& (r != RustlsResult::Success
                    ==> final(self).session_state(i) == old(self).session_state(i))
                &&& (r == RustlsResult::Success
                    || r.spec_code() >= crate::result::ENGINE_CODE_BASE)
            }),
    {
        if h.id == 0 {
            return RustlsResult::NullParameter;
        }
        let i = h.id - 1;
        if i >= self.sessions.len() {
            return RustlsResult::NullParameter;
        }
        if self.sessions[i].is_none() {
            return RustlsResult::NullParameter;
        }
        let slot_opt = self.sessions[i].take();
        match slot_opt {
            None => RustlsResult::NullParameter,
            Some(mut slot) => {
                let ghost c0 = slot.config_ix;
                let ghost st0 = slot.state;
                let ghost p0 = slot.pending@;
                let ghost mut dropped: int = 0;
                // Hand the ingress buffer to the engine until it stops
                // taking; what it leaves stays for the next call.
                while slot.pending.len() > 0
                    invariant
                        slot.config_ix == c0,
                        slot.state == st0,
                        0 <= dropped <= p0.len(),
                        slot.pending@ =~= p0.skip(dropped),
                    decreases slot.pending@.len(),
                {
                    let taken = engine::engine_read_tls(&mut slot.engine, slot.pending.as_slice());
                    if taken == 0 {
                        break;
                    }
                    let ghost pcur = slot.pending@;
                    let mut rest: Vec<u8> = Vec::new();
                    let mut k: usize = taken;
                    while k < slot.pending.len()
                        invariant
                            taken <= k,
                            k <= slot.pending@.len(),
                            slot.pending@ == pcur,
                            taken <= pcur.len(),
                            rest@ =~= pcur.subrange(taken as int, k as int),
                        decreases slot.pending@.len() - k,
                    {
                        rest.push(slot.pending[k]);
                        k = k + 1;
                    }
                    proof {
                        assert(rest@ =~= p0.skip(dropped + taken as int));
                        dropped = dropped + taken as int;
                    }
                    slot.pending = rest;
                }
                let r = match engine::engine_process(&mut slot.engine) {
                    Ok(()) => {
                        if slot.state == ConnState::Handshaking
                            && !engine::engine_is_handshaking(&slot.engine) {
                            slot.state = ConnState::Established;
                        }
                        RustlsResult::Success
                    },
                    Err(e) => {
                        let f = engine::classify_failure(&e);
                        proof {
                            crate::result::lemma_engine_codes_partitioned(f);
                        }
                        crate::result::map_engine_failure(f)
                    },
                };
                let ghost pend_left = slot.pending@;
                self.sessions[i] = Some(slot);
                proof {
                    assert(self.sessions@
                        =~= old(self).sessions@.update(i as int, self.sessions@[i as int]));
                    lemma_session_slot_replaced(*old(self), *self, i as int);
                    assert(pend_left =~= p0.skip(dropped));
                    assert(is_suffix_of(pend_left, p0));
                }
                r
            },
        }
    }

    /// Accept plaintext from the caller and queue it for encryption. The
    /// count written through `out_n` may be less than the buffer's length:
    /// partial writes are legal and the caller retries with the remainder.
    /// A zero-length buffer always succeeds with a zero count.
    pub fn rustls_client_session_write(
        &mut self,
        h: rustls_client_session,
        buf: &[u8],
        out_n: &mut usize,
    ) -> (r: RustlsResult)
        requires
            old(self).wf(),
        ensures
            final(self).wf(),
            final(self).same_configs(*old(self)),
            final(self).sessions_len() == old(self).sessions_len(),
            forall|i2: int| 0 <= i2 < old(self).sessions_len()
                ==> final(self).same_session_at(*old(self), i2),
            !old(self).session_handle_live(h) ==> r == RustlsResult::NullParameter
                && *final(out_n) == *old(out_n),
            old(self).session_handle_live(h) ==> {
                &&& r == RustlsResult::Success
                &&& *final(out_n) <= buf@.len()
                &&& (buf@.len() == 0 ==> *final(out_n) == 0)
            },
    {
        if h.id == 0 {
            return RustlsResult::NullParameter;
        }
        let i = h.id - 1;
        if i >= self.sessions.len() {
            return RustlsResult::NullParameter;
        }
        if self.sessions[i].is_none() {
            return RustlsResult::NullParameter;
        }
        let n = match &mut self.sessions[i] {
            Some(s) => {
                if buf.len() == 0 {
                    0
                } else {
                    engine::engine_write_plaintext(&mut s.engine, buf)
                }
            },
            None => 0,
        };
        proof {
            lemma_session_slot_replaced(*old(self), *self, i as int);
        }
        *out_n = n;
        RustlsResult::Success
    }

    /// Copy already-decrypted plaintext into the caller's buffer, which is
    /// zero-filled first, so every byte at and beyond the count comes back
    /// zero: no stale memory is ever exposed. On a live handle the call
    /// always succeeds; a zero count means no plaintext is ready yet —
    /// except after the peer's graceful closure, when it means end of
    /// stream, indefinitely. A session enters the closed state only
    /// together with a zero count. A processing failure never destroys
    /// plaintext already decrypted: it can still be read here.
    pub fn rustls_client_session_read(
        &mut self,
        h: rustls_client_session,
        buf: &mut Vec<u8>,
        out_n: &mut usize,
    ) -> (r: RustlsResult)
        requires
            old(self).wf(),
        ensures
            final(self).wf(),
            final(self).same_configs(*old(self)),
            final(self).sessions_len() == old(self).sessions_len(),
            final(buf)@.len() == old(buf)@.len(),
            !old(self).session_handle_live(h) ==> r == RustlsResult::NullParameter
                && final(self).same_sessions(*old(self)) && *final(out_n) == *old(out_n)
                && final(buf)@ == old(buf)@,
            old(self).session_handle_live(h) ==> ({
                let i = h.id - 1;
                &&& r == RustlsResult::Success
                &&& *final(out_n) <= old(buf)@.len()
                &&& forall|i2: int| 0 <= i2 < old(self).sessions_len() && i2 != i
                    ==> final(self).same_session_at(*old(self), i2)
                &&& final(self).session_live(i)
                &&& final(self).session_config(i) == old(self).session_config(i)
                &&& final(self).session_pending(i) == old(self).session_pending(i)
                &&& state_progress(old(self).session_state(i), final(self).session_state(i))
                &&& (final(self).session_state(i) == old(self).session_state(i)
                    || final(self).session_state(i) == ConnState::Closed)
                &&& (final(self).session_state(i) == ConnState::Closed
                        && old(self).session_state(i) != ConnState::Closed
                    ==> *final(out_n) == 0)
                &&& (old(self).session_state(i) == ConnState::Closed ==> *final(out_n) == 0
                    && final(self).session_state(i) == ConnState::Closed)
                &&& (old(buf)@.len() == 0 ==> *final(out_n) == 0
                    && final(self).session_state(i) == old(self).session_state(i)
                    && final(buf)@ == old(buf)@)
                &&& forall|m: int| *final(out_n) <= m < final(buf)@.len()
                    ==> final(buf)@[m] == 0
            }),
    {
        if h.id == 0 {
            return RustlsResult::NullParameter;
        }
        let i = h.id - 1;
        if i >= self.sessions.len() {
            return RustlsResult::NullParameter;
        }
        let state = match &self.sessions[i] {
            Some(s) => s.state,
            None => {
                return RustlsResult::NullParameter;
            },
        };
        if buf.len() == 0 {
            *out_n = 0;
            return RustlsResult::Success;
        }
        let mut k: usize = 0;
        while k < buf.len()
            invariant
                k <= buf@.len(),
                buf@.len() == old(buf)@.len(),
                forall|m: int| 0 <= m < k ==> buf@[m] == 0,
            decreases buf@.len() - k,
        {
            buf[k] = 0;
            k = k + 1;
        }
        if state == ConnState::Closed {
            *out_n = 0;
            return RustlsResult::Success;
        }
        let outcome = match &mut self.sessions[i] {
            Some(s) => {
                let oc = engine::engine_read_plaintext(&mut s.engine, buf);
                if oc == engine::ReadOutcome::Closed {
                    s.state = ConnState::Closed;
                }
                oc
            },
            None => engine::ReadOutcome::Failed,
        };
        proof {
            lemma_session_slot_replaced(*old(self), *self, i as int);
        }
        match outcome {
            engine::ReadOutcome::Data(n) => {
                *out_n = n;
                RustlsResult::Success
            },
            engine::ReadOutcome::Closed => {
                *out_n = 0;
                RustlsResult::Success
            },
            engine::ReadOutcome::Failed => RustlsResult::Io,
        }
    }

    /// Feed ciphertext read from the transport into the session's ingress
    /// buffer. The whole buffer is always taken, so the consumed count is
    /// zero only when zero bytes were offered; the ingress buffer grows
    /// with what the caller feeds until processing drains it into the
    /// engine. This call alone decrypts nothing — processing must follow.
    pub fn rustls_client_session_read_tls(
        &mut self,
        h: rustls_client_session,
        buf: &[u8],
        out_n: &mut usize,
    ) -> (r: RustlsResult)
        requires
            old(self).wf(),
        ensures
            final(self).wf(),
            final(self).same_configs(*old(self)),
            final(self).sessions_len() == old(self).sessions_len(),
            !old(self).session_handle_live(h) ==> r == RustlsResult::NullParameter
                && *final(out_n) == *old(out_n) && final(self).same_sessions(*old(self)),
            old(self).session_handle_live(h) ==> ({
                let i = h.id - 1;
                &&& r == RustlsResult::Success
                &&& *final(out_n) == buf@.len()
                &&& forall|i2: int| 0 <= i2 < old(self).sessions_len() && i2 != i
                    ==> final(self).same_session_at(*old(self), i2)
                &&& final(self).session_live(i)
                &&& final(self).session_config(i) == old(self).session_config(i)
                &&& final(self).session_state(i) == old(self).session_state(i)
                &&& final(self).session_pending(i) =~= old(self).session_pending(i) + buf@
            }),
    {
        if h.id == 0 {
            return RustlsResult::NullParameter;
        }
        let i = h.id - 1;
        if i >= self.sessions.len() {
            return RustlsResult::NullParameter;
        }
        if self.sessions[i].is_none() {
            return RustlsResult::NullParameter;
        }
        let slot_opt = self.sessions[i].take();
        match slot_opt {
            None => RustlsResult::NullParameter,
            Some(mut slot) => {
                let ghost c0 = slot.config_ix;
                let ghost st0 = slot.state;
                let ghost p0 = slot.pending@;
                let mut k: usize = 0;
                while k < buf.len()
                    invariant
                        k <= buf@.len(),
                        slot.config_ix == c0,
                        slot.state == st0,
                        slot.pending@ =~= p0 + buf@.take(k as int),
                    decreases buf@.len() - k,
                {
                    slot.pending.push(buf[k]);
                    k = k + 1;
                    proof {
                        assert(slot.pending@ =~= p0 + buf@.take(k as int));
                    }
                }
                proof {
                    assert(buf@.take(buf@.len() as int) =~= buf@);
                }
                *out_n = buf.len();
                self.sessions[i] = Some(slot);
                proof {
                    assert(self.sessions@
                        =~= old(self).sessions@.update(i as int, self.sessions@[i as int]));
                    lemma_session_slot_replaced(*old(self), *self, i as int);
                }
                RustlsResult::Success
            },
        }
    }

    /// Drain queued outbound ciphertext into the caller's buffer for
    /// transmission. The count written through `out_n` may be zero when
    /// nothing is queued. A zero-length buffer always succeeds with a zero
    /// count.
    pub fn rustls_client_session_write_tls(
        &mut self,
        h: rustls_client_session,
        buf: &mut Vec<u8>,
        out_n: &mut usize,
    ) -> (r: RustlsResult)
        requires
            old(self).wf(),
        ensures
            final(self).wf(),
            final(self).same_configs(*old(self)),
            final(self).sessions_len() == old(self).sessions_len(),
            forall|i2: int| 0 <= i2 < old(self).sessions_len()
                ==> final(self).same_session_at(*old(self), i2),
            final(buf)@.len() == old(buf)@.len(),
            !old(self).session_handle_live(h) ==> r == RustlsResult::NullParameter
                && *final(out_n) == *old(out_n) && final(buf)@ == old(buf)@,
            old(self).session_handle_live(h) ==> {
                &&& r == RustlsResult::Success
                &&& *final(out_n) <= old(buf)@.len()
                &&& (old(buf)@.len() == 0 ==> *final(out_n) == 0)
            },
    {
        if h.id == 0 {
            return RustlsResult::NullParameter;
        }
        let i = h.id - 1;
        if i >= self.sessions.len() {
            return RustlsResult::NullParameter;
        }
        if self.sessions[i].is_none() {
            return RustlsResult::NullParameter;
        }
        let n = match &mut self.sessions[i] {
            Some(s) => {
                if buf.len() == 0 {
                    0
                } else {
                    engine::engine_write_tls(&mut s.engine, buf)
                }
            },
            None => 0,
        };
        proof {
            lemma_session_slot_replaced(*old(self), *self, i as int);
        }
        *out_n = n;
        RustlsResult::Success
    }
}

/// Whether `suffix` is what remains of `whole` after consuming a prefix.
pub open spec fn is_suffix_of(suffix: Seq<u8>, whole: Seq<u8>) -> bool {
    exists|k: int| 0 <= k <= whole.len() && suffix =~= whole.skip(k)
}

/// One state may follow another only forward: handshaking may lead
/// anywhere, an established session never returns to handshaking, and a
/// closed session stays closed.
pub open spec fn state_progress(pre: ConnState, post: ConnState) -> bool {
    match pre {
        ConnState::Handshaking => true,
        ConnState::Established => post != ConnState::Handshaking,
        ConnState::Closed => post == ConnState::Closed,
    }
}

/// Replacing one session slot by another bound to the same configuration
/// (its engine or state may differ) preserves well-formedness and every
/// other slot's view.
proof fn lemma_session_slot_replaced(pre: Registry, post: Registry, i: int)
    requires
        pre.wf(),
        post.configs@ == pre.configs@,
        0 <= i < pre.sessions@.len(),
        pre.sessions@[i] is Some,
        post.sessions@[i] is Some,
        post.sessions@ == pre.sessions@.update(i, post.sessions@[i]),
        post.sessions@[i]->Some_0.config_ix == pre.sessions@[i]->Some_0.config_ix,
    ensures
        post.wf(),
        post.same_configs(pre),
        post.sessions_len() == pre.sessions_len(),
        forall|i2: int| 0 <= i2 < pre.sessions@.len() && i2 != i
            ==> post.same_session_at(pre, i2),
        post.session_live(i),
        post.session_config(i) == pre.session_config(i),
{
    assert forall|i2: int|
        0 <= i2 < post.sessions@.len() && #[trigger] post.sessions@[i2] is Some implies {
            &&& 0 <= post.sessions@[i2]->Some_0.config_ix < post.configs@.len()
            &&& post.configs@[post.sessions@[i2]->Some_0.config_ix as int] is Some
        } by {
        if i2 != i {
            assert(post.sessions@[i2] == pre.sessions@[i2]);
        }
        assert(pre.sessions@[i2] is Some);
    }
    assert forall|k: int|
        0 <= k < post.configs@.len() && #[trigger] post.configs@[k] is Some implies {
            &&& post.configs@[k]->Some_0.session_refs == count_refs(post.sessions@, k)
            &&& post.configs@[k]->Some_0.caller_refs + post.configs@[k]->Some_0.session_refs
                >= 1
        } by {
        lemma_count_update(pre.sessions@, i, post.sessions@[i], k);
        assert(slot_contrib(pre.sessions@[i], k) == slot_contrib(post.sessions@[i], k));
        assert(pre.configs@[k] is Some);
    }
}

/// A configuration outlives the caller's own handle: while any session
/// built from it lives, the configuration is live and counted as held by
/// that session, whatever caller references remain.
pub proof fn lemma_config_outlives_caller(r: Registry, i: int)
    requires
        r.wf(),
        r.session_live(i),
    ensures
        r.config_live(r.session_config(i)),
        r.config_session_refs(r.session_config(i)) >= 1,
{
    assert(r.sessions@[i] is Some);
    lemma_count_member(r.sessions@, i, r.session_config(i));
}

/// Across any operation that creates and destroys no session — destroying
/// the caller's configuration handle among them — every live session keeps
/// its state, and the configuration it retains stays alive.
pub proof fn lemma_sessions_survive(pre: Registry, post: Registry, i: int)
    requires
        post.wf(),
        post.same_sessions(pre),
        pre.session_live(i),
    ensures
        post.session_live(i),
        post.session_state(i) == pre.session_state(i),
        post.session_config(i) == pre.session_config(i),
        post.config_live(post.session_config(i)),
{
    assert(post.same_session_at(pre, i));
    lemma_config_outlives_caller(post, i);
}

/// State progress composes: once a session has moved past a state, no
/// sequence of operations brings it back.
pub proof fn lemma_state_progress_transitive(a: ConnState, b: ConnState, c: ConnState)
    requires
        state_progress(a, b),
        state_progress(b, c),
    ensures
        state_progress(a, c),
{
}

/// Closure is terminal: no operation moves a closed session anywhere
/// else, so once the peer's graceful shutdown is signalled, reads answer
/// success with a zero count indefinitely.
pub proof fn lemma_closed_is_terminal(post: ConnState)
    requires
        state_progress(ConnState::Closed, post),
    ensures
        post == ConnState::Closed,
{
}

} // verus!
