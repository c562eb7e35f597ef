use vstd::prelude::*;
use crate::json::str_eq;
use vstd::string::StringExecFns;

verus! {

/// The mathematical shape of one registered session: the part of a session
/// the registry answers for.
pub struct SessionInfo {
    pub work_dir: Seq<char>,
    pub handle: u64,
}

/// One registered session: a thread identity bound to the subprocess named
/// by `handle`. The handle is an opaque token the caller pairs with the
/// spawned process; the registry only guarantees it names one session.
pub struct SessionEntry {
    pub thread_id: String,
    pub work_dir: String,
    pub handle: u64,
}

/// The model of one entry.
pub open spec fn entry_info(e: SessionEntry) -> SessionInfo {
    SessionInfo { work_dir: e.work_dir@, handle: e.handle }
}

/// First entry whose identity is `id`, if any.
pub open spec fn find_entry(es: Seq<SessionEntry>, id: Seq<char>) -> Option<SessionInfo>
    decreases es.len(),
{
    if es.len() == 0 {
        None
    } else if es[0].thread_id@ == id {
        Some(entry_info(es[0]))
    } else {
        find_entry(es.drop_first(), id)
    }
}

/// No two entries share a thread identity.
spec fn ids_unique(es: Seq<SessionEntry>) -> bool {
    forall|i: int, j: int|
        0 <= i < j < es.len() ==> (#[trigger] es[i]).thread_id@ != (#[trigger] es[j]).thread_id@
}

/// No two entries share a subprocess handle, and every handle is below the
/// next one to be handed out.
spec fn handles_ok(es: Seq<SessionEntry>, next: u64) -> bool {
    &&& forall|i: int, j: int|
        0 <= i < j < es.len() ==> (#[trigger] es[i]).handle != (#[trigger] es[j]).handle
    &&& forall|i: int| 0 <= i < es.len() ==> (#[trigger] es[i]).handle < next
}

/// Why a request on a session failed.
#[derive(Debug, PartialEq, Eq, Structural, Clone, Copy)]
pub enum SessionError {
    /// The thread identity has no active session.
    UnknownSession,
}

/// One write the caller must perform on a session's input pipe: the exact
/// bytes of one line, terminator included, for the subprocess named by
/// `handle`. Flushing immediately after the write is the caller's duty.
#[derive(Debug, PartialEq, Eq)]
pub struct WriteAction {
    pub handle: u64,
    pub payload: String,
}

/// The session registry and lifecycle: a map from thread identity to one
/// running subprocess, with at most one session per identity. The registry
/// decides what to do; performing the spawn, write, and terminate calls it
/// asks for is the caller's part.
pub struct ClaudeManager {
    entries: Vec<SessionEntry>,
    next_handle: u64,
}

impl ClaudeManager {
    /// The session registered under `id`, if any.
    pub closed spec fn lookup(self, id: Seq<char>) -> Option<SessionInfo> {
        find_entry(self.entries@, id)
    }

    /// At most one session per identity, one handle per session, and no
    /// handle reused.
    pub closed spec fn wf(self) -> bool {
        &&& ids_unique(self.entries@)
        &&& handles_ok(self.entries@, self.next_handle)
    }

    /// How many handles have ever been handed out.
    pub closed spec fn handles_used(self) -> u64 {
        self.next_handle
    }

    /// A registry with no sessions.
    pub fn new() -> (m: ClaudeManager)
        ensures
            m.wf(),
            m.handles_used() == 0,
            forall|id: Seq<char>| #[trigger] m.lookup(id) is None,
    {
        let m = ClaudeManager { entries: Vec::new(), next_handle: 0 };
        proof {
            assert forall|id: Seq<char>| #[trigger] m.lookup(id) is None by {
                assert(m.entries@.len() == 0);
            }
        }
        m
    }

    /// How many sessions have ever been started: the count of handles
    /// handed out so far.
    pub fn sessions_started(&self) -> (r: u64)
        ensures
            r == self.handles_used(),
    {
        self.next_handle
    }

    /// The index of the entry registered under `thread_id`, if any.
    fn find_index(&self, thread_id: &str) -> (r: Option<usize>)
        ensures
            match r {
                Some(k) => k < self.entries@.len() && self.entries@[k as int].thread_id@
                    == thread_id@,
                None => forall|i: int|
                    0 <= i < self.entries@.len() ==> (#[trigger] self.entries@[i]).thread_id@
                        != thread_id@,
            },
    {
        let n: usize = self.entries.len();
        let mut i: usize = 0;
        while i < n
            invariant
                i <= n,
                n == self.entries@.len(),
                forall|j: int|
                    0 <= j < i ==> (#[trigger] self.entries@[j]).thread_id@ != thread_id@,
            decreases n - i,
        {
            if str_eq(self.entries[i].thread_id.as_str(), thread_id) {
                return Some(i);
            }
            i += 1;
        }
        None
    }

    /// Registers a session under `thread_id` and hands out a fresh handle,
    /// silently replacing any session already registered under the same
    /// identity; sessions under other identities are untouched.
    pub fn start_thread(&mut self, thread_id: &str, work_dir: &str) -> (h: u64)
        requires
            old(self).wf(),
            old(self).handles_used() < u64::MAX,
        ensures
            final(self).wf(),
            h == old(self).handles_used(),
            final(self).handles_used() == old(self).handles_used() + 1,
            final(self).lookup(thread_id@) == (Some(
                SessionInfo { work_dir: work_dir@, handle: h },
            )),
            forall|other: Seq<char>|
                other != thread_id@ ==> #[trigger] final(self).lookup(other) == old(self).lookup(
                    other,
                ),
    {
        let ghost pre = self.entries@;
        match self.find_index(thread_id) {
            Some(k) => {
                self.entries.remove(k);
                proof {
                    lemma_remove_unique(pre, k as int);
                    lemma_remove_handles(pre, k as int, self.next_handle);
                    assert forall|id: Seq<char>| true implies #[trigger] find_entry(
                        self.entries@,
                        id,
                    ) == (if id == pre[k as int].thread_id@ {
                        None::<SessionInfo>
                    } else {
                        find_entry(pre, id)
                    }) by {
                        lemma_find_remove(pre, k as int, id);
                    }
                }
            },
            None => {
                proof {
                    lemma_find_none(pre, thread_id@);
                }
            },
        }
        let ghost mid = self.entries@;
        proof {
            assert(find_entry(mid, thread_id@) is None);
        }
        let h = self.next_handle;
        let entry = SessionEntry {
            thread_id: thread_id.to_owned(),
            work_dir: work_dir.to_owned(),
            handle: h,
        };
        let ghost gen = entry;
        self.entries.push(entry);
        self.next_handle = self.next_handle + 1;
        proof {
            let post = self.entries@;
            assert(post == mid.push(gen));
            assert forall|i: int| 0 <= i < mid.len() implies (#[trigger] mid[i]).thread_id@
                != thread_id@ by {
                if mid[i].thread_id@ == thread_id@ {
                    lemma_find_some_at(mid, i);
                }
            }
            assert(ids_unique(post)) by {
                assert forall|i: int, j: int|
                    0 <= i < j < post.len() implies (#[trigger] post[i]).thread_id@
                    != (#[trigger] post[j]).thread_id@ by {
                    if j < mid.len() {
                        assert(post[i] == mid[i]);
                        assert(post[j] == mid[j]);
                    } else {
                        assert(post[j] == gen);
                        assert(post[i] == mid[i]);
                    }
                }
            }
            assert(handles_ok(post, self.next_handle)) by {
                assert forall|i: int, j: int|
                    0 <= i < j < post.len() implies (#[trigger] post[i]).handle
                    != (#[trigger] post[j]).handle by {
                    if j < mid.len() {
                        assert(post[i] == mid[i]);
                        assert(post[j] == mid[j]);
                    } else {
                        assert(post[j] == gen);
                        assert(post[i] == mid[i]);
                    }
                }
                assert forall|i: int| 0 <= i < post.len() implies (#[trigger] post[i]).handle
                    < self.next_handle by {
                    if i < mid.len() {
                        assert(post[i] == mid[i]);
                    } else {
                        assert(post[i] == gen);
                    }
                }
            }
            assert forall|id: Seq<char>| true implies #[trigger] find_entry(post, id) == (if
            find_entry(mid, id) is Some {
                find_entry(mid, id)
            } else if id == thread_id@ {
                Some(SessionInfo { work_dir: work_dir@, handle: h })
            } else {
                None::<SessionInfo>
            }) by {
                lemma_find_push(mid, gen, id);
            }
        }
        h
    }

    /// The write that delivers `message` to the session under `thread_id`:
    /// the message's bytes followed by one line terminator, for that
    /// session's own subprocess. Fails, touching nothing, exactly when the
    /// identity has no active session.
    pub fn send_message(&self, thread_id: &str, message: &str) -> (r: Result<
        WriteAction,
        SessionError,
    >)
        requires
            self.wf(),
        ensures
            match r {
                Ok(a) => {
                    &&& self.lookup(thread_id@) matches Some(s) && a.handle == s.handle
                    &&& a.payload@ == message@.push('\n')
                },
                Err(e) => e == SessionError::UnknownSession && self.lookup(thread_id@) is None,
            },
    {
        match self.find_index(thread_id) {
            Some(k) => {
                proof {
                    lemma_find_some_at(self.entries@, k as int);
                }
                let mut payload = message.to_owned();
                payload.append("\n");
                proof {
                    reveal_strlit("\n");
                    assert(payload@ =~= message@.push('\n'));
                }
                Ok(WriteAction { handle: self.entries[k].handle, payload })
            },
            None => {
                proof {
                    lemma_find_none(self.entries@, thread_id@);
                }
                Err(SessionError::UnknownSession)
            },
        }
    }

    /// The write that answers a pending permission prompt for the session
    /// under `thread_id`: a one-character affirmative or negative token as
    /// a line, for that session's own subprocess. The tool identity is
    /// carried by the caller's protocol and does not change the answer.
    /// Fails, touching nothing, exactly when the identity has no active
    /// session.
    pub fn approve_permission(
        &self,
        thread_id: &str,
        tool_id: &str,
        approved: bool,
    ) -> (r: Result<WriteAction, SessionError>)
        requires
            self.wf(),
        ensures
            match r {
                Ok(a) => {
                    &&& self.lookup(thread_id@) matches Some(s) && a.handle == s.handle
                    &&& a.payload@ == (if approved {
                        seq!['y', '\n']
                    } else {
                        seq!['n', '\n']
                    })
                },
                Err(e) => e == SessionError::UnknownSession && self.lookup(thread_id@) is None,
            },
    {
        match self.find_index(thread_id) {
            Some(k) => {
                proof {
                    lemma_find_some_at(self.entries@, k as int);
                }
                let payload = if approved {
                    String::from_str("y\n")
                } else {
                    String::from_str("n\n")
                };
                proof {
                    reveal_strlit("y\n");
                    reveal_strlit("n\n");
                    if approved {
                        assert(payload@ =~= seq!['y', '\n']);
                    } else {
                        assert(payload@ =~= seq!['n', '\n']);
                    }
                }
                Ok(WriteAction { handle: self.entries[k].handle, payload })
            },
            None => {
                proof {
                    lemma_find_none(self.entries@, thread_id@);
                }
                Err(SessionError::UnknownSession)
            },
        }
    }

    /// Removes the session under `thread_id`, handing its subprocess handle
    /// back for a best-effort terminate; on an identity with no active
    /// session it is a no-op. Either way it succeeds, and sessions under
    /// other identities are untouched.
    pub fn stop_thread(&mut self, thread_id: &str) -> (r: Option<u64>)
        requires
            old(self).wf(),
        ensures
            final(self).wf(),
            final(self).handles_used() == old(self).handles_used(),
            final(self).lookup(thread_id@) is None,
            forall|other: Seq<char>|
                other != thread_id@ ==> #[trigger] final(self).lookup(other) == old(self).lookup(
                    other,
                ),
            match r {
                Some(h) => old(self).lookup(thread_id@) matches Some(s) && s.handle == h,
                None => old(self).lookup(thread_id@) is None,
            },
    {
        let ghost pre = self.entries@;
        match self.find_index(thread_id) {
            Some(k) => {
                proof {
                    lemma_find_some_at(pre, k as int);
                }
                let h = self.entries[k].handle;
                self.entries.remove(k);
                proof {
                    lemma_remove_unique(pre, k as int);
                    lemma_remove_handles(pre, k as int, self.next_handle);
                    assert forall|id: Seq<char>| true implies #[trigger] find_entry(
                        self.entries@,
                        id,
                    ) == (if id == pre[k as int].thread_id@ {
                        None::<SessionInfo>
                    } else {
                        find_entry(pre, id)
                    }) by {
                        lemma_find_remove(pre, k as int, id);
                    }
                }
                Some(h)
            },
            None => {
                proof {
                    lemma_find_none(pre, thread_id@);
                }
                None
            },
        }
    }
}

/// No entry carries `id`, so the lookup fails.
proof fn lemma_find_none(es: Seq<SessionEntry>, id: Seq<char>)
    requires
        forall|i: int| 0 <= i < es.len() ==> (#[trigger] es[i]).thread_id@ != id,
    ensures
        find_entry(es, id) is None,
    decreases es.len(),
{
    if es.len() > 0 {
        assert(es[0].thread_id@ != id);
        lemma_find_none(es.drop_first(), id);
    }
}

/// With identities unique, the lookup of an entry's own identity answers
/// with that entry.
proof fn lemma_find_some_at(es: Seq<SessionEntry>, k: int)
    requires
        ids_unique(es),
        0 <= k < es.len(),
    ensures
        find_entry(es, es[k].thread_id@) == Some(entry_info(es[k])),
    decreases es.len(),
{
    if k > 0 {
        assert(es[0].thread_id@ != es[k].thread_id@);
        assert(ids_unique(es.drop_first())) by {
            assert forall|i: int, j: int|
                0 <= i < j < es.drop_first().len() implies (#[trigger] es.drop_first()[i]).thread_id@
                != (#[trigger] es.drop_first()[j]).thread_id@ by {
                assert(es.drop_first()[i] == es[i + 1]);
                assert(es.drop_first()[j] == es[j + 1]);
            }
        }
        lemma_find_some_at(es.drop_first(), k - 1);
    }
}

/// A successful lookup names some entry.
proof fn lemma_find_witness(es: Seq<SessionEntry>, id: Seq<char>)
    ensures
        find_entry(es, id) matches Some(info) ==> exists|k: int|
            0 <= k < es.len() && (#[trigger] es[k]).thread_id@ == id && info == entry_info(es[k]),
    decreases es.len(),
{
    if es.len() > 0 {
        if es[0].thread_id@ == id {
            assert(0 <= 0 < es.len() && es[0].thread_id@ == id);
        } else {
            lemma_find_witness(es.drop_first(), id);
            if find_entry(es, id) is Some {
                let info = find_entry(es, id)->Some_0;
                let k = choose|k: int|
                    0 <= k < es.drop_first().len() && (#[trigger] es.drop_first()[k]).thread_id@
                        == id && info == entry_info(es.drop_first()[k]);
                assert(es[k + 1] == es.drop_first()[k]);
            }
        }
    }
}

/// Removing one entry keeps the remaining identities unique.
proof fn lemma_remove_unique(es: Seq<SessionEntry>, k: int)
    requires
        ids_unique(es),
        0 <= k < es.len(),
    ensures
        ids_unique(es.remove(k)),
    decreases es.len(),
{
    assert forall|i: int, j: int|
        0 <= i < j < es.remove(k).len() implies (#[trigger] es.remove(k)[i]).thread_id@
        != (#[trigger] es.remove(k)[j]).thread_id@ by {
        assert(es.remove(k)[i] == (if i < k {
            es[i]
        } else {
            es[i + 1]
        }));
        assert(es.remove(k)[j] == (if j < k {
            es[j]
        } else {
            es[j + 1]
        }));
    }
}

/// Removing one entry keeps every handle unique and below the bound.
proof fn lemma_remove_handles(es: Seq<SessionEntry>, k: int, next: u64)
    requires
        handles_ok(es, next),
        0 <= k < es.len(),
    ensures
        handles_ok(es.remove(k), next),
{
    assert forall|i: int, j: int|
        0 <= i < j < es.remove(k).len() implies (#[trigger] es.remove(k)[i]).handle
        != (#[trigger] es.remove(k)[j]).handle by {
        assert(es.remove(k)[i] == (if i < k {
            es[i]
        } else {
            es[i + 1]
        }));
        assert(es.remove(k)[j] == (if j < k {
            es[j]
        } else {
            es[j + 1]
        }));
    }
    assert forall|i: int| 0 <= i < es.remove(k).len() implies (#[trigger] es.remove(k)[i]).handle
        < next by {
        assert(es.remove(k)[i] == (if i < k {
            es[i]
        } else {
            es[i + 1]
        }));
    }
}

/// What removing the entry at `k` does to every lookup: its own identity
/// is gone, every other identity answers as before.
proof fn lemma_find_remove(es: Seq<SessionEntry>, k: int, id: Seq<char>)
    requires
        ids_unique(es),
        0 <= k < es.len(),
    ensures
        find_entry(es.remove(k), id) == (if es[k].thread_id@ == id {
            None::<SessionInfo>
        } else {
            find_entry(es, id)
        }),
    decreases es.len(),
{
    if k == 0 {
        assert(es.remove(0) =~= es.drop_first());
        if es[0].thread_id@ == id {
            assert forall|i: int|
                0 <= i < es.drop_first().len() implies (#[trigger] es.drop_first()[i]).thread_id@
                != id by {
                assert(es.drop_first()[i] == es[i + 1]);
            }
            lemma_find_none(es.drop_first(), id);
        }
    } else {
        assert(ids_unique(es.drop_first())) by {
            assert forall|i: int, j: int|
                0 <= i < j < es.drop_first().len() implies (#[trigger] es.drop_first()[i]).thread_id@
                != (#[trigger] es.drop_first()[j]).thread_id@ by {
                assert(es.drop_first()[i] == es[i + 1]);
                assert(es.drop_first()[j] == es[j + 1]);
            }
        }
        lemma_find_remove(es.drop_first(), k - 1, id);
        assert(es.remove(k).drop_first() =~= es.drop_first().remove(k - 1));
        assert(es.remove(k)[0] == es[0]);
    }
}

/// What appending an entry does to every lookup: an identity found before
/// answers as before, the new entry's identity now answers with it.
proof fn lemma_find_push(es: Seq<SessionEntry>, e: SessionEntry, id: Seq<char>)
    ensures
        find_entry(es.push(e), id) == (if find_entry(es, id) is Some {
            find_entry(es, id)
        } else if e.thread_id@ == id {
            Some(entry_info(e))
        } else {
            None::<SessionInfo>
        }),
    decreases es.len(),
{
    let p = es.push(e);
    if es.len() == 0 {
        assert(p[0] == e);
        assert(p.drop_first() =~= Seq::<SessionEntry>::empty());
        if e.thread_id@ == id {
            assert(find_entry(p, id) == Some(entry_info(e)));
        } else {
            assert(find_entry(p.drop_first(), id) is None);
        }
        assert(find_entry(es, id) is None);
    } else {
        assert(p[0] == es[0]);
        lemma_find_push(es.drop_first(), e, id);
        assert(p.drop_first() =~= es.drop_first().push(e));
        if es[0].thread_id@ != id {
            assert(find_entry(p, id) == find_entry(es.drop_first().push(e), id));
            assert(find_entry(es, id) == find_entry(es.drop_first(), id));
        }
    }
}

/// Law: sessions under distinct identities are independent. A write action
/// the registry hands out for one identity names that session's own
/// subprocess handle, and no session under any other identity shares that
/// handle — so writing to one session can never reach another's input.
pub proof fn lemma_sessions_independent(m: ClaudeManager, a: Seq<char>, b: Seq<char>)
    requires
        m.wf(),
        a != b,
    ensures
        match (m.lookup(a), m.lookup(b)) {
            (Some(sa), Some(sb)) => sa.handle != sb.handle,
            _ => true,
        },
{
    lemma_find_witness(m.entries@, a);
    lemma_find_witness(m.entries@, b);
    if m.lookup(a) is Some && m.lookup(b) is Some {
        let sa = m.lookup(a)->Some_0;
        let sb = m.lookup(b)->Some_0;
        let ka = choose|k: int|
            0 <= k < m.entries@.len() && (#[trigger] m.entries@[k]).thread_id@ == a && sa
                == entry_info(m.entries@[k]);
        let kb = choose|k: int|
            0 <= k < m.entries@.len() && (#[trigger] m.entries@[k]).thread_id@ == b && sb
                == entry_info(m.entries@[k]);
        assert(ka != kb);
        if ka < kb {
            assert(m.entries@[ka].handle != m.entries@[kb].handle);
        } else {
            assert(m.entries@[kb].handle != m.entries@[ka].handle);
        }
    }
}

} // verus!
