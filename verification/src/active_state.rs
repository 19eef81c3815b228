//! Live session state shown on the dashboard (`~/.punch/logs/active.json`):
//! the port forwards and shell sessions running right now. Loading, saving
//! and announcing the changes are the caller's part.

use vstd::prelude::*;
use crate::text::str_eq;

verus! {

/// A running port forward.
#[derive(Debug)]
pub struct ActiveForward {
    pub id: String,
    pub port: u16,
    pub protocol: String,
    pub token_type: String,
    pub fingerprint: String,
    pub started_at: String,
    pub stream_count: u32,
}

/// A running shell session.
#[derive(Debug)]
pub struct ActiveShell {
    pub id: String,
    pub peer_node_id: String,
    pub token_type: String,
    pub fingerprint: String,
    pub started_at: String,
    pub cmd_count: u32,
}

/// Everything running now.
#[derive(Debug)]
pub struct ActiveState {
    pub forwards: Vec<ActiveForward>,
    pub shells: Vec<ActiveShell>,
}

impl Default for ActiveState {
    /// Nothing running.
    fn default() -> (s: Self)
        ensures
            s.forwards@.len() == 0,
            s.shells@.len() == 0,
    {
        ActiveState { forwards: Vec::new(), shells: Vec::new() }
    }
}

impl Clone for ActiveForward {
    fn clone(&self) -> (r: Self)
        ensures
            r == *self,
    {
        ActiveForward {
            id: self.id.clone(),
            port: self.port,
            protocol: self.protocol.clone(),
            token_type: self.token_type.clone(),
            fingerprint: self.fingerprint.clone(),
            started_at: self.started_at.clone(),
            stream_count: self.stream_count,
        }
    }
}

impl Clone for ActiveShell {
    fn clone(&self) -> (r: Self)
        ensures
            r == *self,
    {
        ActiveShell {
            id: self.id.clone(),
            peer_node_id: self.peer_node_id.clone(),
            token_type: self.token_type.clone(),
            fingerprint: self.fingerprint.clone(),
            started_at: self.started_at.clone(),
            cmd_count: self.cmd_count,
        }
    }
}

/// The forwards other than those with identifier `id`, in order.
pub open spec fn forwards_without(s: Seq<ActiveForward>, id: Seq<char>) -> Seq<ActiveForward>
    decreases s.len(),
{
    if s.len() == 0 {
        s
    } else if s.last().id@ == id {
        forwards_without(s.drop_last(), id)
    } else {
        forwards_without(s.drop_last(), id).push(s.last())
    }
}

/// The shells other than those with identifier `id`, in order.
pub open spec fn shells_without(s: Seq<ActiveShell>, id: Seq<char>) -> Seq<ActiveShell>
    decreases s.len(),
{
    if s.len() == 0 {
        s
    } else if s.last().id@ == id {
        shells_without(s.drop_last(), id)
    } else {
        shells_without(s.drop_last(), id).push(s.last())
    }
}

/// Index of the first forward with identifier `id`, or -1.
pub open spec fn forward_position(s: Seq<ActiveForward>, id: Seq<char>) -> int
    decreases s.len(),
{
    if s.len() == 0 {
        -1
    } else {
        let p = forward_position(s.drop_last(), id);
        if p >= 0 {
            p
        } else if s.last().id@ == id {
            s.len() - 1
        } else {
            -1
        }
    }
}

/// Index of the first shell with identifier `id`, or -1.
pub open spec fn shell_position(s: Seq<ActiveShell>, id: Seq<char>) -> int
    decreases s.len(),
{
    if s.len() == 0 {
        -1
    } else {
        let p = shell_position(s.drop_last(), id);
        if p >= 0 {
            p
        } else if s.last().id@ == id {
            s.len() - 1
        } else {
            -1
        }
    }
}

fn drop_forwards(v: &Vec<ActiveForward>, id: &str) -> (r: Vec<ActiveForward>)
    ensures
        r@ == forwards_without(v@, id@),
{
    let mut r: Vec<ActiveForward> = Vec::new();
    let mut i: usize = 0;
    while i < v.len()
        invariant
            i <= v@.len(),
            r@ == forwards_without(v@.take(i as int), id@),
        decreases v@.len() - i,
    {
        assert(v@.take(i + 1).drop_last() == v@.take(i as int));
        if !str_eq(v[i].id.as_str(), id) {
            r.push(v[i].clone());
        }
        i = i + 1;
    }
    assert(v@.take(v@.len() as int) == v@);
    r
}

fn drop_shells(v: &Vec<ActiveShell>, id: &str) -> (r: Vec<ActiveShell>)
    ensures
        r@ == shells_without(v@, id@),
{
    let mut r: Vec<ActiveShell> = Vec::new();
    let mut i: usize = 0;
    while i < v.len()
        invariant
            i <= v@.len(),
            r@ == shells_without(v@.take(i as int), id@),
        decreases v@.len() - i,
    {
        assert(v@.take(i + 1).drop_last() == v@.take(i as int));
        if !str_eq(v[i].id.as_str(), id) {
            r.push(v[i].clone());
        }
        i = i + 1;
    }
    assert(v@.take(v@.len() as int) == v@);
    r
}

fn find_forward(v: &Vec<ActiveForward>, id: &str) -> (p: Option<usize>)
    ensures
        match p {
            Some(i) => i < v@.len() && i as int == forward_position(v@, id@),
            None => forward_position(v@, id@) == -1,
        },
{
    let mut i: usize = 0;
    while i < v.len()
        invariant
            i <= v@.len(),
            forward_position(v@.take(i as int), id@) == -1,
        decreases v@.len() - i,
    {
        assert(v@.take(i + 1).drop_last() == v@.take(i as int));
        if str_eq(v[i].id.as_str(), id) {
            proof {
                lemma_forward_position_extend(v@, id@, i + 1);
            }
            return Some(i);
        }
        i = i + 1;
    }
    assert(v@.take(v@.len() as int) == v@);
    None
}

proof fn lemma_forward_position_extend(s: Seq<ActiveForward>, id: Seq<char>, k: int)
    requires
        0 <= k <= s.len(),
        forward_position(s.take(k), id) >= 0,
    ensures
        forward_position(s, id) == forward_position(s.take(k), id),
    decreases s.len() - k,
{
    if k < s.len() {
        assert(s.take(k + 1).drop_last() == s.take(k));
        lemma_forward_position_extend(s, id, k + 1);
    } else {
        assert(s.take(k) == s);
    }
}

fn find_shell(v: &Vec<ActiveShell>, id: &str) -> (p: Option<usize>)
    ensures
        match p {
            Some(i) => i < v@.len() && i as int == shell_position(v@, id@),
            None => shell_position(v@, id@) == -1,
        },
{
    let mut i: usize = 0;
    while i < v.len()
        invariant
            i <= v@.len(),
            shell_position(v@.take(i as int), id@) == -1,
        decreases v@.len() - i,
    {
        assert(v@.take(i + 1).drop_last() == v@.take(i as int));
        if str_eq(v[i].id.as_str(), id) {
            proof {
                lemma_shell_position_extend(v@, id@, i + 1);
            }
            return Some(i);
        }
        i = i + 1;
    }
    assert(v@.take(v@.len() as int) == v@);
    None
}

proof fn lemma_shell_position_extend(s: Seq<ActiveShell>, id: Seq<char>, k: int)
    requires
        0 <= k <= s.len(),
        shell_position(s.take(k), id) >= 0,
    ensures
        shell_position(s, id) == shell_position(s.take(k), id),
    decreases s.len() - k,
{
    if k < s.len() {
        assert(s.take(k + 1).drop_last() == s.take(k));
        lemma_shell_position_extend(s, id, k + 1);
    } else {
        assert(s.take(k) == s);
    }
}

/// Records a started forward, replacing any earlier entry with its id.
pub fn register_forward(state: &mut ActiveState, entry: ActiveForward)
    ensures
        final(state).forwards@ == forwards_without(old(state).forwards@, entry.id@).push(entry),
        final(state).shells@ == old(state).shells@,
{
    let mut kept = drop_forwards(&state.forwards, entry.id.as_str());
    kept.push(entry);
    state.forwards = kept;
}

/// Records the number of open streams of forward `id`.
pub fn update_forward_streams(state: &mut ActiveState, id: &str, count: u32)
    ensures
        forward_position(old(state).forwards@, id@) == -1 ==> final(state).forwards@ == old(state).forwards@,
        forward_position(old(state).forwards@, id@) >= 0 ==> final(state).forwards@ == old(state).forwards@.update(
            forward_position(old(state).forwards@, id@),
            ActiveForward { stream_count: count, ..old(state).forwards@[forward_position(old(state).forwards@, id@)] },
        ),
        final(state).shells@ == old(state).shells@,
{
    match find_forward(&state.forwards, id) {
        Some(i) => {
            let mut f = state.forwards[i].clone();
            f.stream_count = count;
            state.forwards.set(i, f);
        },
        None => {},
    }
}

/// Forgets forward `id`.
pub fn deregister_forward(state: &mut ActiveState, id: &str)
    ensures
        final(state).forwards@ == forwards_without(old(state).forwards@, id@),
        final(state).shells@ == old(state).shells@,
{
    state.forwards = drop_forwards(&state.forwards, id);
}

/// Records a started shell session, replacing any earlier entry with its id.
pub fn register_shell(state: &mut ActiveState, entry: ActiveShell)
    ensures
        final(state).shells@ == shells_without(old(state).shells@, entry.id@).push(entry),
        final(state).forwards@ == old(state).forwards@,
{
    let mut kept = drop_shells(&state.shells, entry.id.as_str());
    kept.push(entry);
    state.shells = kept;
}

/// The command count of shell `session_id` can be incremented.
pub open spec fn command_count_fits(state: ActiveState, session_id: Seq<char>) -> bool {
    shell_position(state.shells@, session_id) >= 0 ==>
        state.shells@[shell_position(state.shells@, session_id)].cmd_count < u32::MAX
}

/// Counts one more command in shell session `session_id`.
pub fn shell_command_event(state: &mut ActiveState, session_id: &str)
    requires
        command_count_fits(*old(state), session_id@),
    ensures
        shell_position(old(state).shells@, session_id@) == -1 ==> final(state).shells@ == old(state).shells@,
        shell_position(old(state).shells@, session_id@) >= 0 ==> final(state).shells@ == old(state).shells@.update(
            shell_position(old(state).shells@, session_id@),
            ActiveShell {
                cmd_count: (old(state).shells@[shell_position(old(state).shells@, session_id@)].cmd_count + 1) as u32,
                ..old(state).shells@[shell_position(old(state).shells@, session_id@)]
            },
        ),
        final(state).forwards@ == old(state).forwards@,
{
    match find_shell(&state.shells, session_id) {
        Some(i) => {
            let mut s = state.shells[i].clone();
            s.cmd_count = s.cmd_count + 1;
            state.shells.set(i, s);
        },
        None => {},
    }
}

/// Forgets shell session `id`.
pub fn deregister_shell(state: &mut ActiveState, id: &str)
    ensures
        final(state).shells@ == shells_without(old(state).shells@, id@),
        final(state).forwards@ == old(state).forwards@,
{
    state.shells = drop_shells(&state.shells, id);
}

proof fn lemma_forwards_without_none(s: Seq<ActiveForward>, id: Seq<char>)
    ensures
        forall|j: int| 0 <= j < forwards_without(s, id).len() ==> #[trigger] forwards_without(s, id)[j].id@ != id,
    decreases s.len(),
{
    if s.len() > 0 {
        lemma_forwards_without_none(s.drop_last(), id);
        let w = forwards_without(s.drop_last(), id);
        if s.last().id@ != id {
            assert forall|j: int| 0 <= j < w.push(s.last()).len() implies #[trigger] w.push(s.last())[j].id@ != id by {
                if j < w.len() {
                    assert(w.push(s.last())[j] == w[j]);
                }
            }
        }
    }
}

proof fn lemma_shells_without_none(s: Seq<ActiveShell>, id: Seq<char>)
    ensures
        forall|j: int| 0 <= j < shells_without(s, id).len() ==> #[trigger] shells_without(s, id)[j].id@ != id,
    decreases s.len(),
{
    if s.len() > 0 {
        lemma_shells_without_none(s.drop_last(), id);
        let w = shells_without(s.drop_last(), id);
        if s.last().id@ != id {
            assert forall|j: int| 0 <= j < w.push(s.last()).len() implies #[trigger] w.push(s.last())[j].id@ != id by {
                if j < w.len() {
                    assert(w.push(s.last())[j] == w[j]);
                }
            }
        }
    }
}

proof fn lemma_forwards_without_idem(s: Seq<ActiveForward>, id: Seq<char>)
    ensures
        forwards_without(forwards_without(s, id), id) == forwards_without(s, id),
    decreases s.len(),
{
    if s.len() > 0 {
        lemma_forwards_without_idem(s.drop_last(), id);
        let w = forwards_without(s.drop_last(), id);
        if s.last().id@ != id {
            assert(w.push(s.last()).drop_last() == w);
        }
    }
}

proof fn lemma_shells_without_idem(s: Seq<ActiveShell>, id: Seq<char>)
    ensures
        shells_without(shells_without(s, id), id) == shells_without(s, id),
    decreases s.len(),
{
    if s.len() > 0 {
        lemma_shells_without_idem(s.drop_last(), id);
        let w = shells_without(s.drop_last(), id);
        if s.last().id@ != id {
            assert(w.push(s.last()).drop_last() == w);
        }
    }
}

/// After a forward is registered it is listed exactly once, as the newest
/// entry; deregistering it afterwards leaves exactly the forwards that were
/// running before, minus any stale entry with its id.
pub proof fn forward_register_then_deregister(before: Seq<ActiveForward>, entry: ActiveForward)
    ensures
        ({
            let after = forwards_without(before, entry.id@).push(entry);
            &&& after.last() == entry
            &&& forall|j: int| 0 <= j < after.len() - 1 ==> #[trigger] after[j].id@ != entry.id@
            &&& forwards_without(after, entry.id@) == forwards_without(before, entry.id@)
        }),
{
    let w = forwards_without(before, entry.id@);
    lemma_forwards_without_none(before, entry.id@);
    lemma_forwards_without_idem(before, entry.id@);
    assert forall|j: int| 0 <= j < w.push(entry).len() - 1 implies #[trigger] w.push(entry)[j].id@ != entry.id@ by {
        assert(w.push(entry)[j] == w[j]);
    }
    assert(w.push(entry).drop_last() == w);
}

/// The same for shell sessions.
pub proof fn shell_register_then_deregister(before: Seq<ActiveShell>, entry: ActiveShell)
    ensures
        ({
            let after = shells_without(before, entry.id@).push(entry);
            &&& after.last() == entry
            &&& forall|j: int| 0 <= j < after.len() - 1 ==> #[trigger] after[j].id@ != entry.id@
            &&& shells_without(after, entry.id@) == shells_without(before, entry.id@)
        }),
{
    let w = shells_without(before, entry.id@);
    lemma_shells_without_none(before, entry.id@);
    lemma_shells_without_idem(before, entry.id@);
    assert forall|j: int| 0 <= j < w.push(entry).len() - 1 implies #[trigger] w.push(entry)[j].id@ != entry.id@ by {
        assert(w.push(entry)[j] == w[j]);
    }
    assert(w.push(entry).drop_last() == w);
}

} // verus!
