use vstd::prelude::*;
use vstd::string::StringExecFns;

verus! {

/// One record of the security audit trail: a free-form action key, a
/// free-form detail, and the wall-clock time the caller supplied.
#[derive(Debug)]
pub struct AuditEntry {
    pub action: String,
    pub detail: String,
    pub timestamp: i64,
}

/// The mathematical image of an `AuditEntry`.
pub ghost struct AuditEntryView {
    pub action: Seq<char>,
    pub detail: Seq<char>,
    pub timestamp: i64,
}

impl View for AuditEntry {
    type V = AuditEntryView;

    open spec fn view(&self) -> AuditEntryView {
        AuditEntryView { action: self.action@, detail: self.detail@, timestamp: self.timestamp }
    }
}

impl Clone for AuditEntry {
    fn clone(&self) -> (r: Self)
        ensures
            r@ == self@,
    {
        AuditEntry {
            action: self.action.clone(),
            detail: self.detail.clone(),
            timestamp: self.timestamp,
        }
    }
}

/// How one entry appears in the rendered log dump.
pub open spec fn rendered_entry(e: AuditEntryView) -> Seq<char> {
    e.action + seq![':', ' '] + e.detail
}

/// Append-only log of security-relevant actions. Entries are never
/// mutated or deleted; retrieval returns them oldest first.
pub struct AuditTrail {
    entries: Vec<AuditEntry>,
}

impl AuditTrail {
    /// The recorded entries, oldest first.
    pub closed spec fn view(&self) -> Seq<AuditEntryView> {
        self.entries@.map_values(|e: AuditEntry| e@)
    }

    /// An empty trail.
    pub fn new() -> (r: AuditTrail)
        ensures
            r@ == Seq::<AuditEntryView>::empty(),
    {
        let t = AuditTrail { entries: Vec::new() };
        proof {
            assert(t@ =~= Seq::<AuditEntryView>::empty());
        }
        t
    }

    /// Record one action. Appends exactly one entry at the end and never
    /// fails: audit is observability, not a gate.
    pub fn log(&mut self, action: &str, detail: &str, timestamp: i64)
        ensures
            final(self)@ == old(self)@.push(
                AuditEntryView { action: action@, detail: detail@, timestamp },
            ),
    {
        self.entries.push(
            AuditEntry { action: action.to_owned(), detail: detail.to_owned(), timestamp },
        );
        proof {
            assert(self@ =~= old(self)@.push(
                AuditEntryView { action: action@, detail: detail@, timestamp },
            ));
        }
    }

    /// How many entries the trail holds.
    pub fn len(&self) -> (r: usize)
        ensures
            r == self@.len(),
    {
        self.entries.len()
    }

    /// A copy of the full history, oldest first.
    pub fn get_entries(&self) -> (r: Vec<AuditEntry>)
        ensures
            r@.len() == self@.len(),
            forall|i: int| 0 <= i < r@.len() ==> #[trigger] r@[i]@ == self@[i],
    {
        let mut out: Vec<AuditEntry> = Vec::new();
        let mut i: usize = 0;
        while i < self.entries.len()
            invariant
                i <= self.entries@.len(),
                out@.len() == i,
                forall|j: int| 0 <= j < i ==> #[trigger] out@[j]@ == self@[j],
            decreases self.entries@.len() - i,
        {
            out.push(self.entries[i].clone());
            i = i + 1;
        }
        out
    }

    /// The full history rendered one line per entry, oldest first:
    /// the action, a colon and a space, then the detail.
    pub fn get_logs(&self) -> (r: Vec<String>)
        ensures
            r@.len() == self@.len(),
            forall|i: int| 0 <= i < r@.len() ==> #[trigger] r@[i]@ == rendered_entry(self@[i]),
    {
        let mut out: Vec<String> = Vec::new();
        let mut i: usize = 0;
        while i < self.entries.len()
            invariant
                i <= self.entries@.len(),
                out@.len() == i,
                forall|j: int| 0 <= j < i ==> #[trigger] out@[j]@ == rendered_entry(self@[j]),
            decreases self.entries@.len() - i,
        {
            let mut line = self.entries[i].action.clone();
            line.append(": ");
            line.append(self.entries[i].detail.as_str());
            proof {
                reveal_strlit(": ");
                assert(line@ =~= rendered_entry(self@[i as int]));
            }
            out.push(line);
            i = i + 1;
        }
        out
    }
}

/// The audit trail is append-only: every operation that records entries
/// promises that the old history is a prefix of the new one, so the
/// entries already present stand unchanged, in their old order, at
/// their old positions. After N recorded operations the trail holds at
/// least N entries beyond where it started.
pub proof fn lemma_audit_append_only(pre: Seq<AuditEntryView>, post: Seq<AuditEntryView>)
    requires
        pre.len() <= post.len(),
        post.take(pre.len() as int) == pre,
    ensures
        forall|i: int| 0 <= i < pre.len() ==> post[i] == pre[i],
{
    assert forall|i: int| 0 <= i < pre.len() implies post[i] == pre[i] by {
        assert(post.take(pre.len() as int)[i] == post[i]);
    }
}

/// Prefix relations chain: when a first operation leaves history `a` as
/// a prefix of `b`, and a second leaves `b` as a prefix of `c`, then `a`
/// is still a prefix of `c`. Applied once per operation, this carries
/// the append-only guarantee across any number of recorded operations:
/// after N of them the trail holds at least N entries beyond `a`, with
/// each operation's entry standing at the position it was appended at,
/// in completion order.
pub proof fn lemma_audit_prefix_chain(
    a: Seq<AuditEntryView>,
    b: Seq<AuditEntryView>,
    c: Seq<AuditEntryView>,
)
    requires
        a.len() <= b.len(),
        b.take(a.len() as int) == a,
        b.len() <= c.len(),
        c.take(b.len() as int) == b,
    ensures
        a.len() <= c.len(),
        c.take(a.len() as int) == a,
{
    assert(c.take(a.len() as int) =~= a) by {
        assert forall|i: int| 0 <= i < a.len() implies c.take(a.len() as int)[i] == a[i] by {
            assert(c.take(b.len() as int)[i] == c[i]);
            assert(b.take(a.len() as int)[i] == b[i]);
        }
    }
}

} // verus!
