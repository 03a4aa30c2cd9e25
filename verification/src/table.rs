//! The connection table: demultiplexes inbound segments by their
//! address/port four-tuple, creating a listening connection on first
//! sight of a quad and dropping an entry when a step closes it.

use vstd::prelude::*;
use crate::tcp::{Connection, TcpFields, TcpOut, Disposition, spec_step, spec_listen_connection,
    MAX_SEGMENT_PAYLOAD};

verus! {

/// The four-tuple identifying one connection; addresses are IPv4
/// addresses in their natural big-endian numeric reading.
#[derive(Clone, Copy, PartialEq, Eq, Structural, Debug)]
pub struct Quad {
    pub src_ip: u32,
    pub src_port: u16,
    pub dst_ip: u32,
    pub dst_port: u16,
}

/// Map from quads to live connections, owner of every connection.
pub struct ConnectionTable {
    entries: Vec<(Quad, Connection)>,
}

impl ConnectionTable {
    /// The entries as a sequence of key/value pairs.
    pub closed spec fn entries_seq(&self) -> Seq<(Quad, Connection)> {
        self.entries@
    }

    /// Well-formed: no two entries share a quad.
    pub open spec fn wf(&self) -> bool {
        forall|i: int, j: int|
            0 <= i < j < self.entries_seq().len() ==> (#[trigger] self.entries_seq()[i]).0
                != (#[trigger] self.entries_seq()[j]).0
    }

    /// Whether a connection for `q` is present.
    pub open spec fn spec_has(&self, q: Quad) -> bool {
        exists|i: int| 0 <= i < self.entries_seq().len() && (#[trigger] self.entries_seq()[i]).0 == q
    }

    /// The connection for `q`, when one is present.
    pub open spec fn spec_conn(&self, q: Quad) -> Connection {
        let i = choose|i: int|
            0 <= i < self.entries_seq().len() && (#[trigger] self.entries_seq()[i]).0 == q;
        self.entries_seq()[i].1
    }

    /// An empty table.
    pub fn new() -> (t: ConnectionTable)
        ensures
            t.wf(),
            t.entries_seq().len() == 0,
            forall|q: Quad| !t.spec_has(q),
    {
        ConnectionTable { entries: Vec::new() }
    }

    /// Number of live connections.
    pub fn len(&self) -> (n: usize)
        ensures
            n == self.entries_seq().len(),
    {
        self.entries.len()
    }

    /// Index of the entry for `q`, if one is present.
    fn find(&self, q: &Quad) -> (r: Option<usize>)
        ensures
            r is Some ==> 0 <= r->Some_0 < self.entries_seq().len()
                && self.entries_seq()[r->Some_0 as int].0 == *q,
            r is None ==> !self.spec_has(*q),
    {
        let n = self.entries.len();
        for i in 0..n
            invariant
                n == self.entries_seq().len(),
                forall|j: int| 0 <= j < i ==> (#[trigger] self.entries_seq()[j]).0 != *q,
        {
            if self.entries[i].0 == *q {
                return Some(i);
            }
        }
        None
    }

    /// Whether a connection for `q` is present.
    pub fn has(&self, q: &Quad) -> (r: bool)
        ensures
            r == self.spec_has(*q),
    {
        self.find(q).is_some()
    }

    /// The connection for `q`, when one is present.
    pub fn get(&self, q: &Quad) -> (r: Option<Connection>)
        requires
            self.wf(),
        ensures
            r is Some == self.spec_has(*q),
            r is Some ==> r->Some_0 == self.spec_conn(*q),
    {
        match self.find(q) {
            Some(i) => {
                proof {
                    self.lemma_unique_at(i as int, *q);
                }
                Some(self.entries[i].1)
            }
            None => None,
        }
    }

    /// With unique keys, the entry found at `i` is the one `spec_conn`
    /// speaks of.
    proof fn lemma_unique_at(&self, i: int, q: Quad)
        requires
            self.wf(),
            0 <= i < self.entries_seq().len(),
            self.entries_seq()[i].0 == q,
        ensures
            self.spec_has(q),
            self.spec_conn(q) == self.entries_seq()[i].1,
    {
        let j = choose|j: int|
            0 <= j < self.entries_seq().len() && (#[trigger] self.entries_seq()[j]).0 == q;
        if i < j {
            assert(self.entries_seq()[i].0 != self.entries_seq()[j].0);
        } else if j < i {
            assert(self.entries_seq()[j].0 != self.entries_seq()[i].0);
        }
    }

    /// Route one inbound segment: look the quad up, creating a listening
    /// connection if it is unseen, let the state machine process the
    /// segment, and keep or drop the entry as the step's disposition
    /// says.  Returns the reply, if any.
    pub fn route(&mut self, q: &Quad, seg: &TcpFields, payload_len: usize) -> (r: Option<TcpOut>)
        requires
            old(self).wf(),
            payload_len <= MAX_SEGMENT_PAYLOAD,
        ensures
            final(self).wf(),
            ({
                let c0 = if old(self).spec_has(*q) {
                    old(self).spec_conn(*q)
                } else {
                    spec_listen_connection()
                };
                let s = spec_step(c0, *seg, payload_len as nat);
                r == s.reply
                && (s.disposition == Disposition::Retain ==> final(self).spec_has(*q)
                    && final(self).spec_conn(*q) == s.conn)
                && (s.disposition == Disposition::Close ==> !final(self).spec_has(*q))
            }),
            forall|q2: Quad| q2 != *q ==> #[trigger] final(self).spec_has(q2)
                == old(self).spec_has(q2),
            forall|q2: Quad| q2 != *q && old(self).spec_has(q2)
                ==> #[trigger] final(self).spec_conn(q2) == old(self).spec_conn(q2),
    {
        match self.find(q) {
            Some(i) => {
                proof {
                    self.lemma_unique_at(i as int, *q);
                }
                let mut c = self.entries[i].1;
                let act = c.on_segment(seg, payload_len);
                match act.disposition {
                    Disposition::Retain => {
                        self.entries[i] = (*q, c);
                        proof {
                            self.lemma_unique_at(i as int, *q);
                            self.lemma_others(*old(self), i as int, *q);
                        }
                    }
                    Disposition::Close => {
                        self.entries.remove(i);
                        proof {
                            self.lemma_removed(*old(self), i as int, *q);
                        }
                    }
                }
                act.reply
            }
            None => {
                let mut c = Connection::accept();
                let act = c.on_segment(seg, payload_len);
                match act.disposition {
                    Disposition::Retain => {
                        self.entries.push((*q, c));
                        proof {
                            self.lemma_unique_at(self.entries_seq().len() - 1, *q);
                            self.lemma_pushed(*old(self), *q);
                        }
                    }
                    Disposition::Close => {}
                }
                act.reply
            }
        }
    }

    /// Updating entry `i` in place leaves every other quad's presence and
    /// connection unchanged.
    proof fn lemma_others(&self, pre: ConnectionTable, i: int, q: Quad)
        requires
            pre.wf(),
            self.wf(),
            0 <= i < pre.entries_seq().len(),
            self.entries_seq().len() == pre.entries_seq().len(),
            pre.entries_seq()[i].0 == q,
            self.entries_seq()[i].0 == q,
            forall|j: int| 0 <= j < pre.entries_seq().len() && j != i
                ==> #[trigger] self.entries_seq()[j] == pre.entries_seq()[j],
        ensures
            forall|q2: Quad| q2 != q ==> #[trigger] self.spec_has(q2) == pre.spec_has(q2),
            forall|q2: Quad| q2 != q && pre.spec_has(q2)
                ==> #[trigger] self.spec_conn(q2) == pre.spec_conn(q2),
    {
        assert forall|q2: Quad| q2 != q implies #[trigger] self.spec_has(q2) == pre.spec_has(
            q2,
        ) by {
            if pre.spec_has(q2) {
                let j = choose|j: int|
                    0 <= j < pre.entries_seq().len() && (#[trigger] pre.entries_seq()[j]).0 == q2;
                assert(self.entries_seq()[j].0 == q2);
            }
            if self.spec_has(q2) {
                let j = choose|j: int|
                    0 <= j < self.entries_seq().len() && (#[trigger] self.entries_seq()[j]).0
                        == q2;
                assert(pre.entries_seq()[j].0 == q2);
            }
        }
        assert forall|q2: Quad| q2 != q && pre.spec_has(q2) implies #[trigger] self.spec_conn(q2)
            == pre.spec_conn(q2) by {
            let j = choose|j: int|
                0 <= j < pre.entries_seq().len() && (#[trigger] pre.entries_seq()[j]).0 == q2;
            assert(self.entries_seq()[j].0 == q2);
            pre.lemma_unique_at(j, q2);
            self.lemma_unique_at(j, q2);
        }
    }

    /// Removing entry `i` drops its quad and leaves every other quad's
    /// presence and connection unchanged; uniqueness is kept.
    proof fn lemma_removed(&self, pre: ConnectionTable, i: int, q: Quad)
        requires
            pre.wf(),
            0 <= i < pre.entries_seq().len(),
            pre.entries_seq()[i].0 == q,
            self.entries_seq() == pre.entries_seq().remove(i),
        ensures
            self.wf(),
            !self.spec_has(q),
            forall|q2: Quad| q2 != q ==> #[trigger] self.spec_has(q2) == pre.spec_has(q2),
            forall|q2: Quad| q2 != q && pre.spec_has(q2)
                ==> #[trigger] self.spec_conn(q2) == pre.spec_conn(q2),
    {
        assert forall|a: int, b: int| 0 <= a < b < self.entries_seq().len() implies (
        #[trigger] self.entries_seq()[a]).0 != (#[trigger] self.entries_seq()[b]).0 by {
            let a0 = if a < i { a } else { a + 1 };
            let b0 = if b < i { b } else { b + 1 };
            assert(self.entries_seq()[a] == pre.entries_seq()[a0]);
            assert(self.entries_seq()[b] == pre.entries_seq()[b0]);
        }
        assert forall|j: int| 0 <= j < self.entries_seq().len() implies (
        #[trigger] self.entries_seq()[j]).0 != q by {
            let j0 = if j < i { j } else { j + 1 };
            assert(self.entries_seq()[j] == pre.entries_seq()[j0]);
            if j0 != i {
                pre.lemma_unique_at(i, q);
                if j0 < i {
                    assert(pre.entries_seq()[j0].0 != pre.entries_seq()[i].0);
                } else {
                    assert(pre.entries_seq()[i].0 != pre.entries_seq()[j0].0);
                }
            }
        }
        assert forall|q2: Quad| q2 != q implies #[trigger] self.spec_has(q2) == pre.spec_has(
            q2,
        ) by {
            if pre.spec_has(q2) {
                let j = choose|j: int|
                    0 <= j < pre.entries_seq().len() && (#[trigger] pre.entries_seq()[j]).0 == q2;
                let j1 = if j < i { j } else { j - 1 };
                assert(self.entries_seq()[j1] == pre.entries_seq()[j]);
            }
            if self.spec_has(q2) {
                let j = choose|j: int|
                    0 <= j < self.entries_seq().len() && (#[trigger] self.entries_seq()[j]).0
                        == q2;
                let j0 = if j < i { j } else { j + 1 };
                assert(pre.entries_seq()[j0] == self.entries_seq()[j]);
            }
        }
        assert forall|q2: Quad| q2 != q && pre.spec_has(q2) implies #[trigger] self.spec_conn(q2)
            == pre.spec_conn(q2) by {
            let j = choose|j: int|
                0 <= j < pre.entries_seq().len() && (#[trigger] pre.entries_seq()[j]).0 == q2;
            let j1 = if j < i { j } else { j - 1 };
            assert(self.entries_seq()[j1] == pre.entries_seq()[j]);
            pre.lemma_unique_at(j, q2);
            self.lemma_unique_at(j1, q2);
        }
    }

    /// Pushing an entry for an unseen quad keeps uniqueness and leaves
    /// every other quad's presence and connection unchanged.
    proof fn lemma_pushed(&self, pre: ConnectionTable, q: Quad)
        requires
            pre.wf(),
            !pre.spec_has(q),
            self.entries_seq().len() == pre.entries_seq().len() + 1,
            self.entries_seq()[self.entries_seq().len() - 1].0 == q,
            forall|j: int| 0 <= j < pre.entries_seq().len()
                ==> #[trigger] self.entries_seq()[j] == pre.entries_seq()[j],
        ensures
            self.wf(),
            forall|q2: Quad| q2 != q ==> #[trigger] self.spec_has(q2) == pre.spec_has(q2),
            forall|q2: Quad| q2 != q && pre.spec_has(q2)
                ==> #[trigger] self.spec_conn(q2) == pre.spec_conn(q2),
    {
        let n = pre.entries_seq().len() as int;
        assert forall|a: int, b: int| 0 <= a < b < self.entries_seq().len() implies (
        #[trigger] self.entries_seq()[a]).0 != (#[trigger] self.entries_seq()[b]).0 by {
            if b < n {
            } else {
                assert(self.entries_seq()[a] == pre.entries_seq()[a]);
                assert(!pre.spec_has(q));
                if pre.entries_seq()[a].0 == q {
                    assert(pre.spec_has(q));
                }
            }
        }
        assert forall|q2: Quad| q2 != q implies #[trigger] self.spec_has(q2) == pre.spec_has(
            q2,
        ) by {
            if pre.spec_has(q2) {
                let j = choose|j: int|
                    0 <= j < pre.entries_seq().len() && (#[trigger] pre.entries_seq()[j]).0 == q2;
                assert(self.entries_seq()[j].0 == q2);
            }
            if self.spec_has(q2) {
                let j = choose|j: int|
                    0 <= j < self.entries_seq().len() && (#[trigger] self.entries_seq()[j]).0
                        == q2;
                assert(j < n);
                assert(pre.entries_seq()[j].0 == q2);
            }
        }
        assert forall|q2: Quad| q2 != q && pre.spec_has(q2) implies #[trigger] self.spec_conn(q2)
            == pre.spec_conn(q2) by {
            let j = choose|j: int|
                0 <= j < pre.entries_seq().len() && (#[trigger] pre.entries_seq()[j]).0 == q2;
            assert(self.entries_seq()[j].0 == q2);
            pre.lemma_unique_at(j, q2);
            self.lemma_unique_at(j, q2);
        }
    }
}

} // verus!
