use std::collections::HashMap;
use std::collections::VecDeque;
use vstd::prelude::*;

use crate::message::{MsgV, RawMessage};

verus! {

broadcast use vstd::std_specs::hash::group_hash_axioms;

/// The mathematical contents of one conversation's buffer, oldest first.
pub open spec fn deque_msgs(d: VecDeque<RawMessage>) -> Seq<MsgV> {
    d@.map_values(|m: RawMessage| m@)
}

/// One append to a bounded FIFO buffer: with capacity 0 nothing is kept; at
/// capacity the oldest element leaves before the new one enters at the tail.
pub open spec fn push_evict(buf: Seq<MsgV>, m: MsgV, cap: nat) -> Seq<MsgV> {
    if cap == 0 {
        buf
    } else if buf.len() >= cap {
        buf.drop_first().push(m)
    } else {
        buf.push(m)
    }
}

/// A whole run of appends, first element appended first.
pub open spec fn fold_adds(buf: Seq<MsgV>, msgs: Seq<MsgV>, cap: nat) -> Seq<MsgV>
    decreases msgs.len(),
{
    if msgs.len() == 0 {
        buf
    } else {
        fold_adds(push_evict(buf, msgs[0], cap), msgs.drop_first(), cap)
    }
}

/// The last `cap` elements of a sequence, or all of it when it is shorter.
pub open spec fn last_n(s: Seq<MsgV>, cap: nat) -> Seq<MsgV> {
    if s.len() <= cap {
        s
    } else {
        s.subrange(s.len() - cap, s.len() as int)
    }
}

proof fn lemma_push_evict_last_n(buf: Seq<MsgV>, m: MsgV, cap: nat)
    requires
        1 <= cap,
        buf.len() <= cap,
    ensures
        push_evict(buf, m, cap) == last_n(buf.push(m), cap),
{
    if buf.len() >= cap {
        assert(buf.drop_first().push(m) =~= last_n(buf.push(m), cap));
    }
}

proof fn lemma_last_n_absorb(s: Seq<MsgV>, t: Seq<MsgV>, cap: nat)
    requires
        1 <= cap,
    ensures
        last_n(last_n(s, cap) + t, cap) == last_n(s + t, cap),
{
    assert(last_n(last_n(s, cap) + t, cap) =~= last_n(s + t, cap));
}

/// A run of appends into a buffer that is within capacity leaves exactly the
/// last `cap` elements of "old contents, then the appended messages", in
/// order.
proof fn lemma_fold_adds_last_n(buf: Seq<MsgV>, msgs: Seq<MsgV>, cap: nat)
    requires
        1 <= cap,
        buf.len() <= cap,
    ensures
        fold_adds(buf, msgs, cap) == last_n(buf + msgs, cap),
    decreases msgs.len(),
{
    if msgs.len() == 0 {
        assert(buf + msgs =~= buf);
    } else {
        let m0 = msgs[0];
        let pe = push_evict(buf, m0, cap);
        lemma_push_evict_last_n(buf, m0, cap);
        lemma_fold_adds_last_n(pe, msgs.drop_first(), cap);
        lemma_last_n_absorb(buf.push(m0), msgs.drop_first(), cap);
        assert(buf.push(m0) + msgs.drop_first() =~= buf + msgs);
    }
}

/// For any capacity `cap >= 1` and any run of at least `cap` appends into an
/// initially empty buffer, the buffer ends up holding exactly the last `cap`
/// appended messages, in append order.
pub proof fn lemma_cache_keeps_last_capacity(msgs: Seq<MsgV>, cap: nat)
    requires
        1 <= cap <= msgs.len(),
    ensures
        fold_adds(Seq::<MsgV>::empty(), msgs, cap) == msgs.subrange(
            msgs.len() - cap,
            msgs.len() as int,
        ),
{
    lemma_fold_adds_last_n(Seq::<MsgV>::empty(), msgs, cap);
    assert(Seq::<MsgV>::empty() + msgs =~= msgs);
}

/// With capacity 0, no run of appends changes a buffer: history is disabled.
pub proof fn lemma_cache_capacity_zero(buf: Seq<MsgV>, msgs: Seq<MsgV>)
    ensures
        fold_adds(buf, msgs, 0) == buf,
    decreases msgs.len(),
{
    if msgs.len() > 0 {
        lemma_cache_capacity_zero(buf, msgs.drop_first());
    }
}

/// The per-conversation bounded message history: a mapping from conversation
/// identity to a fixed-capacity FIFO buffer of raw messages. Pure data, no
/// I/O; eviction is oldest-first on append, and reading never creates a
/// buffer.
pub struct MessageCache {
    map: HashMap<i64, VecDeque<RawMessage>>,
    size: usize,
}

impl MessageCache {
    /// The capacity every conversation's buffer was configured with.
    pub closed spec fn capacity(&self) -> nat {
        self.size as nat
    }

    /// The buffered messages of one conversation, oldest first; empty for a
    /// conversation never appended to.
    pub closed spec fn contents(&self, key: i64) -> Seq<MsgV> {
        if self.map@.contains_key(key) {
            deque_msgs(self.map@[key])
        } else {
            Seq::<MsgV>::empty()
        }
    }

    /// Every buffer is within capacity; with capacity 0 no buffer exists.
    pub closed spec fn wf(&self) -> bool {
        &&& forall|k: i64|
            self.map@.contains_key(k) ==> (#[trigger] self.map@[k])@.len() <= self.size
        &&& (self.size == 0 ==> self.map@.dom() =~= Set::<i64>::empty())
    }

    /// A well-formed store never holds more than its capacity in any
    /// conversation's buffer.
    pub proof fn lemma_contents_bounded(&self, key: i64)
        requires
            self.wf(),
        ensures
            self.contents(key).len() <= self.capacity(),
    {
        if self.map@.contains_key(key) {
            assert(self.map@[key]@.len() <= self.size);
        }
    }

    /// An empty store for the given per-conversation capacity.
    pub fn new(size: usize) -> (r: Self)
        ensures
            r.wf(),
            r.capacity() == size,
            forall|k: i64| r.contents(k) == Seq::<MsgV>::empty(),
    {
        MessageCache { map: HashMap::new(), size }
    }

    /// Append one message to its conversation's buffer, creating the buffer
    /// lazily and evicting the oldest message when the buffer is full. A
    /// no-op when the capacity is 0. Other conversations are untouched.
    pub fn add(&mut self, msg: RawMessage)
        requires
            old(self).wf(),
        ensures
            final(self).wf(),
            final(self).capacity() == old(self).capacity(),
            final(self).contents(msg.chat_id) == push_evict(
                old(self).contents(msg.chat_id),
                msg@,
                old(self).capacity(),
            ),
            forall|k: i64|
                k != msg.chat_id ==> final(self).contents(k) == old(self).contents(k),
    {
        if self.size == 0 {
            return ;
        }
        let key = msg.chat_id;
        let ghost before = self.contents(key);
        let mut buf: VecDeque<RawMessage> = match self.map.remove(&key) {
            Some(b) => b,
            None => VecDeque::new(),
        };
        proof {
            assert(deque_msgs(buf) == before);
        }
        if buf.len() == self.size {
            buf.pop_front();
            proof {
                assert(deque_msgs(buf) =~= before.drop_first());
            }
        }
        buf.push_back(msg);
        proof {
            assert(deque_msgs(buf) =~= push_evict(before, msg@, old(self).capacity()));
        }
        self.map.insert(key, buf);
    }

    /// A snapshot of one conversation's buffered messages, oldest first;
    /// empty, and without any side effect, for a conversation that has no
    /// buffer.
    pub fn messages(&self, chat_id: i64) -> (r: Vec<RawMessage>)
        ensures
            r.deep_view() == self.contents(chat_id),
    {
        let mut r: Vec<RawMessage> = Vec::new();
        match self.map.get(&chat_id) {
            None => {
                proof {
                    assert(r.deep_view() =~= self.contents(chat_id));
                }
                r
            },
            Some(d) => {
                let n = d.len();
                let mut i: usize = 0;
                while i < n
                    invariant
                        i <= n,
                        n == d@.len(),
                        self.map@.contains_key(chat_id),
                        *d == self.map@[chat_id],
                        r.deep_view() =~= deque_msgs(*d).subrange(0, i as int),
                    decreases n - i,
                {
                    let x = d[i].clone();
                    proof {
                        assert(x@ == d@[i as int]@);
                        assert(deque_msgs(*d)[i as int] == d@[i as int]@);
                    }
                    let ghost prev_seq = r@;
                    let ghost prev_dv = r.deep_view();
                    r.push(x);
                    proof {
                        let dv = r.deep_view();
                        let target = deque_msgs(*d).subrange(0, i + 1);
                        assert(prev_dv.len() == prev_seq.len());
                        assert(prev_dv.len() == i as int);
                        assert(r@ == prev_seq.push(x));
                        assert(dv.len() == r@.len());
                        assert forall|j: int| 0 <= j < dv.len() implies dv[j] == target[j] by {
                            assert(dv[j] == r@[j].deep_view());
                            if j < i as int {
                                assert(r@[j] == prev_seq[j]);
                                assert(prev_dv[j] == prev_seq[j].deep_view());
                                assert(prev_dv[j] == deque_msgs(*d).subrange(0, i as int)[j]);
                            } else {
                                assert(r@[j] == x);
                            }
                            assert(target[j] == deque_msgs(*d)[j]);
                        }
                        assert(dv =~= target);
                    }
                    i = i + 1;
                }
                proof {
                    assert(deque_msgs(*d).subrange(0, n as int) =~= deque_msgs(*d));
                }
                r
            },
        }
    }
}

} // verus!
