//! The shared history log: one ordered, append-only sequence of messages.
//!
//! The log is the only state that sessions share. It only ever grows, by
//! `append`; `snapshot` hands a caller a point-in-time copy that is safe to
//! render without further coordination. A caller that must see its own append
//! in the very next snapshot holds the log exclusively across both calls.

use vstd::prelude::*;

verus! {

/// The ordered log of every message sent by any client, oldest first.
///
/// Abstractly it is a sequence of messages (each a sequence of characters);
/// insertion order is append order. There is no eviction and no upper bound:
/// the log grows for as long as it lives.
pub struct History {
    messages: Vec<String>,
}

impl View for History {
    type V = Seq<Seq<char>>;

    closed spec fn view(&self) -> Seq<Seq<char>> {
        self.messages.deep_view()
    }
}

impl History {
    /// An empty log, as created once at process startup.
    pub fn new() -> (h: History)
        ensures
            h@ == Seq::<Seq<char>>::empty(),
    {
        let h = History { messages: Vec::new() };
        proof {
            assert(h@ =~= Seq::<Seq<char>>::empty());
        }
        h
    }

    /// How many messages the log holds.
    pub fn len(&self) -> (n: usize)
        ensures
            n == self@.len(),
    {
        self.messages.len()
    }

    /// Adds `message` at the end of the log. Always succeeds: no validation,
    /// no capacity limit, and every earlier message keeps its place.
    pub fn append(&mut self, message: String)
        ensures
            final(self)@ == old(self)@.push(message@),
    {
        self.messages.push(message);
        proof {
            assert(self@ =~= old(self)@.push(message@));
        }
    }

    /// A point-in-time copy of the whole log, equal to it entry for entry.
    /// No partially applied append can be observed: the caller sees exactly
    /// the messages appended so far, in order.
    pub fn snapshot(&self) -> (r: Vec<String>)
        ensures
            r.deep_view() == self@,
    {
        let mut out: Vec<String> = Vec::new();
        let n = self.messages.len();
        for i in 0..n
            invariant
                n == self.messages@.len(),
                out@ == self.messages@.take(i as int),
        {
            out.push(self.messages[i].clone());
            proof {
                assert(out@ =~= self.messages@.take(i + 1 as int));
            }
        }
        proof {
            assert(out@ =~= self.messages@);
            assert(out.deep_view() =~= self@);
        }
        out
    }
}

/// How many entries of `h` equal `m`.
pub open spec fn occurrences(h: Seq<Seq<char>>, m: Seq<char>) -> nat
    decreases h.len(),
{
    if h.len() == 0 {
        0
    } else {
        occurrences(h.drop_last(), m) + (if h.last() == m {
            1nat
        } else {
            0nat
        })
    }
}

/// Append-order visibility: after an append the log holds the appended
/// message at the end and every earlier message unchanged at its place, so a
/// snapshot taken together with the append (as `handle_message` does) always
/// shows the session's own message and every message appended before it, and
/// is never shorter than one entry.
pub proof fn lemma_append_visibility(h: Seq<Seq<char>>, m: Seq<char>)
    ensures
        h.push(m).len() == h.len() + 1,
        h.push(m).len() >= 1,
        h.push(m)[h.len() as int] == m,
        forall|i: int| 0 <= i < h.len() ==> h.push(m)[i] == h[i],
{
}

/// One append adds one occurrence of the appended message and none of any
/// other: growth is strictly by append, nothing is rewritten.
pub proof fn lemma_occurrences_push(h: Seq<Seq<char>>, x: Seq<char>, m: Seq<char>)
    ensures
        occurrences(h.push(x), m) == occurrences(h, m) + (if x == m {
            1nat
        } else {
            0nat
        }),
{
    assert(h.push(x).drop_last() =~= h);
}

/// Occurrences add up over concatenation: the log after any run of further
/// appends holds, of each message, its old occurrences plus those among the
/// newly appended ones.
pub proof fn lemma_occurrences_concat(h: Seq<Seq<char>>, later: Seq<Seq<char>>, m: Seq<char>)
    ensures
        occurrences(h + later, m) == occurrences(h, m) + occurrences(later, m),
    decreases later.len(),
{
    if later.len() == 0 {
        assert(h + later =~= h);
    } else {
        assert((h + later).drop_last() =~= h + later.drop_last());
        lemma_occurrences_concat(h, later.drop_last(), m);
    }
}

/// No duplication: a message standing exactly once in the log stands exactly
/// once in every later snapshot, however many messages unequal to it are
/// appended after it.
pub proof fn lemma_no_duplication(h: Seq<Seq<char>>, later: Seq<Seq<char>>, m: Seq<char>)
    requires
        occurrences(h, m) == 1,
        occurrences(later, m) == 0,
    ensures
        occurrences(h + later, m) == 1,
{
    lemma_occurrences_concat(h, later, m);
}

/// Idempotent read safety: `snapshot` takes the log by shared reference and
/// changes nothing, and its result is exactly the log's current contents, so
/// any two snapshot results with no intervening append are identical.
pub proof fn lemma_snapshot_idempotent(h: History, r1: Seq<Seq<char>>, r2: Seq<Seq<char>>)
    requires
        r1 == h@,
        r2 == h@,
    ensures
        r1 == r2,
{
}

} // verus!
