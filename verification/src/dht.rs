//! The DHT client discipline: a put completes when enough replicas
//! acknowledge it, and a get accepts a value only once at least two
//! byte-identical responses have been seen, retrying a bounded number of
//! times before failing. The network delivers responses and acks; these
//! sessions decide what they mean.

use vstd::prelude::*;
use crate::handle::NetworkNodeHandleError;

verus! {

/// How many byte-identical copies a get must see before accepting.
pub open spec fn get_quorum() -> int {
    2
}

/// Number of responses in `rs` byte-identical to `v`.
pub open spec fn count_matching(rs: Seq<Seq<u8>>, v: Seq<u8>) -> int
    decreases rs.len(),
{
    if rs.len() == 0 {
        0
    } else {
        count_matching(rs.drop_last(), v) + if rs.last() == v {
            1int
        } else {
            0int
        }
    }
}

/// Whether two byte strings are identical.
pub fn bytes_eq(a: &Vec<u8>, b: &Vec<u8>) -> (r: bool)
    ensures
        r == (a@ == b@),
{
    if a.len() != b.len() {
        proof {
            assert(a@ != b@);
        }
        return false;
    }
    let mut i: usize = 0;
    while i < a.len()
        invariant
            i <= a@.len(),
            a@.len() == b@.len(),
            forall|j: int| 0 <= j < i ==> a@[j] == b@[j],
        decreases a@.len() - i,
    {
        if a[i] != b[i] {
            proof {
                assert(a@ != b@);
            }
            return false;
        }
        i = i + 1;
    }
    proof {
        assert(a@ =~= b@);
    }
    true
}

/// One in-flight `get_record` request.
#[derive(Debug)]
pub struct GetSession {
    /// The serialized key being looked up
    pub key: Vec<u8>,
    /// How many more rounds may be retried after a failure
    pub retries_left: u8,
    /// The responses seen in the current round
    pub responses: Vec<Vec<u8>>,
}

/// What a get session does after a round fails.
#[derive(Clone, Copy, Debug, PartialEq, Eq, Structural)]
pub enum GetOutcome {
    /// Start another round
    Retry,
    /// Give up with a DHT error
    Fail(NetworkNodeHandleError),
}

impl GetSession {
    /// The responses of the current round, as byte strings.
    pub open spec fn responses_view(&self) -> Seq<Seq<u8>> {
        self.responses@.map_values(|v: Vec<u8>| v@)
    }

    /// Open a get for a key, allowing `retry_count` retries.
    pub fn new(key: Vec<u8>, retry_count: u8) -> (r: Self)
        ensures
            r.key@ == key@,
            r.retries_left == retry_count,
            r.responses_view() =~= Seq::<Seq<u8>>::empty(),
    {
        GetSession { key, retries_left: retry_count, responses: Vec::new() }
    }

    /// Number of responses so far byte-identical to `value`.
    fn count_for(&self, value: &Vec<u8>) -> (cnt: usize)
        ensures
            cnt == count_matching(self.responses_view(), value@),
            cnt <= self.responses_view().len(),
    {
        let mut cnt: usize = 0;
        let mut i: usize = 0;
        while i < self.responses.len()
            invariant
                i <= self.responses@.len(),
                cnt == count_matching(self.responses_view().take(i as int), value@),
                cnt <= i,
            decreases self.responses@.len() - i,
        {
            proof {
                assert(self.responses_view().take(i + 1).drop_last() =~= self.responses_view().take(
                    i as int,
                ));
                assert(self.responses_view().take(i + 1).last() == self.responses@[i as int]@);
            }
            if bytes_eq(&self.responses[i], value) {
                cnt = cnt + 1;
            }
            i = i + 1;
        }
        proof {
            assert(self.responses_view().take(self.responses@.len() as int)
                =~= self.responses_view());
        }
        cnt
    }

    /// Record one responder's value. The get completes exactly when the
    /// value has now been seen the quorum number of times; the value it
    /// returns has that many byte-identical copies among the responses.
    pub fn on_response(&mut self, value: Vec<u8>) -> (r: Option<Vec<u8>>)
        ensures
            final(self).key@ == old(self).key@,
            final(self).retries_left == old(self).retries_left,
            final(self).responses_view() == old(self).responses_view().push(value@),
            r is Some <==> count_matching(final(self).responses_view(), value@) >= get_quorum(),
            r matches Some(v) ==> v@ == value@ && count_matching(
                final(self).responses_view(),
                v@,
            ) >= get_quorum(),
    {
        let prior = self.count_for(&value);
        let copy = copy_bytes(&value);
        self.responses.push(value);
        proof {
            assert(self.responses_view() =~= old(self).responses_view().push(
                self.responses@.last()@,
            ));
            assert(self.responses_view().drop_last() =~= old(self).responses_view());
        }
        if prior >= 1 {
            Some(copy)
        } else {
            None
        }
    }

    /// A round failed (timeout or cancelled query): either retry with a
    /// fresh round, or, with no retries left, fail with a DHT error.
    pub fn on_round_failed(&mut self) -> (r: GetOutcome)
        ensures
            final(self).key@ == old(self).key@,
            old(self).retries_left > 0 ==> r == GetOutcome::Retry && final(self).retries_left
                == old(self).retries_left - 1 && final(self).responses_view()
                =~= Seq::<Seq<u8>>::empty(),
            old(self).retries_left == 0 ==> r == GetOutcome::Fail(NetworkNodeHandleError::Dht)
                && final(self).retries_left == 0,
    {
        if self.retries_left > 0 {
            self.retries_left = self.retries_left - 1;
            self.responses = Vec::new();
            GetOutcome::Retry
        } else {
            GetOutcome::Fail(NetworkNodeHandleError::Dht)
        }
    }
}

/// Copy a byte string.
fn copy_bytes(v: &Vec<u8>) -> (r: Vec<u8>)
    ensures
        r@ == v@,
{
    let mut r: Vec<u8> = Vec::new();
    let mut i: usize = 0;
    while i < v.len()
        invariant
            i <= v@.len(),
            r@ == v@.take(i as int),
        decreases v@.len() - i,
    {
        r.push(v[i]);
        proof {
            assert(v@.take(i + 1) =~= v@.take(i as int).push(v@[i as int]));
        }
        i = i + 1;
    }
    proof {
        assert(v@.take(v@.len() as int) =~= v@);
    }
    r
}

/// One in-flight `put_record` request: it completes when the required
/// number of replicas, at least two, have acknowledged the write.
#[derive(Clone, Copy, Debug, PartialEq, Eq, Structural)]
pub struct PutSession {
    /// Acknowledgements received so far
    pub acks: u8,
    /// Acknowledgements required before the put completes
    pub required: u8,
}

impl PutSession {
    /// The replication requirement is at least two.
    pub open spec fn wf(&self) -> bool {
        self.required >= 2
    }

    /// Open a put requiring `required` acknowledgements; anything below the
    /// replication floor is raised to it.
    pub fn new(required: u8) -> (r: Self)
        ensures
            r.wf(),
            r.acks == 0,
            r.required == if required >= 2 {
                required as int
            } else {
                2int
            },
    {
        PutSession { acks: 0, required: if required >= 2 { required } else { 2 } }
    }

    /// One replica acknowledged. The put completes exactly when the count
    /// reaches the requirement.
    pub fn on_ack(&mut self) -> (done: bool)
        requires
            old(self).wf(),
        ensures
            final(self).wf(),
            final(self).required == old(self).required,
            final(self).acks == if old(self).acks < 255 {
                old(self).acks + 1
            } else {
                255int
            },
            done == (final(self).acks >= final(self).required),
    {
        if self.acks < 255 {
            self.acks = self.acks + 1;
        }
        self.acks >= self.required
    }
}

} // verus!
