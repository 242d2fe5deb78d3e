use vstd::prelude::*;

use core::sync::atomic::AtomicU64;
use core::sync::atomic::Ordering;

use crate::condition::Condition;
use crate::condition::opt_bytes_view;
use crate::encode::CommitTemplate;
use crate::encode::check_spec;

verus! {

/// The sentinel that marks the result register as empty. It is also the one
/// nonce the engine never tests, so that any published value is a real one.
pub const NONCE_EMPTY: u64 = u64::MAX;

/// How many consecutive nonces one allocator claim hands a worker. The winner
/// flag is only polled between blocks, so a worker may test up to this many
/// nonces after another worker has won: bounded wasted work, traded for fewer
/// atomic loads.
pub const BLOCK_STRIDE: u64 = 100;

/// The search instance a result register belongs to, as the specifications
/// see it: the template's fields and the condition's requirements.
pub struct SearchSpec {
    pub header: Seq<u8>,
    pub message: Seq<u8>,
    pub identity: Seq<u8>,
    pub prefix: Option<Seq<u8>>,
    pub substring: Option<Seq<u8>>,
}

/// The search instance of a template and a condition.
pub open spec fn instance_of(t: CommitTemplate, c: Condition) -> SearchSpec {
    SearchSpec {
        header: t.raw_header@,
        message: t.raw_message@,
        identity: t.committer_identity@,
        prefix: opt_bytes_view(c.prefix),
        substring: opt_bytes_view(c.substring),
    }
}

/// The match predicate of one instance at one nonce.
pub open spec fn instance_check(inst: SearchSpec, nonce: u64) -> bool {
    check_spec(inst.header, inst.message, inst.identity, inst.prefix, inst.substring, nonce)
}

/// The match predicate of a template and a condition at one nonce.
pub open spec fn template_check(t: CommitTemplate, c: Condition, nonce: u64) -> bool {
    instance_check(instance_of(t, c), nonce)
}

/// The shared nonce allocator: a lock-free counter that hands each caller an
/// exclusive block of `BLOCK_STRIDE` consecutive nonces. The counter is shared
/// by all workers, so nothing sequential can be said of the value one claim
/// returns; the claimed blocks are disjoint by the atomicity of fetch-add.
pub struct NonceAllocator {
    pub counter: AtomicU64,
}

impl NonceAllocator {
    /// An allocator whose first claim starts at `starting_nonce`.
    pub fn new(starting_nonce: u64) -> NonceAllocator {
        NonceAllocator { counter: AtomicU64::new(starting_nonce) }
    }

    /// Atomically claim the next block: returns its first nonce and advances
    /// the counter by `BLOCK_STRIDE`, wrapping at the end of the nonce space.
    pub fn next_block(&self) -> u64 {
        self.counter.fetch_add(BLOCK_STRIDE, Ordering::SeqCst)
    }

    /// The counter's current position, for throughput sampling only.
    pub fn current(&self) -> u64 {
        self.counter.load(Ordering::SeqCst)
    }
}

/// The shared result register: one slot, initially empty, written at most
/// once by whichever worker's compare-and-set lands first. The register
/// remembers (in ghost form) which search instance it belongs to, and only
/// accepts nonces that satisfy that instance's match predicate.
pub struct ResultRegister {
    pub cell: AtomicU64,
    pub instance: Ghost<SearchSpec>,
}

impl ResultRegister {
    /// An empty register for the given template and condition.
    pub fn new(template: &CommitTemplate, cond: &Condition) -> (r: ResultRegister)
        ensures
            r.instance@ == instance_of(*template, *cond),
    {
        ResultRegister {
            cell: AtomicU64::new(NONCE_EMPTY),
            instance: Ghost(instance_of(*template, *cond)),
        }
    }

    /// Race to publish a winning nonce: one compare-and-set from the empty
    /// sentinel. Callers must have checked the nonce; the register never
    /// holds a non-matching value. Returns whether this call's value landed;
    /// a lost race is also a finished search.
    pub fn try_publish(&self, nonce: u64) -> bool
        requires
            instance_check(self.instance@, nonce),
            nonce != NONCE_EMPTY,
    {
        match self.cell.compare_exchange(NONCE_EMPTY, nonce, Ordering::SeqCst, Ordering::SeqCst) {
            Ok(_) => true,
            Err(_) => false,
        }
    }

    /// Whether some worker has already published a winner.
    pub fn is_set(&self) -> bool {
        self.cell.load(Ordering::SeqCst) != NONCE_EMPTY
    }

    /// The published winner, or nothing while the register is still empty.
    pub fn get(&self) -> (r: Option<u64>)
        ensures
            r matches Some(n) ==> n != NONCE_EMPTY,
    {
        let v = self.cell.load(Ordering::SeqCst);
        if v == NONCE_EMPTY {
            None
        } else {
            Some(v)
        }
    }
}

/// One worker's search loop. At the top of each claim it polls the register
/// and stops if another worker has won; otherwise it claims a block and tests
/// its nonces in increasing order. On a match it races to publish and stops
/// either way. Returns the nonce this worker found, or nothing if another
/// worker won first or the claim limit ran out; any returned nonce satisfies
/// the match predicate. Callers that want the whole nonce space pass
/// `u64::MAX` claims: enough blocks to wrap the space many times over, so the
/// limit is never the reason a real search stops.
pub fn thread_logic(
    template: &CommitTemplate,
    allocator: &NonceAllocator,
    cond: &Condition,
    register: &ResultRegister,
    claim_limit: u64,
) -> (r: Option<u64>)
    requires
        register.instance@ == instance_of(*template, *cond),
    ensures
        r matches Some(n) ==> template_check(*template, *cond, n) && n != NONCE_EMPTY,
{
    let mut claims: u64 = 0;
    while claims < claim_limit
        invariant
            register.instance@ == instance_of(*template, *cond),
            0 <= claims <= claim_limit,
        decreases claim_limit - claims,
    {
        if register.is_set() {
            return None;
        }
        let base = allocator.next_block();
        let mut i: u64 = 0;
        while i < BLOCK_STRIDE
            invariant
                register.instance@ == instance_of(*template, *cond),
                0 <= i <= BLOCK_STRIDE,
            decreases BLOCK_STRIDE - i,
        {
            let nonce = base.wrapping_add(i);
            if nonce != NONCE_EMPTY && template.check_nonce(nonce, cond) {
                register.try_publish(nonce);
                return Some(nonce);
            }
            i = i + 1;
        }
        claims = claims + 1;
    }
    None
}

/// The single-threaded reference scan: test every nonce of `[start, end)` in
/// increasing order and return the smallest match, if the range holds one.
pub fn search_range(template: &CommitTemplate, cond: &Condition, start: u64, end: u64) -> (r:
    Option<u64>)
    requires
        start <= end,
    ensures
        r matches Some(n) ==> start <= n < end && template_check(*template, *cond, n) && forall|
            m: u64,
        | start <= m < n ==> !#[trigger] template_check(*template, *cond, m),
        r is None ==> forall|m: u64|
            start <= m < end ==> !#[trigger] template_check(*template, *cond, m),
{
    let mut n: u64 = start;
    while n < end
        invariant
            start <= n <= end,
            forall|m: u64| start <= m < n ==> !#[trigger] template_check(*template, *cond, m),
        decreases end - n,
    {
        if template.check_nonce(n, cond) {
            return Some(n);
        }
        n = n + 1;
    }
    None
}

} // verus!
