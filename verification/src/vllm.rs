//! Paged KV-cache block allocation and continuous-batching scheduling.
use vstd::prelude::*;
use std::collections::VecDeque;
use vstd::seq_lib::lemma_multiset_commutative;

verus! {

/// Tokens held by one KV-cache block.
pub const BLOCK_SIZE: usize = 16;

/// A physical KV-cache block.
#[derive(Debug, Clone, Copy, PartialEq, Eq, Hash, Structural)]
pub struct PhysicalBlockId(pub usize);

/// Every block of a pool of `n`, in order.
pub open spec fn all_blocks(n: nat) -> Seq<PhysicalBlockId> {
    Seq::new(n, |i: int| PhysicalBlockId(i as usize))
}

/// Blocks that fit a VRAM pool: KV bytes per block (two bytes per value,
/// keys and values, every layer) divide the pool; 90% of them are usable.
pub open spec fn usable_blocks(vram_pool_gb: nat, num_layers: nat, head_dim: nat, num_kv_heads: nat) -> nat {
    let block_bytes = 2 * head_dim * num_kv_heads * 2 * (BLOCK_SIZE as nat) * num_layers;
    let total = (vram_pool_gb * 1073741824) / block_bytes;
    total * 9 / 10
}

/// The free list of KV-cache blocks.
#[derive(Debug)]
pub struct BlockAllocator {
    pub total_blocks: usize,
    pub free_blocks: VecDeque<PhysicalBlockId>,
}

impl BlockAllocator {
    /// An allocator whose free list holds every usable block of the pool,
    /// in order.
    pub fn new(vram_pool_gb: usize, num_layers: usize, head_dim: usize, num_kv_heads: usize) -> (r: Self)
        requires
            0 < 2 * head_dim * num_kv_heads * 2 * 16 * num_layers <= usize::MAX,
            vram_pool_gb * 1073741824 <= usize::MAX,
        ensures
            r.total_blocks == usable_blocks(vram_pool_gb as nat, num_layers as nat, head_dim as nat, num_kv_heads as nat),
            r.free_blocks@ == all_blocks(r.total_blocks as nat),
    {
        proof {
            assert(2 * head_dim * num_kv_heads <= 2 * head_dim * num_kv_heads * 2 * 16 * num_layers) by (nonlinear_arith)
                requires 0 < 2 * head_dim * num_kv_heads * 2 * 16 * num_layers;
            assert(2 * head_dim * num_kv_heads * 2 <= 2 * head_dim * num_kv_heads * 2 * 16 * num_layers) by (nonlinear_arith)
                requires 0 < 2 * head_dim * num_kv_heads * 2 * 16 * num_layers;
            assert(2 * head_dim * num_kv_heads * 2 * 16 <= 2 * head_dim * num_kv_heads * 2 * 16 * num_layers) by (nonlinear_arith)
                requires 0 < 2 * head_dim * num_kv_heads * 2 * 16 * num_layers;
            assert(2 * head_dim <= 2 * head_dim * num_kv_heads * 2 * 16 * num_layers) by (nonlinear_arith)
                requires 0 < 2 * head_dim * num_kv_heads * 2 * 16 * num_layers;
        }
        let bytes_per_token = 2 * head_dim * num_kv_heads * 2;
        let bytes_per_layer_block = bytes_per_token * BLOCK_SIZE;
        let total_block_bytes = bytes_per_layer_block * num_layers;
        let pool_bytes = vram_pool_gb * 1024 * 1024 * 1024;
        let total_blocks = pool_bytes / total_block_bytes;
        proof {
            assert(head_dim > 0 && num_kv_heads > 0 && num_layers > 0) by (nonlinear_arith)
                requires 0 < 2 * head_dim * num_kv_heads * 2 * 16 * num_layers;
            assert(total_block_bytes >= 64) by (nonlinear_arith)
                requires
                    total_block_bytes == 2 * head_dim * num_kv_heads * 2 * 16 * num_layers,
                    head_dim > 0, num_kv_heads > 0, num_layers > 0;
            assert(total_blocks <= pool_bytes) by (nonlinear_arith)
                requires total_blocks == pool_bytes / total_block_bytes, total_block_bytes > 0;
            assert(total_blocks * 9 <= usize::MAX) by (nonlinear_arith)
                requires total_blocks == pool_bytes / total_block_bytes, total_block_bytes >= 64, pool_bytes <= usize::MAX;
        }
        let usable_blocks = total_blocks * 9 / 10;
        let mut queue: VecDeque<PhysicalBlockId> = VecDeque::with_capacity(usable_blocks);
        let mut i: usize = 0;
        while i < usable_blocks
            invariant
                i <= usable_blocks,
                queue@ == all_blocks(i as nat),
            decreases usable_blocks - i,
        {
            queue.push_back(PhysicalBlockId(i));
            proof {
                assert(queue@ =~= all_blocks((i + 1) as nat));
            }
            i = i + 1;
        }
        BlockAllocator { total_blocks: usable_blocks, free_blocks: queue }
    }

    /// Takes the block at the head of the free list, if any.
    pub fn allocate(&mut self) -> (r: Option<PhysicalBlockId>)
        ensures
            final(self).total_blocks == old(self).total_blocks,
            old(self).free_blocks@.len() > 0 ==> r == Some(old(self).free_blocks@[0])
                && final(self).free_blocks@ == old(self).free_blocks@.drop_first(),
            old(self).free_blocks@.len() == 0 ==> r is None && final(self).free_blocks@ == old(self).free_blocks@,
    {
        self.free_blocks.pop_front()
    }

    /// Returns a block to the tail of the free list.
    pub fn free(&mut self, block: PhysicalBlockId)
        ensures
            final(self).total_blocks == old(self).total_blocks,
            final(self).free_blocks@ == old(self).free_blocks@.push(block),
    {
        self.free_blocks.push_back(block);
    }

    /// Number of free blocks.
    pub fn get_available_blocks(&self) -> (n: usize)
        ensures
            n == self.free_blocks@.len(),
    {
        self.free_blocks.len()
    }
}

/// Identifier of a sequence.
#[derive(Debug, Clone, Copy, PartialEq, Eq, Hash, Structural)]
pub struct SequenceId(pub u64);

/// Lifecycle state of a sequence.
#[derive(Debug, Clone, Copy, PartialEq, Eq, Structural)]
pub enum SequenceState {
    Waiting,
    Running,
    Swapped,
    Finished,
}

/// A generation request and the KV blocks it holds.
#[derive(Debug)]
pub struct Sequence {
    pub id: SequenceId,
    pub prompt: String,
    pub logical_token_ids: Vec<u32>,
    pub physical_blocks: Vec<PhysicalBlockId>,
    pub state: SequenceState,
}

/// The plain contents of a sequence.
pub struct SequenceView {
    pub id: SequenceId,
    pub prompt: Seq<char>,
    pub tokens: Seq<u32>,
    pub blocks: Seq<PhysicalBlockId>,
    pub state: SequenceState,
}

/// The plain contents of a sequence.
pub open spec fn view_of(s: Sequence) -> SequenceView {
    SequenceView {
        id: s.id,
        prompt: s.prompt@,
        tokens: s.logical_token_ids@,
        blocks: s.physical_blocks@,
        state: s.state,
    }
}

/// Blocks needed to hold `n` tokens.
pub open spec fn blocks_for(n: nat) -> nat {
    (n + 15) / 16
}

/// Every block held by a list of sequences, in order.
pub open spec fn held(seqs: Seq<SequenceView>) -> Seq<PhysicalBlockId>
    decreases seqs.len(),
{
    if seqs.len() == 0 {
        Seq::empty()
    } else {
        held(seqs.drop_last()) + seqs.last().blocks
    }
}

/// Greedy admission: from the front of `waiting`, each sequence whose
/// prompt's blocks still fit the remaining free list is admitted (taking
/// those blocks from the head of the list, in order) until one does not fit.
/// Yields the admitted sequences, now running, and the remaining free list.
pub open spec fn greedy_admission(waiting: Seq<SequenceView>, free: Seq<PhysicalBlockId>) -> (Seq<SequenceView>, Seq<PhysicalBlockId>)
    decreases waiting.len(),
{
    if waiting.len() == 0 {
        (Seq::empty(), free)
    } else {
        let s = waiting[0];
        let need = blocks_for(s.tokens.len());
        if need <= free.len() {
            let started = SequenceView {
                id: s.id,
                prompt: s.prompt,
                tokens: s.tokens,
                blocks: s.blocks + free.take(need as int),
                state: SequenceState::Running,
            };
            let rest = greedy_admission(waiting.drop_first(), free.skip(need as int));
            (seq![started] + rest.0, rest.1)
        } else {
            (Seq::empty(), free)
        }
    }
}

/// Continuous-batching scheduler over a block allocator.
pub struct ContinuousScheduler {
    pub allocator: BlockAllocator,
    pub waiting: VecDeque<Sequence>,
    pub running: Vec<Sequence>,
    pub swapped: Vec<Sequence>,
}

impl ContinuousScheduler {
    /// The running sequences' contents.
    pub open spec fn running_views(&self) -> Seq<SequenceView> {
        self.running@.map_values(|s: Sequence| view_of(s))
    }

    /// The waiting sequences' contents.
    pub open spec fn waiting_views(&self) -> Seq<SequenceView> {
        self.waiting@.map_values(|s: Sequence| view_of(s))
    }

    /// Block accounting: every block of the pool is either free or held by
    /// exactly one running sequence, and waiting sequences hold none.
    pub open spec fn wf(&self) -> bool {
        &&& (self.allocator.free_blocks@ + held(self.running_views())).to_multiset()
            == all_blocks(self.allocator.total_blocks as nat).to_multiset()
        &&& forall|i: int| 0 <= i < self.waiting@.len() ==> (#[trigger] self.waiting@[i]).physical_blocks@.len() == 0
    }

    /// A scheduler with nothing queued over `allocator`'s full free list.
    pub fn new(allocator: BlockAllocator) -> (r: Self)
        requires
            allocator.free_blocks@ == all_blocks(allocator.total_blocks as nat),
        ensures
            r.wf(),
            r.allocator == allocator,
            r.waiting@.len() == 0,
            r.running@.len() == 0,
            r.swapped@.len() == 0,
    {
        let r = ContinuousScheduler {
            allocator,
            waiting: VecDeque::new(),
            running: Vec::new(),
            swapped: Vec::new(),
        };
        proof {
            assert(r.running_views() =~= Seq::<SequenceView>::empty());
            assert(held(r.running_views()) =~= Seq::<PhysicalBlockId>::empty());
            assert(r.allocator.free_blocks@ + held(r.running_views()) =~= r.allocator.free_blocks@);
        }
        r
    }

    /// Queues a new waiting sequence holding no blocks.
    pub fn add_sequence(&mut self, id: u64, prompt: String, initial_tokens: Vec<u32>)
        requires
            old(self).wf(),
        ensures
            final(self).wf(),
            final(self).allocator == old(self).allocator,
            final(self).running == old(self).running,
            final(self).swapped == old(self).swapped,
            final(self).waiting_views() == old(self).waiting_views().push(SequenceView {
                id: SequenceId(id),
                prompt: prompt@,
                tokens: initial_tokens@,
                blocks: Seq::empty(),
                state: SequenceState::Waiting,
            }),
    {
        let seq = Sequence {
            id: SequenceId(id),
            prompt,
            logical_token_ids: initial_tokens,
            physical_blocks: Vec::new(),
            state: SequenceState::Waiting,
        };
        proof {
            assert(seq.physical_blocks@ =~= Seq::<PhysicalBlockId>::empty());
        }
        self.waiting.push_back(seq);
        proof {
            assert(self.waiting_views() =~= old(self).waiting_views().push(view_of(seq)));
            assert forall|i: int| 0 <= i < self.waiting@.len() implies (#[trigger] self.waiting@[i]).physical_blocks@.len() == 0 by {
                if i < old(self).waiting@.len() {
                    assert(self.waiting@[i] == old(self).waiting@[i]);
                }
            }
        }
    }
}

impl BlockAllocator {
    /// Takes `n` blocks from the head of the free list, in order.
    fn allocate_many(&mut self, n: usize) -> (blocks: Vec<PhysicalBlockId>)
        requires
            n <= old(self).free_blocks@.len(),
        ensures
            final(self).total_blocks == old(self).total_blocks,
            blocks@ == old(self).free_blocks@.take(n as int),
            final(self).free_blocks@ == old(self).free_blocks@.skip(n as int),
    {
        let ghost start = self.free_blocks@;
        let mut blocks: Vec<PhysicalBlockId> = Vec::new();
        let mut j: usize = 0;
        while j < n
            invariant
                j <= n,
                n <= start.len(),
                self.total_blocks == old(self).total_blocks,
                start == old(self).free_blocks@,
                blocks@ == start.take(j as int),
                self.free_blocks@ == start.skip(j as int),
            decreases n - j,
        {
            let b = self.allocate();
            if let Some(block) = b {
                blocks.push(block);
            }
            proof {
                assert(blocks@ =~= start.take(j + 1));
                assert(self.free_blocks@ =~= start.skip(j + 1));
            }
            j = j + 1;
        }
        blocks
    }
}

/// Blocks needed to hold `n` tokens, rounded up to whole blocks.
fn blocks_needed(n: usize) -> (r: usize)
    ensures
        r == blocks_for(n as nat),
{
    if n % BLOCK_SIZE == 0 {
        n / BLOCK_SIZE
    } else {
        n / BLOCK_SIZE + 1
    }
}

/// Appending a sequence adds its blocks to the ones held.
proof fn lemma_held_push(seqs: Seq<SequenceView>, s: SequenceView)
    ensures
        held(seqs.push(s)) == held(seqs) + s.blocks,
{
    assert(seqs.push(s).drop_last() =~= seqs);
}

/// Replacing one sequence swaps its blocks in the multiset of those held.
proof fn lemma_held_update(seqs: Seq<SequenceView>, i: int, s: SequenceView)
    requires
        0 <= i < seqs.len(),
    ensures
        held(seqs.update(i, s)).to_multiset().add(seqs[i].blocks.to_multiset())
            == held(seqs).to_multiset().add(s.blocks.to_multiset()),
    decreases seqs.len(),
{
    broadcast use vstd::seq_lib::group_to_multiset_ensures;
    broadcast use vstd::multiset::group_multiset_axioms;
    let u = seqs.update(i, s);
    lemma_multiset_commutative(held(u.drop_last()), u.last().blocks);
    lemma_multiset_commutative(held(seqs.drop_last()), seqs.last().blocks);
    if i == seqs.len() - 1 {
        assert(u.drop_last() =~= seqs.drop_last());
        assert(held(u).to_multiset().add(seqs[i].blocks.to_multiset())
            =~= held(seqs).to_multiset().add(s.blocks.to_multiset()));
    } else {
        assert(u.drop_last() =~= seqs.drop_last().update(i, s));
        assert(u.last() == seqs.last());
        assert(seqs.drop_last()[i] == seqs[i]);
        assert(held(u) == held(seqs.drop_last().update(i, s)) + seqs.last().blocks);
        assert(held(seqs) == held(seqs.drop_last()) + seqs.last().blocks);
        lemma_held_update(seqs.drop_last(), i, s);
        let a = held(seqs.drop_last().update(i, s)).to_multiset();
        let b = held(seqs.drop_last()).to_multiset();
        let l = seqs.last().blocks.to_multiset();
        let x = seqs[i].blocks.to_multiset();
        let t = s.blocks.to_multiset();
        assert forall|k: PhysicalBlockId| #[trigger] a.add(l).add(x).count(k) == b.add(l).add(t).count(k) by {
            assert(a.add(x).count(k) == b.add(t).count(k));
        }
        assert(a.add(l).add(x) =~= b.add(l).add(t));
    }
}

/// `i` is the first position of `seqs` whose sequence has id `id`.
pub open spec fn first_with_id(seqs: Seq<SequenceView>, id: SequenceId, i: int) -> bool {
    &&& 0 <= i < seqs.len()
    &&& seqs[i].id == id
    &&& forall|j: int| 0 <= j < i ==> seqs[j].id != id
}

/// A sequence after one more token, and the free list after it: when the
/// tokens outgrow its blocks it takes the head of the free list, or is
/// marked swapped when the list is empty.
pub open spec fn after_token(s: SequenceView, token: u32, free: Seq<PhysicalBlockId>) -> (SequenceView, Seq<PhysicalBlockId>) {
    let tokens = s.tokens.push(token);
    if tokens.len() > s.blocks.len() * 16 {
        if free.len() > 0 {
            (SequenceView { id: s.id, prompt: s.prompt, tokens, blocks: s.blocks.push(free[0]), state: s.state }, free.drop_first())
        } else {
            (SequenceView { id: s.id, prompt: s.prompt, tokens, blocks: s.blocks, state: SequenceState::Swapped }, free)
        }
    } else {
        (SequenceView { id: s.id, prompt: s.prompt, tokens, blocks: s.blocks, state: s.state }, free)
    }
}

impl ContinuousScheduler {
    /// Moves waiting sequences into the running batch, in order, while the
    /// free list still holds the blocks their prompt needs; the first one
    /// that does not fit, and all behind it, keep waiting. Returns the ids
    /// of every running sequence.
    pub fn step(&mut self) -> (ids: Vec<SequenceId>)
        requires
            old(self).wf(),
        ensures
            final(self).wf(),
            final(self).allocator.total_blocks == old(self).allocator.total_blocks,
            final(self).swapped == old(self).swapped,
            ({
                let (admitted, rest) = greedy_admission(old(self).waiting_views(), old(self).allocator.free_blocks@);
                &&& final(self).running_views() == old(self).running_views() + admitted
                &&& final(self).waiting_views() == old(self).waiting_views().skip(admitted.len() as int)
                &&& final(self).allocator.free_blocks@ == rest
            }),
            ids@ == final(self).running@.map_values(|s: Sequence| s.id),
    {
        let ghost w0 = self.waiting_views();
        let ghost f0 = self.allocator.free_blocks@;
        let ghost r0 = self.running_views();
        let ghost total = self.allocator.total_blocks;
        let ghost swapped = self.swapped;
        let ghost mut taken: Seq<SequenceView> = Seq::empty();
        proof {
            assert(r0 + taken =~= r0);
            assert(w0.skip(0) =~= w0);
            assert(taken + greedy_admission(w0, f0).0 =~= greedy_admission(w0, f0).0);
        }
        while self.waiting.len() > 0
            invariant
                self.wf(),
                self.allocator.total_blocks == total,
                self.swapped == swapped,
                taken.len() <= w0.len(),
                self.running_views() == r0 + taken,
                self.waiting_views() == w0.skip(taken.len() as int),
                greedy_admission(w0, f0) == (
                    taken + greedy_admission(self.waiting_views(), self.allocator.free_blocks@).0,
                    greedy_admission(self.waiting_views(), self.allocator.free_blocks@).1,
                ),
            ensures
                greedy_admission(self.waiting_views(), self.allocator.free_blocks@).0.len() == 0,
                greedy_admission(self.waiting_views(), self.allocator.free_blocks@).1 == self.allocator.free_blocks@,
            decreases self.waiting@.len(),
        {
            let required = blocks_needed(self.waiting[0].logical_token_ids.len());
            if self.allocator.get_available_blocks() >= required {
                let ghost wv = self.waiting_views();
                let ghost fv = self.allocator.free_blocks@;
                let ghost rv = self.running_views();
                let ghost old_waiting = self.waiting@;
                let mut seq = self.waiting.pop_front().unwrap();
                let mut blocks = self.allocator.allocate_many(required);
                seq.physical_blocks.append(&mut blocks);
                seq.state = SequenceState::Running;
                let ghost started = view_of(seq);
                self.running.push(seq);
                proof {
                    let need = required as int;
                    assert(wv[0] == view_of(old_waiting[0]));
                    assert(old_waiting[0].physical_blocks@.len() == 0);
                    assert(started.blocks =~= fv.take(need));
                    let rest = greedy_admission(wv.drop_first(), fv.skip(need));
                    assert(greedy_admission(wv, fv) == (seq![started] + rest.0, rest.1));
                    assert(self.waiting_views() =~= wv.drop_first());
                    assert(wv.drop_first() =~= w0.skip(taken.len() as int + 1));
                    assert(self.running_views() =~= rv.push(started));
                    assert(taken + (seq![started] + rest.0) =~= taken.push(started) + rest.0);
                    assert(r0 + taken.push(started) =~= rv.push(started));
                    assert forall|i: int| 0 <= i < self.waiting@.len()
                        implies (#[trigger] self.waiting@[i]).physical_blocks@.len() == 0 by {
                        assert(self.waiting@[i] == old_waiting[i + 1]);
                    }
                    lemma_held_push(rv, started);
                    let h = held(rv);
                    let t = fv.take(need);
                    let k = fv.skip(need);
                    assert(fv =~= t + k);
                    lemma_multiset_commutative(t, k);
                    lemma_multiset_commutative(fv, h);
                    lemma_multiset_commutative(h, t);
                    lemma_multiset_commutative(k, h + t);
                    assert((k + (h + t)).to_multiset() =~= (fv + h).to_multiset());
                    taken = taken.push(started);
                }
            } else {
                break;
            }
        }
        proof {
            assert(taken + greedy_admission(self.waiting_views(), self.allocator.free_blocks@).0 =~= taken);
        }
        let mut ids: Vec<SequenceId> = Vec::new();
        let mut i: usize = 0;
        while i < self.running.len()
            invariant
                i <= self.running@.len(),
                ids@ == self.running@.take(i as int).map_values(|s: Sequence| s.id),
            decreases self.running@.len() - i,
        {
            ids.push(self.running[i].id);
            proof {
                assert(self.running@.take(i + 1) =~= self.running@.take(i as int).push(self.running@[i as int]));
            }
            i = i + 1;
        }
        proof {
            assert(self.running@.take(i as int) =~= self.running@);
        }
        ids
    }
}

impl ContinuousScheduler {
    /// Appends a generated token to the first running sequence with id
    /// `seq_id`; when its tokens outgrow its blocks it takes a block from
    /// the head of the free list, or is marked swapped if none is free.
    /// Nothing changes when no running sequence has that id.
    pub fn append_token(&mut self, seq_id: SequenceId, token_id: u32)
        requires
            old(self).wf(),
        ensures
            final(self).wf(),
            final(self).allocator.total_blocks == old(self).allocator.total_blocks,
            final(self).waiting == old(self).waiting,
            final(self).swapped == old(self).swapped,
            (forall|j: int| 0 <= j < old(self).running@.len() ==> old(self).running@[j].id != seq_id)
                ==> final(self).running_views() == old(self).running_views()
                    && final(self).allocator.free_blocks@ == old(self).allocator.free_blocks@,
            forall|i: int| #[trigger] first_with_id(old(self).running_views(), seq_id, i) ==> {
                let (s, free) = after_token(old(self).running_views()[i], token_id, old(self).allocator.free_blocks@);
                &&& final(self).running_views() == old(self).running_views().update(i, s)
                &&& final(self).allocator.free_blocks@ == free
            },
    {
        let n = self.running.len();
        let mut i: usize = 0;
        while i < n
            invariant
                i <= n,
                n == self.running@.len(),
                forall|j: int| 0 <= j < i ==> self.running@[j].id != seq_id,
            ensures
                i <= n,
                i < n ==> self.running@[i as int].id == seq_id,
                forall|j: int| 0 <= j < i ==> self.running@[j].id != seq_id,
            decreases n - i,
        {
            if self.running[i].id == seq_id {
                break;
            }
            i = i + 1;
        }
        if i < n {
            let ghost rv = self.running_views();
            let ghost fv = self.allocator.free_blocks@;
            let ghost old_running = self.running@;
            let mut seq = self.running.remove(i);
            seq.logical_token_ids.push(token_id);
            let len = seq.logical_token_ids.len();
            if (len - 1) / BLOCK_SIZE >= seq.physical_blocks.len() {
                match self.allocator.allocate() {
                    Some(block) => seq.physical_blocks.push(block),
                    None => seq.state = SequenceState::Swapped,
                }
            }
            let ghost s2 = view_of(seq);
            self.running.insert(i, seq);
            proof {
                let s = rv[i as int];
                assert(s == view_of(old_running[i as int]));
                assert(first_with_id(rv, seq_id, i as int));
                assert forall|k: int| #[trigger] first_with_id(rv, seq_id, k) implies k == i by {
                    if k < i {
                        assert(rv[k].id == old_running[k].id);
                    }
                    if k > i {
                        assert(rv[i as int].id == seq_id);
                    }
                }
                assert(self.running@ =~= old_running.update(i as int, seq));
                assert(self.running_views() =~= rv.update(i as int, s2));
                let (e, f) = after_token(s, token_id, fv);
                assert(s2.tokens =~= s.tokens.push(token_id));
                assert(e == s2);
                assert(self.allocator.free_blocks@ == f);
                lemma_held_update(rv, i as int, s2);
                let h = held(rv).to_multiset();
                let h2 = held(self.running_views()).to_multiset();
                lemma_multiset_commutative(fv, held(rv));
                lemma_multiset_commutative(f, held(self.running_views()));
                let sb = s.blocks.to_multiset();
                let s2b = s2.blocks.to_multiset();
                let pushed = s2.blocks.len() > s.blocks.len();
                if pushed {
                    lemma_multiset_commutative(s.blocks, seq![fv[0]]);
                    lemma_multiset_commutative(seq![fv[0]], f);
                    assert(fv =~= seq![fv[0]] + f);
                    assert(s2.blocks =~= s.blocks + seq![fv[0]]);
                } else {
                    assert(s2.blocks == s.blocks);
                    assert(f == fv);
                }
                assert forall|k: PhysicalBlockId| #[trigger] (f + held(self.running_views())).to_multiset().count(k)
                    == (fv + held(rv)).to_multiset().count(k) by {
                    broadcast use vstd::multiset::group_multiset_axioms;
                    assert(h2.add(sb).count(k) == h.add(s2b).count(k));
                    if pushed {
                        assert(s2b.count(k) == sb.count(k) + seq![fv[0]].to_multiset().count(k));
                        assert(fv.to_multiset().count(k) == seq![fv[0]].to_multiset().count(k) + f.to_multiset().count(k));
                    }
                }
                assert((f + held(self.running_views())).to_multiset() =~= (fv + held(rv)).to_multiset());
            }
        }
    }
}

/// In a well-formed scheduler every block of the pool is accounted for
/// exactly once: no block is both free and held, none is held twice, and
/// the free and held blocks together number the pool.
pub proof fn law_blocks_accounted_once(s: &ContinuousScheduler)
    requires
        s.wf(),
    ensures
        (s.allocator.free_blocks@ + held(s.running_views())).no_duplicates(),
        s.allocator.free_blocks@.len() + held(s.running_views()).len() == s.allocator.total_blocks,
{
    broadcast use vstd::seq_lib::group_to_multiset_ensures;
    let n = s.allocator.total_blocks;
    let a = all_blocks(n as nat);
    assert forall|i: int, j: int| 0 <= i < a.len() && 0 <= j < a.len() && i != j implies a[i] != a[j] by {
        assert(a[i] == PhysicalBlockId(i as usize));
        assert(a[j] == PhysicalBlockId(j as usize));
    }
    a.lemma_multiset_has_no_duplicates();
    let c = s.allocator.free_blocks@ + held(s.running_views());
    assert forall|x: PhysicalBlockId| c.to_multiset().contains(x) implies c.to_multiset().count(x) == 1 by {
        assert(c.to_multiset() == a.to_multiset());
    }
    c.lemma_multiset_has_no_duplicates_conv();
    assert(c.to_multiset().len() == a.to_multiset().len());
}

} // verus!
