//! Logical token blocks: the token stream of a sequence cut into chunks of a
//! fixed capacity, so that the pages a sequence needs can be counted.

use std::sync::Arc;
use vstd::prelude::*;

verus! {

/// What a logical block is: the tokens it holds, oldest first, and how many
/// it can hold.
pub struct BlockView {
    pub tokens: Seq<usize>,
    pub capacity: nat,
}

impl BlockView {
    /// A block of the given capacity that holds nothing yet.
    pub open spec fn empty(capacity: nat) -> BlockView {
        BlockView { tokens: Seq::empty(), capacity }
    }

    pub open spec fn is_full(self) -> bool {
        self.tokens.len() == self.capacity
    }

    pub open spec fn is_empty(self) -> bool {
        self.tokens.len() == 0
    }

    /// Whether one more token fits.
    pub open spec fn has_spare_capacity(self) -> bool {
        self.tokens.len() < self.capacity
    }

    pub open spec fn push(self, tok: usize) -> BlockView {
        BlockView { tokens: self.tokens.push(tok), capacity: self.capacity }
    }

    pub open spec fn pop(self) -> BlockView {
        BlockView { tokens: self.tokens.drop_last(), capacity: self.capacity }
    }

    /// A block never holds more than its capacity.
    pub open spec fn wf(self) -> bool {
        self.tokens.len() <= self.capacity
    }
}

/// A fixed-capacity, append-only container of token ids.
pub struct LogicalTokenBlock {
    tokens: Vec<usize>,
    block_size: usize,
}

impl View for LogicalTokenBlock {
    type V = BlockView;

    closed spec fn view(&self) -> BlockView {
        BlockView { tokens: self.tokens@, capacity: self.block_size as nat }
    }
}

impl LogicalTokenBlock {
    /// An empty block that can take `block_size` tokens.
    pub fn new(block_size: usize) -> (block: Self)
        ensures
            block@ == BlockView::empty(block_size as nat),
    {
        LogicalTokenBlock { tokens: Vec::new(), block_size }
    }

    pub fn block_size(&self) -> (n: usize)
        ensures
            n == self@.capacity,
    {
        self.block_size
    }

    pub fn num_tokens(&self) -> (n: usize)
        ensures
            n == self@.tokens.len(),
    {
        self.tokens.len()
    }

    pub fn is_full(&self) -> (full: bool)
        ensures
            full == self@.is_full(),
    {
        self.tokens.len() == self.block_size
    }

    pub fn is_empty(&self) -> (empty: bool)
        ensures
            empty == self@.is_empty(),
    {
        self.tokens.len() == 0
    }

    /// Puts `token` behind the tokens the block already holds.
    pub fn append_token_id(&mut self, token: usize)
        requires
            old(self)@.has_spare_capacity(),
        ensures
            final(self)@ == old(self)@.push(token),
    {
        self.tokens.push(token);
    }

    /// Takes the newest token out again.
    pub fn pop_token(&mut self)
        requires
            !old(self)@.is_empty(),
        ensures
            final(self)@ == old(self)@.pop(),
    {
        let _ = self.tokens.pop();
    }

    /// The tokens held, oldest first.
    pub fn toks(&self) -> (toks: &[usize])
        ensures
            toks@ == self@.tokens,
    {
        self.tokens.as_slice()
    }
}

/// A page of cache memory that the block engine has reserved, named by its
/// number.
pub struct PhysicalTokenBlock {
    pub block_id: usize,
    pub block_size: usize,
    pub is_gpu: bool,
}

/// A block table as a sequence of block contents.
pub open spec fn table_view(blocks: Seq<LogicalTokenBlock>) -> Seq<BlockView> {
    Seq::new(blocks.len(), |i: int| blocks[i]@)
}

/// Every block of the table holds no more than its capacity.
pub open spec fn blocks_wf(table: Seq<BlockView>) -> bool {
    forall|i: int| 0 <= i < table.len() ==> (#[trigger] table[i]).wf()
}

/// The table after one more token. The token goes into the last block if
/// there is one with room, else into a new block; a block that this fills is
/// followed at once by a new empty one.
pub open spec fn table_append(table: Seq<BlockView>, tok: usize, block_size: nat) -> Seq<
    BlockView,
> {
    let placed = if table.len() > 0 && !table.last().is_full() {
        table.update(table.len() - 1, table.last().push(tok))
    } else {
        table.push(BlockView::empty(block_size).push(tok))
    };
    if placed.last().is_full() {
        placed.push(BlockView::empty(block_size))
    } else {
        placed
    }
}

/// The table after the tokens of `toks`, appended in order.
pub open spec fn table_extend(table: Seq<BlockView>, toks: Seq<usize>, block_size: nat) -> Seq<
    BlockView,
>
    decreases toks.len(),
{
    if toks.len() == 0 {
        table
    } else {
        table_append(table_extend(table, toks.drop_last(), block_size), toks.last(), block_size)
    }
}

/// The table after the newest token of its last block is taken out.
pub open spec fn table_pop(table: Seq<BlockView>) -> Seq<BlockView> {
    table.update(table.len() - 1, table.last().pop())
}

/// The table after `n` tokens are taken out of its last block.
pub open spec fn table_remove(table: Seq<BlockView>, n: nat) -> Seq<BlockView>
    decreases n,
{
    if n == 0 {
        table
    } else {
        table_pop(table_remove(table, (n - 1) as nat))
    }
}

/// How many new blocks the next token needs: none if the last block has
/// spare capacity or is itself empty, else one.
pub open spec fn table_blocks_to_add(table: Seq<BlockView>) -> nat {
    if table.len() > 0 && (table.last().has_spare_capacity() || table.last().is_empty()) {
        0
    } else {
        1
    }
}

/// All tokens of the table, in the order in which they were appended.
pub open spec fn table_tokens(table: Seq<BlockView>) -> Seq<usize>
    decreases table.len(),
{
    if table.len() == 0 {
        Seq::empty()
    } else {
        table_tokens(table.drop_last()) + table.last().tokens
    }
}

/// The layout that appending keeps: every block has the table's capacity,
/// every block but the last is full, and the last has room.
pub open spec fn table_paged(table: Seq<BlockView>, block_size: nat) -> bool {
    &&& block_size > 0
    &&& forall|i: int| 0 <= i < table.len() ==> (#[trigger] table[i]).capacity == block_size
    &&& forall|i: int| 0 <= i < table.len() - 1 ==> (#[trigger] table[i]).is_full()
    &&& table.len() > 0 ==> table.last().has_spare_capacity()
}

/// Appends one token to a block table.
pub fn util_append_token_to_blocks(
    tok: usize,
    logical_token_blocks: &mut Vec<LogicalTokenBlock>,
    block_size: usize,
)
    requires
        block_size > 0,
        blocks_wf(table_view(old(logical_token_blocks)@)),
    ensures
        table_view(final(logical_token_blocks)@) == table_append(
            table_view(old(logical_token_blocks)@),
            tok,
            block_size as nat,
        ),
        blocks_wf(table_view(final(logical_token_blocks)@)),
{
    let ghost before = table_view(logical_token_blocks@);
    let n = logical_token_blocks.len();
    let mut has_room = false;
    if n > 0 {
        assert(before[n - 1].wf());
        has_room = !logical_token_blocks[n - 1].is_full();
    }
    if has_room {
        logical_token_blocks[n - 1].append_token_id(tok);
    } else {
        let mut block = LogicalTokenBlock::new(block_size);
        block.append_token_id(tok);
        logical_token_blocks.push(block);
    }
    let ghost placed = table_view(logical_token_blocks@);
    assert(placed == if before.len() > 0 && !before.last().is_full() {
        before.update(before.len() - 1, before.last().push(tok))
    } else {
        before.push(BlockView::empty(block_size as nat).push(tok))
    });
    let m = logical_token_blocks.len();
    if logical_token_blocks[m - 1].is_full() {
        logical_token_blocks.push(LogicalTokenBlock::new(block_size));
        assert(table_view(logical_token_blocks@) == placed.push(
            BlockView::empty(block_size as nat),
        ));
    }
    assert forall|i: int| 0 <= i < before.len() implies (#[trigger] before[i]).wf() by {}
}

/// How many new blocks the next token needs.
pub fn blocks_to_add_new_tok(logical_token_blocks: &Vec<LogicalTokenBlock>) -> (n: usize)
    ensures
        n == table_blocks_to_add(table_view(logical_token_blocks@)),
{
    let len = logical_token_blocks.len();
    if len == 0 {
        return 1;
    }
    let last = &logical_token_blocks[len - 1];
    if last.num_tokens() < last.block_size() || last.is_empty() {
        0
    } else {
        1
    }
}

/// What a sequence keeps for the block engine, if block-based caching is on:
/// its block table, the physical blocks assigned to it for a prefill (taken
/// once), and the capacity of a block.
pub enum SequenceCustomMetadata {
    PagedAttention {
        logical_token_blocks: Vec<LogicalTokenBlock>,
        physical_blocks_prefill: Option<Vec<Arc<PhysicalTokenBlock>>>,
        block_size: usize,
    },
    Absent,
}

impl SequenceCustomMetadata {
    /// Whether block-based caching is on.
    pub open spec fn is_paged(&self) -> bool {
        self is PagedAttention
    }

    /// The block table; empty where block-based caching is off.
    pub open spec fn table(&self) -> Seq<BlockView> {
        match self {
            SequenceCustomMetadata::PagedAttention { logical_token_blocks, .. } => table_view(
                logical_token_blocks@,
            ),
            SequenceCustomMetadata::Absent => Seq::empty(),
        }
    }

    /// The capacity of a block; 0 where block-based caching is off.
    pub open spec fn block_capacity(&self) -> nat {
        match self {
            SequenceCustomMetadata::PagedAttention { block_size, .. } => *block_size as nat,
            SequenceCustomMetadata::Absent => 0,
        }
    }

    /// The pending physical blocks, if any.
    pub open spec fn pending_physical(&self) -> Option<Vec<Arc<PhysicalTokenBlock>>> {
        match self {
            SequenceCustomMetadata::PagedAttention { physical_blocks_prefill, .. } => {
                *physical_blocks_prefill
            },
            SequenceCustomMetadata::Absent => None,
        }
    }

    /// A block can take a token, and no block holds more than it can.
    pub open spec fn wf(&self) -> bool {
        self.is_paged() ==> self.block_capacity() > 0 && blocks_wf(self.table())
    }

    /// The table has the layout that appending keeps.
    pub open spec fn paged(&self) -> bool {
        self.is_paged() ==> table_paged(self.table(), self.block_capacity())
    }

    /// `other` differs from `self` in the block table at most.
    pub open spec fn same_but_table(&self, other: &Self) -> bool {
        &&& self.is_paged() <==> other.is_paged()
        &&& self.block_capacity() == other.block_capacity()
        &&& self.pending_physical() == other.pending_physical()
    }

    /// Appends one token to the block table, if there is one.
    pub fn append_token_to_blocks(&mut self, tok: usize)
        requires
            old(self).wf(),
        ensures
            final(self).wf(),
            old(self).same_but_table(final(self)),
            old(self).is_paged() ==> final(self).table() == table_append(
                old(self).table(),
                tok,
                old(self).block_capacity(),
            ),
    {
        match self {
            SequenceCustomMetadata::PagedAttention {
                logical_token_blocks,
                physical_blocks_prefill: _,
                block_size,
            } => {
                util_append_token_to_blocks(tok, logical_token_blocks, *block_size);
            },
            SequenceCustomMetadata::Absent => (),
        }
    }

    /// Takes the newest token out of the last block, if there is a table.
    pub fn pop_token_from_blocks(&mut self)
        requires
            old(self).wf(),
            old(self).is_paged() ==> old(self).table().len() > 0 && !old(self).table().last()
                .is_empty(),
        ensures
            final(self).wf(),
            old(self).same_but_table(final(self)),
            old(self).is_paged() ==> final(self).table() == table_pop(old(self).table()),
    {
        match self {
            SequenceCustomMetadata::PagedAttention {
                logical_token_blocks,
                physical_blocks_prefill: _,
                block_size: _,
            } => {
                let ghost before = table_view(logical_token_blocks@);
                let n = logical_token_blocks.len();
                logical_token_blocks[n - 1].pop_token();
                assert forall|i: int|
                    0 <= i < n implies #[trigger] table_view(logical_token_blocks@)[i].wf() by {
                    assert(before[i].wf());
                }
            },
            SequenceCustomMetadata::Absent => (),
        }
    }

    /// Appends the tokens of `toks`, in order.
    pub fn append_tokens_to_blocks(&mut self, toks: Vec<usize>)
        requires
            old(self).wf(),
        ensures
            final(self).wf(),
            old(self).same_but_table(final(self)),
            old(self).is_paged() ==> final(self).table() == table_extend(
                old(self).table(),
                toks@,
                old(self).block_capacity(),
            ),
    {
        let mut i: usize = 0;
        while i < toks.len()
            invariant
                i <= toks.len(),
                self.wf(),
                old(self).same_but_table(self),
                old(self).is_paged() ==> self.table() == table_extend(
                    old(self).table(),
                    toks@.take(i as int),
                    old(self).block_capacity(),
                ),
            decreases toks.len() - i,
        {
            self.append_token_to_blocks(toks[i]);
            assert(toks@.take(i + 1).drop_last() == toks@.take(i as int));
            i = i + 1;
        }
        assert(toks@.take(i as int) == toks@);
    }

    /// Takes the `n` newest tokens out of the last block.
    pub fn remove_tokens_from_blocks(&mut self, n: usize)
        requires
            old(self).wf(),
            old(self).is_paged() && n > 0 ==> old(self).table().len() > 0 && old(self).table()
                .last().tokens.len() >= n,
        ensures
            final(self).wf(),
            old(self).same_but_table(final(self)),
            old(self).is_paged() ==> final(self).table() == table_remove(
                old(self).table(),
                n as nat,
            ),
    {
        let mut i: usize = 0;
        while i < n
            invariant
                i <= n,
                self.wf(),
                old(self).same_but_table(self),
                old(self).is_paged() ==> self.table() == table_remove(
                    old(self).table(),
                    i as nat,
                ),
                old(self).is_paged() && n > 0 ==> old(self).table().len() > 0 && old(
                    self,
                ).table().last().tokens.len() >= n,
            decreases n - i,
        {
            proof {
                if old(self).is_paged() {
                    lemma_table_remove_shape(old(self).table(), i as nat);
                }
            }
            self.pop_token_from_blocks();
            i = i + 1;
        }
    }
}

/// Taking `n` tokens out of the last block leaves the other blocks as they
/// were and the last block shorter by `n`.
pub proof fn lemma_table_remove_shape(table: Seq<BlockView>, n: nat)
    requires
        table.len() > 0,
        n <= table.last().tokens.len(),
    ensures
        table_remove(table, n) == table.update(
            table.len() - 1,
            BlockView {
                tokens: table.last().tokens.take(table.last().tokens.len() - n),
                capacity: table.last().capacity,
            },
        ),
    decreases n,
{
    let last = table.last();
    if n == 0 {
        assert(last.tokens.take(last.tokens.len() as int) == last.tokens);
    } else {
        lemma_table_remove_shape(table, (n - 1) as nat);
        let prev = table_remove(table, (n - 1) as nat);
        assert(prev.last().tokens.drop_last() == last.tokens.take(last.tokens.len() - n));
    }
}

/// Appending a token to blocks that hold no more than they can leaves
/// blocks that hold no more than they can.
pub proof fn lemma_append_keeps_wf(table: Seq<BlockView>, tok: usize, block_size: nat)
    requires
        blocks_wf(table),
        block_size > 0,
    ensures
        blocks_wf(table_append(table, tok, block_size)),
{
}

/// Appending a token keeps the paged layout and puts the token behind all
/// the others.
pub proof fn lemma_append_keeps_paged(table: Seq<BlockView>, tok: usize, block_size: nat)
    requires
        table_paged(table, block_size),
    ensures
        table_paged(table_append(table, tok, block_size), block_size),
        table_tokens(table_append(table, tok, block_size)) == table_tokens(table).push(tok),
{
    let placed = if table.len() > 0 && !table.last().is_full() {
        table.update(table.len() - 1, table.last().push(tok))
    } else {
        table.push(BlockView::empty(block_size).push(tok))
    };
    assert(table_tokens(placed) == table_tokens(table).push(tok)) by {
        if table.len() > 0 && !table.last().is_full() {
            assert(placed.drop_last() == table.drop_last());
        } else {
            assert(placed.drop_last() == table);
        }
    }
    if placed.last().is_full() {
        let next = placed.push(BlockView::empty(block_size));
        assert(next.drop_last() == placed);
    }
}

/// Appending tokens one after the other keeps the paged layout and puts
/// them, in order, behind all the others.
pub proof fn lemma_extend_keeps_paged(table: Seq<BlockView>, toks: Seq<usize>, block_size: nat)
    requires
        table_paged(table, block_size),
    ensures
        table_paged(table_extend(table, toks, block_size), block_size),
        table_tokens(table_extend(table, toks, block_size)) == table_tokens(table) + toks,
    decreases toks.len(),
{
    if toks.len() > 0 {
        lemma_extend_keeps_paged(table, toks.drop_last(), block_size);
        lemma_append_keeps_paged(
            table_extend(table, toks.drop_last(), block_size),
            toks.last(),
            block_size,
        );
    }
}

/// Taking out no more tokens than the last block holds keeps the paged
/// layout and drops the newest tokens.
pub proof fn lemma_remove_keeps_paged(table: Seq<BlockView>, n: nat, block_size: nat)
    requires
        table_paged(table, block_size),
        n > 0 ==> table.len() > 0 && n <= table.last().tokens.len(),
    ensures
        table_paged(table_remove(table, n), block_size),
        n <= table_tokens(table).len(),
        table_tokens(table_remove(table, n)) == table_tokens(table).take(
            table_tokens(table).len() - n,
        ),
{
    if n > 0 {
        lemma_table_remove_shape(table, n);
        assert(table_remove(table, n).drop_last() == table.drop_last());
    }
}

/// In a paged table every block holds the tokens of its own stretch of the
/// stream: block `i` starts at token `i * block_size`.
pub proof fn lemma_paged_block_contents(table: Seq<BlockView>, block_size: nat, i: int)
    requires
        table_paged(table, block_size),
        0 <= i < table.len(),
    ensures
        table_tokens(table).len() == (table.len() - 1) * block_size + table.last().tokens.len(),
        i * block_size + table[i].tokens.len() <= table_tokens(table).len(),
        table[i].tokens == table_tokens(table).subrange(
            i * block_size,
            i * block_size + table[i].tokens.len(),
        ),
    decreases table.len(),
{
    let front = table.drop_last();
    lemma_full_prefix_len(front, block_size);
    if i < table.len() - 1 {
        lemma_full_block_contents(front, block_size, i);
    }
}

/// Whether every block of the table is full at the given capacity.
pub open spec fn all_full(table: Seq<BlockView>, block_size: nat) -> bool {
    forall|i: int|
        0 <= i < table.len() ==> (#[trigger] table[i]).capacity == block_size && table[i].is_full()
}

/// A table of full blocks holds `block_size` tokens per block.
pub proof fn lemma_full_prefix_len(table: Seq<BlockView>, block_size: nat)
    requires
        all_full(table, block_size),
    ensures
        table_tokens(table).len() == table.len() * block_size,
    decreases table.len(),
{
    if table.len() > 0 {
        lemma_full_prefix_len(table.drop_last(), block_size);
        assert(table.len() * block_size == (table.len() - 1) * block_size + block_size)
            by (nonlinear_arith);
    }
}

/// In a table of full blocks, block `i` holds the tokens from `i *
/// block_size` on.
pub proof fn lemma_full_block_contents(table: Seq<BlockView>, block_size: nat, i: int)
    requires
        all_full(table, block_size),
        0 <= i < table.len(),
    ensures
        i * block_size + block_size <= table_tokens(table).len(),
        table[i].tokens == table_tokens(table).subrange(
            i * block_size,
            i * block_size + block_size,
        ),
    decreases table.len(),
{
    let front = table.drop_last();
    lemma_full_prefix_len(front, block_size);
    lemma_full_prefix_len(table, block_size);
    if i < table.len() - 1 {
        lemma_full_block_contents(front, block_size, i);
    }
}

/// A paged table that holds a block at all has one block more than the
/// stream has full blocks, and its last block holds what is left over.
pub proof fn lemma_paged_block_count(table: Seq<BlockView>, block_size: nat)
    requires
        table_paged(table, block_size),
        table.len() > 0,
    ensures
        table.len() == table_tokens(table).len() / block_size + 1,
        table.last().tokens.len() == table_tokens(table).len() % block_size,
{
    lemma_paged_block_contents(table, block_size, 0);
    vstd::arithmetic::div_mod::lemma_fundamental_div_mod_converse(
        table_tokens(table).len() as int,
        block_size as int,
        table.len() - 1,
        table.last().tokens.len() as int,
    );
}

/// A table that holds no block holds no token.
pub proof fn lemma_extend_from_nothing(toks: Seq<usize>, block_size: nat)
    requires
        block_size > 0,
    ensures
        table_paged(table_extend(Seq::empty(), toks, block_size), block_size),
        table_tokens(table_extend(Seq::empty(), toks, block_size)) == toks,
        toks.len() > 0 ==> table_extend(Seq::empty(), toks, block_size).len() > 0,
{
    lemma_extend_keeps_paged(Seq::empty(), toks, block_size);
}

/// After exactly one block's worth of tokens a new table has two blocks:
/// the first is full and holds them all, the second is empty.
pub proof fn lemma_exactly_one_block_of_tokens(toks: Seq<usize>, block_size: nat)
    requires
        block_size > 0,
        toks.len() == block_size,
    ensures
        ({
            let table = table_extend(Seq::empty(), toks, block_size);
            &&& table.len() == 2
            &&& table[0].capacity == block_size
            &&& table[0].is_full()
            &&& table[0].tokens == toks
            &&& table[1].capacity == block_size
            &&& table[1].is_empty()
        }),
{
    let table = table_extend(Seq::empty(), toks, block_size);
    lemma_extend_from_nothing(toks, block_size);
    lemma_paged_block_contents(table, block_size, 0);
    let q = table.len() - 1;
    let r = table.last().tokens.len() as int;
    assert(q == 1 && r == 0) by (nonlinear_arith)
        requires
            q * block_size + r == block_size,
            0 <= r < block_size,
            q >= 0,
    ;
}

/// One token past a block's worth, the second block holds exactly that
/// token and, where a block takes more than one token, is not full.
pub proof fn lemma_one_token_past_a_block(toks: Seq<usize>, block_size: nat)
    requires
        block_size > 1,
        toks.len() == block_size + 1,
    ensures
        ({
            let table = table_extend(Seq::empty(), toks, block_size);
            &&& table.len() == 2
            &&& table[0].is_full()
            &&& table[0].tokens == toks.take(block_size as int)
            &&& table[1].tokens == seq![toks[block_size as int]]
            &&& !table[1].is_full()
        }),
{
    let table = table_extend(Seq::empty(), toks, block_size);
    lemma_extend_from_nothing(toks, block_size);
    lemma_paged_block_contents(table, block_size, 0);
    lemma_paged_block_contents(table, block_size, 1);
}

/// The tokens of the first `k` blocks are the first tokens of the table.
pub proof fn lemma_table_tokens_prefix(table: Seq<BlockView>, k: int)
    requires
        0 <= k <= table.len(),
    ensures
        table_tokens(table.take(k)).len() <= table_tokens(table).len(),
        table_tokens(table.take(k)) == table_tokens(table).take(
            table_tokens(table.take(k)).len() as int,
        ),
    decreases table.len() - k,
{
    if k == table.len() {
        assert(table.take(k) == table);
    } else {
        lemma_table_tokens_prefix(table, k + 1);
        assert(table.take(k + 1).drop_last() == table.take(k));
    }
}

/// Whether the blocks hold exactly the tokens of `ids`, in the layout that
/// appending keeps for blocks of `block_size` tokens.
pub fn blocks_hold(blocks: &[LogicalTokenBlock], ids: &[usize], block_size: usize) -> (hold: bool)
    requires
        block_size > 0,
    ensures
        hold == (blocks_wf(table_view(blocks@)) && table_paged(
            table_view(blocks@),
            block_size as nat,
        ) && table_tokens(table_view(blocks@)) == ids@),
{
    let ghost table = table_view(blocks@);
    let n = blocks.len();
    let mut offset: usize = 0;
    let mut i: usize = 0;
    while i < n
        invariant
            i <= n,
            n == blocks@.len(),
            table == table_view(blocks@),
            offset <= ids@.len(),
            block_size > 0,
            table_tokens(table.take(i as int)) == ids@.take(offset as int),
            forall|j: int| 0 <= j < i ==> (#[trigger] table[j]).capacity == block_size,
            forall|j: int| 0 <= j < i ==> (#[trigger] table[j]).wf(),
            forall|j: int| 0 <= j < i && j < n - 1 ==> (#[trigger] table[j]).is_full(),
            i == n && n > 0 ==> table[n - 1].has_spare_capacity(),
        decreases n - i,
    {
        let block = &blocks[i];
        let held = block.num_tokens();
        proof {
            lemma_table_tokens_prefix(table, i as int + 1);
            assert(table.take(i + 1).drop_last() == table.take(i as int));
        }
        if block.block_size() != block_size {
            return false;
        }
        if i < n - 1 {
            if held != block_size {
                return false;
            }
        } else if held >= block_size {
            return false;
        }
        if held > ids.len() - offset {
            return false;
        }
        let toks = block.toks();
        let mut j: usize = 0;
        while j < held
            invariant
                j <= held,
                held == toks@.len(),
                toks@ == table[i as int].tokens,
                i < table.len(),
                offset + held <= ids@.len(),
                ids@.len() <= usize::MAX,
                table == table_view(blocks@),
                table_tokens(table.take(i + 1)).len() <= table_tokens(table).len(),
                table_tokens(table.take(i + 1)) == ids@.take(offset as int) + toks@,
                table_tokens(table.take(i + 1)) == table_tokens(table).take(
                    table_tokens(table.take(i + 1)).len() as int,
                ),
                forall|k: int| 0 <= k < j ==> toks@[k] == ids@[offset + k],
            decreases held - j,
        {
            if toks[j] != ids[offset + j] {
                assert(table_tokens(table).take(offset + held)[offset + j] == table_tokens(
                    table,
                )[offset + j]);
                return false;
            }
            j = j + 1;
        }
        offset = offset + held;
        i = i + 1;
    }
    assert(table.take(n as int) == table);
    if offset != ids.len() {
        return false;
    }
    assert(ids@.take(offset as int) == ids@);
    true
}

} // verus!
