use mistralrs_sequence::blocks::blocks_hold;
use mistralrs_sequence::blocks::blocks_to_add_new_tok;
use mistralrs_sequence::blocks::util_append_token_to_blocks;
use mistralrs_sequence::blocks::LogicalTokenBlock;
use mistralrs_sequence::blocks::SequenceCustomMetadata;

fn table_of(tokens: usize, block_size: usize) -> Vec<LogicalTokenBlock> {
    let mut blocks: Vec<LogicalTokenBlock> = Vec::new();
    for tok in 0..tokens {
        util_append_token_to_blocks(tok + 100, &mut blocks, block_size);
    }
    blocks
}

fn paged(block_size: usize) -> SequenceCustomMetadata {
    SequenceCustomMetadata::PagedAttention {
        logical_token_blocks: Vec::new(),
        physical_blocks_prefill: None,
        block_size,
    }
}

fn blocks_of(metadata: &SequenceCustomMetadata) -> Vec<Vec<usize>> {
    match metadata {
        SequenceCustomMetadata::PagedAttention { logical_token_blocks, .. } => {
            logical_token_blocks.iter().map(|b| b.toks().to_vec()).collect()
        }
        SequenceCustomMetadata::Absent => Vec::new(),
    }
}

#[test]
fn a_new_block_is_empty() {
    let block = LogicalTokenBlock::new(3);
    assert!(block.is_empty());
    assert!(!block.is_full());
    assert_eq!(block.num_tokens(), 0);
    assert_eq!(block.block_size(), 3);
    assert_eq!(block.toks(), &[] as &[usize]);
}

#[test]
fn a_block_fills_and_empties_at_its_end() {
    let mut block = LogicalTokenBlock::new(2);
    block.append_token_id(11);
    assert_eq!(block.toks(), &[11]);
    assert!(!block.is_empty());
    assert!(!block.is_full());
    block.append_token_id(12);
    assert_eq!(block.toks(), &[11, 12]);
    assert!(block.is_full());
    assert_eq!(block.num_tokens(), 2);
    block.pop_token();
    assert_eq!(block.toks(), &[11]);
    assert!(!block.is_full());
    block.pop_token();
    assert!(block.is_empty());
}

#[test]
fn a_full_block_is_followed_by_an_empty_one() {
    let blocks = table_of(4, 4);
    assert_eq!(blocks.len(), 2);
    assert!(blocks[0].is_full());
    assert_eq!(blocks[0].toks(), &[100, 101, 102, 103]);
    assert_eq!(blocks[0].num_tokens(), 4);
    assert!(blocks[1].is_empty());
    assert_eq!(blocks[1].num_tokens(), 0);
    assert_eq!(blocks[1].block_size(), 4);
}

#[test]
fn one_token_past_a_block_goes_into_the_second_block() {
    let blocks = table_of(5, 4);
    assert_eq!(blocks.len(), 2);
    assert!(blocks[0].is_full());
    assert_eq!(blocks[1].num_tokens(), 1);
    assert_eq!(blocks[1].toks(), &[104]);
    assert!(!blocks[1].is_full());
}

#[test]
fn the_first_token_opens_the_first_block() {
    let blocks = table_of(1, 4);
    assert_eq!(blocks.len(), 1);
    assert_eq!(blocks[0].toks(), &[100]);
}

#[test]
fn blocks_of_one_token_are_all_full_but_the_last() {
    let blocks = table_of(2, 1);
    assert_eq!(blocks.len(), 3);
    assert!(blocks[0].is_full());
    assert!(blocks[1].is_full());
    assert_eq!(blocks[1].toks(), &[101]);
    assert!(blocks[2].is_empty());
}

#[test]
fn the_table_has_one_block_more_than_the_stream_has_full_blocks() {
    for tokens in 1..40 {
        let blocks = table_of(tokens, 7);
        assert_eq!(blocks.len(), tokens / 7 + 1);
        assert_eq!(blocks[blocks.len() - 1].num_tokens(), tokens % 7);
        let all: Vec<usize> = blocks.iter().flat_map(|b| b.toks().to_vec()).collect();
        let expected: Vec<usize> = (0..tokens).map(|t| t + 100).collect();
        assert_eq!(all, expected);
    }
}

#[test]
fn a_token_for_a_full_last_block_opens_a_new_block() {
    let mut full = LogicalTokenBlock::new(2);
    full.append_token_id(1);
    full.append_token_id(2);
    let mut blocks = vec![full];
    util_append_token_to_blocks(3, &mut blocks, 2);
    assert_eq!(blocks.len(), 2);
    assert_eq!(blocks[0].toks(), &[1, 2]);
    assert_eq!(blocks[1].toks(), &[3]);
}

#[test]
fn no_block_means_one_block_to_add() {
    let blocks: Vec<LogicalTokenBlock> = Vec::new();
    assert_eq!(blocks_to_add_new_tok(&blocks), 1);
}

#[test]
fn a_last_block_with_room_means_no_block_to_add() {
    assert_eq!(blocks_to_add_new_tok(&table_of(1, 4)), 0);
    assert_eq!(blocks_to_add_new_tok(&table_of(3, 4)), 0);
    assert_eq!(blocks_to_add_new_tok(&table_of(4, 4)), 0);
    assert_eq!(blocks_to_add_new_tok(&table_of(5, 4)), 0);
}

#[test]
fn a_full_last_block_means_one_block_to_add() {
    let mut full = LogicalTokenBlock::new(2);
    full.append_token_id(1);
    full.append_token_id(2);
    assert_eq!(blocks_to_add_new_tok(&vec![full]), 1);
}

#[test]
fn metadata_appends_tokens_in_order() {
    let mut metadata = paged(3);
    metadata.append_token_to_blocks(5);
    assert_eq!(blocks_of(&metadata), vec![vec![5]]);
    metadata.append_tokens_to_blocks(vec![6, 7, 8]);
    assert_eq!(blocks_of(&metadata), vec![vec![5, 6, 7], vec![8]]);
    metadata.append_tokens_to_blocks(Vec::new());
    assert_eq!(blocks_of(&metadata), vec![vec![5, 6, 7], vec![8]]);
}

#[test]
fn metadata_takes_tokens_out_of_the_last_block() {
    let mut metadata = paged(4);
    metadata.append_tokens_to_blocks(vec![1, 2, 3, 4, 5, 6, 7]);
    metadata.pop_token_from_blocks();
    assert_eq!(blocks_of(&metadata), vec![vec![1, 2, 3, 4], vec![5, 6]]);
    metadata.remove_tokens_from_blocks(2);
    assert_eq!(blocks_of(&metadata), vec![vec![1, 2, 3, 4], vec![]]);
    metadata.remove_tokens_from_blocks(0);
    assert_eq!(blocks_of(&metadata), vec![vec![1, 2, 3, 4], vec![]]);
    metadata.append_token_to_blocks(9);
    assert_eq!(blocks_of(&metadata), vec![vec![1, 2, 3, 4], vec![9]]);
}

#[test]
fn metadata_without_a_table_ignores_tokens() {
    let mut metadata = SequenceCustomMetadata::Absent;
    metadata.append_token_to_blocks(1);
    metadata.append_tokens_to_blocks(vec![2, 3]);
    metadata.pop_token_from_blocks();
    metadata.remove_tokens_from_blocks(5);
    assert!(matches!(metadata, SequenceCustomMetadata::Absent));
}

#[test]
fn a_table_made_by_appending_holds_its_tokens() {
    for tokens in 0..12usize {
        let ids: Vec<usize> = (0..tokens).map(|t| t + 100).collect();
        assert!(blocks_hold(&table_of(tokens, 4), &ids, 4));
    }
    assert!(blocks_hold(&[], &[], 4));
}

#[test]
fn a_table_with_other_tokens_does_not_hold_them() {
    let table = table_of(6, 4);
    assert!(!blocks_hold(&table, &[100, 101, 102, 103, 104], 4));
    assert!(!blocks_hold(&table, &[100, 101, 102, 103, 104, 105, 106], 4));
    assert!(!blocks_hold(&table, &[100, 101, 102, 103, 104, 999], 4));
    assert!(!blocks_hold(&table, &[999, 101, 102, 103, 104, 105], 4));
    assert!(!blocks_hold(&table, &[], 4));
    assert!(!blocks_hold(&[], &[100], 4));
}

#[test]
fn a_table_of_another_layout_does_not_hold() {
    let ids = [100, 101, 102, 103, 104, 105];
    assert!(!blocks_hold(&table_of(6, 4), &ids, 3));
    assert!(!blocks_hold(&table_of(6, 3), &ids, 4));
    let mut first = LogicalTokenBlock::new(4);
    first.append_token_id(100);
    first.append_token_id(101);
    let mut second = LogicalTokenBlock::new(4);
    second.append_token_id(102);
    assert!(!blocks_hold(&[first, second], &[100, 101, 102], 4));
    let mut full = LogicalTokenBlock::new(2);
    full.append_token_id(100);
    full.append_token_id(101);
    assert!(!blocks_hold(&[full], &[100, 101], 2));
    assert!(blocks_hold(&table_of(2, 2), &[100, 101], 2));
}
