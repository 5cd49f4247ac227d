use sparse_storage::chunk_exact::ChunkExact1;
use sparse_storage::entity::Key;
use sparse_storage::storage::SparseSet;
use sparse_storage::tight::Tight1;

#[test]
fn chunks_then_remainder() {
    let data: Vec<u32> = (0..10).collect();
    let mut chunks = ChunkExact1::new(&data, 3);
    assert_eq!(chunks.size_hint(), (3, Some(3)));
    assert_eq!(chunks.next(), Some(&[0, 1, 2][..]));
    assert_eq!(chunks.size_hint(), (2, Some(2)));
    assert_eq!(chunks.next(), Some(&[3, 4, 5][..]));
    assert_eq!(chunks.next(), Some(&[6, 7, 8][..]));
    assert_eq!(chunks.size_hint(), (0, Some(0)));
    assert_eq!(chunks.next(), None);
    assert_eq!(chunks.next(), None);
    assert_eq!(chunks.remainder(), &[9][..]);
    assert_eq!(chunks.remainder(), &[][..]);
    assert_eq!(chunks.next(), None);
}

#[test]
fn remainder_before_the_chunks() {
    let data: Vec<u32> = (0..11).collect();
    let mut chunks = ChunkExact1::new(&data, 4);
    assert_eq!(chunks.remainder(), &[8, 9, 10][..]);
    assert_eq!(chunks.remainder(), &[][..]);
    assert_eq!(chunks.size_hint(), (2, Some(2)));
    assert_eq!(chunks.collect(), vec![&[0, 1, 2, 3][..], &[4, 5, 6, 7][..]]);
    assert_eq!(chunks.remainder(), &[][..]);
}

#[test]
fn collect_yields_floor_of_len_over_step_chunks() {
    for len in 0..20usize {
        for step in 1..7usize {
            let data: Vec<usize> = (0..len).collect();
            let mut chunks = ChunkExact1::new(&data, step);
            let all = chunks.collect();
            assert_eq!(all.len(), len / step);
            for (k, chunk) in all.iter().enumerate() {
                assert_eq!(chunk.len(), step);
                assert_eq!(*chunk, &data[k * step..(k + 1) * step]);
            }
            let rest = chunks.remainder();
            assert_eq!(rest, &data[len - len % step..]);
            assert_eq!(chunks.remainder().len(), 0);
        }
    }
}

#[test]
fn step_longer_than_the_data() {
    let data = [1u32, 2, 3];
    let mut chunks = ChunkExact1::new(&data, 5);
    assert_eq!(chunks.size_hint(), (0, Some(0)));
    assert_eq!(chunks.next(), None);
    assert_eq!(chunks.remainder(), &[1, 2, 3][..]);
    assert_eq!(chunks.remainder(), &[][..]);
}

#[test]
fn step_dividing_the_data_leaves_no_remainder() {
    let data = [1u32, 2, 3, 4];
    let mut chunks = ChunkExact1::new(&data, 2);
    assert_eq!(chunks.remainder(), &[][..]);
    assert_eq!(chunks.first_pass(), Some(&[1, 2][..]));
    chunks.post_process();
    assert_eq!(chunks.first_pass(), Some(&[3, 4][..]));
    chunks.post_process();
    assert_eq!(chunks.first_pass(), None);
    assert_eq!(chunks.remainder(), &[][..]);
}

#[test]
fn step_of_one() {
    let data = [7u32, 8];
    let mut chunks = ChunkExact1::new(&data, 1);
    assert_eq!(chunks.collect(), vec![&[7][..], &[8][..]]);
    assert_eq!(chunks.remainder(), &[][..]);
}

#[test]
fn empty_data_has_no_chunk_and_no_remainder() {
    let data: [u32; 0] = [];
    let mut chunks = ChunkExact1::new(&data, 3);
    assert_eq!(chunks.size_hint(), (0, Some(0)));
    assert_eq!(chunks.next(), None);
    assert_eq!(chunks.remainder(), &[][..]);
}

#[test]
fn remainder_is_bounded_by_what_is_left() {
    // a cursor over a window that does not start at a multiple of the step
    let data: Vec<u32> = (0..8).collect();
    let mut chunks = ChunkExact1::over(&data, 6, 8, 5);
    // min(end - current, end % step) = min(2, 3)
    assert_eq!(chunks.remainder(), &[6, 7][..]);
    assert_eq!(chunks.remainder(), &[][..]);
    let mut chunks = ChunkExact1::over(&data, 1, 8, 3);
    // min(7, 2)
    assert_eq!(chunks.remainder(), &[6, 7][..]);
    assert_eq!(chunks.collect(), vec![&[1, 2, 3][..]]);
}

#[test]
fn post_process_changes_nothing() {
    let data = [1u32, 2, 3];
    let mut chunks = ChunkExact1::new(&data, 2);
    chunks.post_process();
    assert_eq!(chunks.size_hint(), (1, Some(1)));
    assert_eq!(chunks.next(), Some(&[1, 2][..]));
}

#[test]
fn tight_walks_the_dense_components() {
    let data = [5u32, 6, 7];
    let mut iter = Tight1::new(&data);
    assert_eq!(iter.size_hint(), (3, Some(3)));
    assert_eq!(iter.next(), Some(&5));
    assert_eq!(iter.size_hint(), (2, Some(2)));
    assert_eq!(iter.collect(), vec![&6, &7]);
    assert_eq!(iter.size_hint(), (0, Some(0)));
    assert_eq!(iter.next(), None);
    assert_eq!(iter.next(), None);
}

#[test]
fn tight_into_chunks_starts_where_the_cursor_stands() {
    let data: Vec<u32> = (0..7).collect();
    let mut iter = Tight1::new(&data);
    assert_eq!(iter.next(), Some(&0));
    let mut chunks = iter.into_chunk_exact(2);
    assert_eq!(chunks.collect(), vec![&[1, 2][..], &[3, 4][..], &[5, 6][..]]);
    // min(end - current, end % step) = min(0, 1)
    assert_eq!(chunks.remainder(), &[][..]);
}

#[test]
fn storage_iter_visits_each_owned_component_once() {
    let mut u32s: SparseSet<u32> = SparseSet::new();
    u32s.insert(Key::new(4, 0), 40);
    u32s.insert(Key::new(2, 0), 20);
    u32s.share(Key::new(4, 0), Key::new(0, 0)).unwrap();
    u32s.share(Key::new(0, 0), Key::new(1, 0)).unwrap();
    let mut iter = u32s.iter();
    assert_eq!(iter.size_hint(), (2, Some(2)));
    assert_eq!(iter.collect(), vec![&40, &20]);
    let mut chunks = u32s.iter().into_chunk_exact(2);
    assert_eq!(chunks.next(), Some(&[40, 20][..]));
    assert_eq!(chunks.next(), None);
}
