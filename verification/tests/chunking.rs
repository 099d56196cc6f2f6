use bitchain::chunk::Chunker;
use bitchain::digest::block_hash;
use bitchain::model::Block;
use bitchain::rebuild::{BlockFetch, FetchAction};

fn split(data: &[u8], block_size: usize, read_size: usize) -> Vec<Vec<u8>> {
    let mut c = Chunker::new(block_size);
    let mut out = Vec::new();
    for piece in data.chunks(read_size.max(1)) {
        out.extend(c.feed(piece));
    }
    out.extend(c.finish());
    out
}

#[test]
fn blocks_have_the_configured_size() {
    let data: Vec<u8> = (0..10u8).collect();
    let blocks = split(&data, 4, 3);
    assert_eq!(blocks, vec![vec![0, 1, 2, 3], vec![4, 5, 6, 7], vec![8, 9]]);
}

#[test]
fn block_boundaries_ignore_read_sizes() {
    let data: Vec<u8> = (0..100u8).collect();
    let expected = split(&data, 7, 100);
    for read_size in [1, 2, 3, 6, 7, 8, 50] {
        assert_eq!(split(&data, 7, read_size), expected);
    }
    assert_eq!(expected.concat(), data);
    assert!(expected[..expected.len() - 1].iter().all(|b| b.len() == 7));
}

#[test]
fn exact_multiple_has_no_short_block() {
    let data = vec![9u8; 8];
    assert_eq!(split(&data, 4, 5), vec![vec![9u8; 4], vec![9u8; 4]]);
}

#[test]
fn empty_file_has_no_blocks() {
    assert_eq!(split(&[], 4, 4), Vec::<Vec<u8>>::new());
}

#[test]
fn zero_block_size_takes_nothing() {
    assert_eq!(split(&[1, 2, 3], 0, 2), Vec::<Vec<u8>>::new());
}

#[test]
fn rebuilding_fetched_blocks_gives_back_the_file() {
    let data: Vec<u8> = (0..50u8).collect();
    let blocks = split(&data, 16, 5);
    let mut rebuilt = Vec::new();
    for stored in &blocks {
        let entry = Block {
            hash: block_hash(stored),
            uris: vec!["file:///a".to_string(), "file:///b".to_string()],
        };
        let (mut fetch, action) = BlockFetch::start(&entry);
        assert_eq!(action, FetchAction::Download(0));
        assert_eq!(fetch.on_download(Some(stored)), FetchAction::Use(0));
        rebuilt.extend_from_slice(stored);
    }
    assert_eq!(rebuilt, data);
}
