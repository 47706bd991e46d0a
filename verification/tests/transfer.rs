use gitweb_release_downloader::transfer::{Transfer, TransferStep, BUFFER_SIZE};

/// Writes a body that comes in some chunks to a file that takes at most `limit` bytes at
/// once, and gives the file and the positions shown.
fn written(chunks: &[&[u8]], limit: usize) -> (Vec<u8>, Vec<u64>) {
    let mut file: Vec<u8> = Vec::new();
    let mut positions: Vec<u64> = Vec::new();
    let mut transfer = Transfer::begin();
    for chunk in chunks {
        let mut step = transfer.on_read(chunk.len());
        loop {
            match step {
                TransferStep::Finished => return (file, positions),
                TransferStep::Write { start, end } => {
                    let taken = (end - start).min(limit);
                    file.extend_from_slice(&chunk[start..start + taken]);
                    step = transfer.on_write(taken);
                }
                TransferStep::ReadOn(position) => {
                    positions.push(position);
                    break;
                }
                TransferStep::Stuck => panic!("the file takes nothing"),
            }
        }
    }
    panic!("the body has no end")
}

#[test]
fn chunks_are_written_until_the_body_ends() {
    assert_eq!(BUFFER_SIZE, 8192);
    let mut transfer = Transfer::begin();
    assert_eq!(transfer.downloaded(), 0);
    assert_eq!(transfer.on_read(8192), TransferStep::Write { start: 0, end: 8192 });
    assert_eq!(transfer.on_write(8192), TransferStep::ReadOn(8192));
    assert_eq!(transfer.on_read(100), TransferStep::Write { start: 0, end: 100 });
    assert_eq!(transfer.on_write(100), TransferStep::ReadOn(8292));
    assert_eq!(transfer.on_read(0), TransferStep::Finished);
    assert_eq!(transfer.downloaded(), 8292);
}

#[test]
fn rest_of_a_short_write_is_written() {
    let mut transfer = Transfer::begin();
    assert_eq!(transfer.on_read(10), TransferStep::Write { start: 0, end: 10 });
    assert_eq!(transfer.on_write(3), TransferStep::Write { start: 3, end: 10 });
    assert_eq!(transfer.downloaded(), 0);
    assert_eq!(transfer.on_write(6), TransferStep::Write { start: 9, end: 10 });
    assert_eq!(transfer.on_write(1), TransferStep::ReadOn(10));
    assert_eq!(transfer.downloaded(), 10);
}

#[test]
fn file_that_takes_nothing_is_given_up() {
    let mut transfer = Transfer::begin();
    transfer.on_read(10);
    transfer.on_write(4);
    assert_eq!(transfer.on_write(0), TransferStep::Stuck);
}

#[test]
fn file_holds_the_body_whatever_it_takes_at_once() {
    let chunks: [&[u8]; 4] = [b"the ", b"whole", b" body", b""];
    for limit in 1..=6usize {
        let (file, _) = written(&chunks, limit);
        assert_eq!(file, b"the whole body");
    }
}

#[test]
fn positions_grow_to_the_length_of_the_body() {
    let chunks: [&[u8]; 6] = [b"abc", b"d", b"efgh", b"i", b"jklmn", b""];
    let (_, positions) = written(&chunks, 2);
    assert_eq!(positions, vec![3, 4, 8, 9, 14]);
}
