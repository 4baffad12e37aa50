use mcrs::chunk::{ChunkStream, ChunkStreamItem};
use mcrs::heights::HeightsStream;
use mcrs::{
    Block, BufReader, Command, Coordinate, Coordinate2D, Error, OutOfBoundsError, ResponseStream,
    Size, Size2D, Terminator,
};

const CUBE_RESPONSE: &[u8] = b"1,0;2,0;3,0;4,0;5,0;6,0;7,0;8,5\n";

fn response(bytes: &[u8]) -> ResponseStream {
    let mut r = BufReader::new();
    r.fill(bytes);
    ResponseStream::new(r)
}

fn cube_stream() -> ChunkStream {
    ChunkStream::new(
        Coordinate::new(0, 0, 0),
        Coordinate::new(1, 1, 1),
        response(CUBE_RESPONSE),
    )
}

fn drain(mut stream: ChunkStream) -> Vec<ChunkStreamItem> {
    let mut items = Vec::new();
    while let Some(item) = stream.next().unwrap() {
        items.push(item);
    }
    items
}

#[test]
fn unit_cube_stream_visits_each_offset_once() {
    let stream = cube_stream();
    assert_eq!(stream.size().volume(), 8);
    let items = drain(stream);
    assert_eq!(items.len(), 8);
    let mut seen = Vec::new();
    for item in &items {
        let p = item.position_offset();
        assert!((0..2).contains(&p.x) && (0..2).contains(&p.y) && (0..2).contains(&p.z));
        assert!(!seen.contains(&p));
        seen.push(p);
    }
    assert_eq!(seen.len(), 8);
    assert_eq!(items[0].position_offset(), Coordinate::new(0, 0, 0));
    assert_eq!(items[1].position_offset(), Coordinate::new(0, 0, 1));
    assert_eq!(items[2].position_offset(), Coordinate::new(1, 0, 0));
    assert_eq!(items[7].position_offset(), Coordinate::new(1, 1, 1));
    assert_eq!(items[7].block(), Block::new(8, 5));
}

#[test]
fn exhausted_stream_yields_none() {
    let mut stream = cube_stream();
    for _ in 0..8 {
        assert!(stream.next().unwrap().is_some());
    }
    assert_eq!(stream.next(), Ok(None));
    assert_eq!(stream.next(), Ok(None));
}

#[test]
fn collect_after_next_fails() {
    let mut stream = cube_stream();
    stream.next().unwrap();
    assert_eq!(stream.collect().unwrap_err(), Error::PartiallyConsumed);
    let mut heights = HeightsStream::new(
        Coordinate2D::new(0, 0),
        Coordinate2D::new(1, 1),
        response(b"3,4,5,6\n"),
    );
    heights.next().unwrap();
    assert_eq!(heights.collect().unwrap_err(), Error::PartiallyConsumed);
}

#[test]
fn collect_matches_manual_drain() {
    let items = drain(cube_stream());
    let chunk = cube_stream().collect().unwrap();
    for item in &items {
        assert_eq!(chunk.get_offset(item.position_offset()), Ok(item.block()));
        assert_eq!(chunk.get_worldspace(item.position_worldspace()), Ok(item.block()));
    }
}

#[test]
fn blocks_end_to_end() {
    let a = Coordinate::new(0, 0, 0);
    let b = Coordinate::new(1, 1, 1);
    let command = Command::new("world.getBlocksWithData")
        .arg_coordinate(a)
        .arg_coordinate(b)
        .build();
    assert_eq!(command, "world.getBlocksWithData(0,0,0,1,1,1)\n");
    let chunk = ChunkStream::new(a, b, response(CUBE_RESPONSE)).collect().unwrap();
    assert_eq!(chunk.size(), Size::new(2, 2, 2));
    let block = chunk.get_offset(Coordinate::new(1, 1, 1)).unwrap();
    assert_eq!(block.id, 8);
    assert_eq!(block.modifier, 5);
    let mut iter = chunk.iter();
    let mut count = 0;
    while let Some(item) = iter.next() {
        assert_eq!(chunk.get_offset(item.position_offset()), Ok(item.block()));
        assert_eq!(item.position_worldspace(), item.position_offset());
        assert_eq!(item.chunk().size(), chunk.size());
        count += 1;
    }
    assert_eq!(count, 8);
}

#[test]
fn heights_end_to_end() {
    let a = Coordinate2D::new(0, 0);
    let b = Coordinate2D::new(1, 1);
    let command = Command::new("world.getHeights")
        .arg_int(a.x)
        .arg_int(a.z)
        .arg_int(b.x)
        .arg_int(b.z)
        .build();
    assert_eq!(command, "world.getHeights(0,0,1,1)\n");
    let heights = HeightsStream::new(a, b, response(b"3,4,5,6\n")).collect().unwrap();
    assert_eq!(heights.size(), Size2D::new(2, 2));
    assert_eq!(heights.min(), 3);
    assert_eq!(heights.max(), 6);
    assert_eq!(heights.get_offset(Coordinate2D::new(0, 1)), Ok(4));
    assert_eq!(heights.get_offset(Coordinate2D::new(1, 0)), Ok(5));
}

#[test]
fn heights_list_rejects_semicolon_separator() {
    let stream = HeightsStream::new(
        Coordinate2D::new(0, 0),
        Coordinate2D::new(1, 1),
        response(b"3,4;5,6\n"),
    );
    assert_eq!(
        stream.collect().unwrap_err(),
        Error::UnexpectedTerminator {
            expected: Terminator::Comma,
            actual: Terminator::Semicolon
        }
    );
}

#[test]
fn heights_stream_positions() {
    let mut stream = HeightsStream::new(
        Coordinate2D::new(10, -5),
        Coordinate2D::new(8, -4),
        response(b"1,2,3,4,5,-6\n"),
    );
    assert_eq!(stream.origin(), Coordinate2D::new(8, -5));
    assert_eq!(stream.size(), Size2D::new(3, 2));
    let first = stream.next().unwrap().unwrap();
    assert_eq!(first.height(), 1);
    assert_eq!(first.position_offset(), Coordinate2D::new(0, 0));
    assert_eq!(first.position_worldspace(), Coordinate2D::new(8, -5));
    let second = stream.next().unwrap().unwrap();
    assert_eq!(second.position_offset(), Coordinate2D::new(0, 1));
    let third = stream.next().unwrap().unwrap();
    assert_eq!(third.position_offset(), Coordinate2D::new(1, 0));
    assert_eq!(third.position_worldspace(), Coordinate2D::new(9, -5));
    stream.next().unwrap();
    stream.next().unwrap();
    let last = stream.next().unwrap().unwrap();
    assert_eq!(last.height(), -6);
    assert_eq!(last.position_worldspace(), Coordinate2D::new(10, -4));
    assert_eq!(stream.next(), Ok(None));
}

#[test]
fn heights_iteration_and_lookup() {
    let heights = HeightsStream::new(
        Coordinate2D::new(-1, 7),
        Coordinate2D::new(0, 6),
        response(b"9,-3,12,0\n"),
    )
    .collect()
    .unwrap();
    assert_eq!(heights.origin(), Coordinate2D::new(-1, 6));
    assert_eq!(heights.min(), -3);
    assert_eq!(heights.max(), 12);
    assert_eq!(heights.get_worldspace(Coordinate2D::new(0, 6)), Ok(12));
    assert_eq!(heights.get_worldspace(Coordinate2D::new(1, 6)), Err(OutOfBoundsError));
    assert_eq!(heights.get_offset(Coordinate2D::new(-1, 0)), Err(OutOfBoundsError));
    let mut iter = heights.iter();
    let mut values = Vec::new();
    while let Some(item) = iter.next() {
        assert_eq!(item.heights().get_offset(item.position_offset()), Ok(item.height()));
        assert_eq!(
            heights.get_worldspace(item.position_worldspace()),
            Ok(item.height())
        );
        values.push(item.height());
    }
    assert_eq!(values, vec![9, -3, 12, 0]);
}

#[test]
fn chunk_with_reversed_corners_and_worldspace_lookup() {
    let a = Coordinate::new(601, 101, 401);
    let b = Coordinate::new(600, 100, 399);
    let mut text = Vec::new();
    for i in 0..12 {
        if i > 0 {
            text.push(b';');
        }
        text.extend_from_slice(format!("{},{}", i, i % 3).as_bytes());
    }
    text.push(b'\n');
    let chunk = ChunkStream::new(a, b, response(&text)).collect().unwrap();
    assert_eq!(chunk.origin(), Coordinate::new(600, 100, 399));
    assert_eq!(chunk.size(), Size::new(2, 2, 3));
    assert_eq!(chunk.get_worldspace(Coordinate::new(600, 100, 399)), Ok(Block::new(0, 0)));
    assert_eq!(chunk.get_worldspace(Coordinate::new(600, 100, 401)), Ok(Block::new(2, 2)));
    assert_eq!(chunk.get_worldspace(Coordinate::new(601, 100, 399)), Ok(Block::new(3, 0)));
    assert_eq!(chunk.get_worldspace(Coordinate::new(600, 101, 399)), Ok(Block::new(6, 0)));
    assert_eq!(chunk.get_worldspace(Coordinate::new(601, 101, 401)), Ok(Block::new(11, 2)));
    assert_eq!(chunk.get_worldspace(Coordinate::new(602, 101, 401)), Err(OutOfBoundsError));
    assert_eq!(chunk.get_worldspace(Coordinate::new(i32::MIN, 100, 399)), Err(OutOfBoundsError));
    assert_eq!(chunk.get_offset(Coordinate::new(0, 0, 3)), Err(OutOfBoundsError));
}

#[test]
fn truncated_block_list_fails() {
    let stream = ChunkStream::new(
        Coordinate::new(0, 0, 0),
        Coordinate::new(1, 0, 0),
        response(b"1,0;2,"),
    );
    assert_eq!(stream.collect().unwrap_err(), Error::UnexpectedEof);
    let stream = ChunkStream::new(
        Coordinate::new(0, 0, 0),
        Coordinate::new(1, 0, 0),
        response(b"1,0;2,0;"),
    );
    assert_eq!(
        stream.collect().unwrap_err(),
        Error::UnexpectedTerminator {
            expected: Terminator::Newline,
            actual: Terminator::Semicolon
        }
    );
    let stream = ChunkStream::new(
        Coordinate::new(0, 0, 0),
        Coordinate::new(1, 0, 0),
        response(b"1,0\n"),
    );
    assert_eq!(
        stream.collect().unwrap_err(),
        Error::UnexpectedTerminator {
            expected: Terminator::Semicolon,
            actual: Terminator::Newline
        }
    );
}

#[test]
fn single_cell_uses_final_terminator() {
    let chunk = ChunkStream::new(
        Coordinate::new(5, 5, 5),
        Coordinate::new(5, 5, 5),
        response(b"4,2\n"),
    )
    .collect()
    .unwrap();
    assert_eq!(chunk.get_worldspace(Coordinate::new(5, 5, 5)), Ok(Block::new(4, 2)));
}
