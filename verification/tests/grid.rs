use vga_console::grid::GridBuffer;

fn sample() -> GridBuffer<u8, 5, 4> {
    GridBuffer::<u8, 5, 4>::from_array([
        [1, 2, 3, 4, 5],
        [6, 7, 8, 9, 10],
        [11, 12, 13, 14, 15],
        [16, 17, 18, 19, 20],
    ])
}

fn assert_content(buffer: &GridBuffer<u8, 5, 4>, expected: [[u8; 5]; 4]) {
    for r in 0..4 {
        for c in 0..5 {
            assert_eq!(buffer.read(r, c), expected[r][c], "cell ({}, {})", r, c);
        }
    }
}

#[test]
fn test_new_with_default() {
    let buffer = GridBuffer::<u8, 5, 4>::new_with_default(9);
    assert_content(&buffer, [[9; 5]; 4]);
}

#[test]
fn test_new_uses_type_default() {
    let buffer = GridBuffer::<u8, 5, 4>::new();
    assert_content(&buffer, [[0; 5]; 4]);
}

#[test]
fn test_from_array() {
    let buffer = sample();
    assert_content(&buffer, [
        [1, 2, 3, 4, 5],
        [6, 7, 8, 9, 10],
        [11, 12, 13, 14, 15],
        [16, 17, 18, 19, 20],
    ]);
}

#[test]
fn test_read_write() {
    let mut buffer = GridBuffer::<u8, 5, 4>::new_with_default(0);
    buffer.write(2, 3, 42);
    assert_eq!(buffer.read(2, 3), 42);
    assert_eq!(buffer.read(0, 0), 0);
}

#[test]
fn test_shift_combined() {
    // Content moves two rows up and two columns to the left.
    let mut buffer = sample();
    buffer.shift(2, 2);
    assert_content(&buffer, [
        [13, 14, 15, 0, 0],
        [18, 19, 20, 0, 0],
        [0, 0, 0, 0, 0],
        [0, 0, 0, 0, 0],
    ]);
}

#[test]
fn test_shift_combined_down_right() {
    let mut buffer = sample();
    buffer.shift(-2, -2);
    assert_content(&buffer, [
        [0, 0, 0, 0, 0],
        [0, 0, 0, 0, 0],
        [0, 0, 1, 2, 3],
        [0, 0, 6, 7, 8],
    ]);
}

#[test]
fn test_shift_vertical() {
    // The vertical pass moves content toward higher row indices for a
    // positive displacement.
    let mut buffer = sample();
    buffer.shift_vertical(2);
    assert_content(&buffer, [
        [0, 0, 0, 0, 0],
        [0, 0, 0, 0, 0],
        [1, 2, 3, 4, 5],
        [6, 7, 8, 9, 10],
    ]);

    let mut buffer = sample();
    buffer.shift_vertical(-2);
    assert_content(&buffer, [
        [11, 12, 13, 14, 15],
        [16, 17, 18, 19, 20],
        [0, 0, 0, 0, 0],
        [0, 0, 0, 0, 0],
    ]);

    let mut buffer = sample();
    buffer.shift_vertical(0);
    assert_content(&buffer, [
        [1, 2, 3, 4, 5],
        [6, 7, 8, 9, 10],
        [11, 12, 13, 14, 15],
        [16, 17, 18, 19, 20],
    ]);

    let mut buffer = sample();
    buffer.shift_vertical(10);
    assert_content(&buffer, [[0; 5]; 4]);

    let mut buffer = sample();
    buffer.shift_vertical(-10);
    assert_content(&buffer, [[0; 5]; 4]);
}

#[test]
fn test_shift_horizontal() {
    let mut buffer = sample();
    buffer.shift_horizontal(2);
    assert_content(&buffer, [
        [0, 0, 1, 2, 3],
        [0, 0, 6, 7, 8],
        [0, 0, 11, 12, 13],
        [0, 0, 16, 17, 18],
    ]);

    let mut buffer = sample();
    buffer.shift_horizontal(-2);
    assert_content(&buffer, [
        [3, 4, 5, 0, 0],
        [8, 9, 10, 0, 0],
        [13, 14, 15, 0, 0],
        [18, 19, 20, 0, 0],
    ]);

    let mut buffer = sample();
    buffer.shift_horizontal(0);
    assert_content(&buffer, [
        [1, 2, 3, 4, 5],
        [6, 7, 8, 9, 10],
        [11, 12, 13, 14, 15],
        [16, 17, 18, 19, 20],
    ]);

    let mut buffer = sample();
    buffer.shift_horizontal(10);
    assert_content(&buffer, [[0; 5]; 4]);

    let mut buffer = sample();
    buffer.shift_horizontal(-10);
    assert_content(&buffer, [[0; 5]; 4]);
}

#[test]
fn test_shift_beyond_bound_clears_axis() {
    // A shift past an axis's extent equals a full clear of that axis.
    let mut beyond = sample();
    beyond.shift(5, 0);
    let mut exact = sample();
    exact.shift(4, 0);
    for r in 0..4 {
        for c in 0..5 {
            assert_eq!(beyond.read(r, c), exact.read(r, c));
            assert_eq!(beyond.read(r, c), 0);
        }
    }

    let mut beyond = sample();
    beyond.shift(0, -100);
    assert_content(&beyond, [[0; 5]; 4]);
}

#[test]
fn test_shift_round_trip_restores_surviving_region() {
    // Shifting by an amount and then by its negation restores what stayed
    // inside the grid; the evicted first row and first column are lost.
    let mut buffer = sample();
    buffer.shift(1, 1);
    buffer.shift(-1, -1);
    assert_content(&buffer, [
        [0, 0, 0, 0, 0],
        [0, 7, 8, 9, 10],
        [0, 12, 13, 14, 15],
        [0, 17, 18, 19, 20],
    ]);
}

#[test]
fn test_clear() {
    let mut buffer = sample();
    buffer.clear();
    assert_content(&buffer, [[0; 5]; 4]);
}

#[test]
fn test_clear_keeps_construction_default() {
    let mut buffer = GridBuffer::<u8, 5, 4>::new_with_default(7);
    buffer.write(1, 1, 3);
    buffer.clear();
    assert_content(&buffer, [[7; 5]; 4]);
}

#[test]
fn test_clip_shift() {
    assert_eq!(GridBuffer::<u8, 5, 4>::clip_shift(5, 10), 5);
    assert_eq!(GridBuffer::<u8, 5, 4>::clip_shift(-5, 10), -5);
    assert_eq!(GridBuffer::<u8, 5, 4>::clip_shift(15, 10), 10);
    assert_eq!(GridBuffer::<u8, 5, 4>::clip_shift(-15, 10), -10);
}

#[test]
fn test_clip_shift_idempotent() {
    for count in [5isize, -5, 15, -15, 0, isize::MAX, isize::MIN] {
        let once = GridBuffer::<u8, 5, 4>::clip_shift(count, 10);
        let twice = GridBuffer::<u8, 5, 4>::clip_shift(once, 10);
        assert_eq!(twice, once);
    }
}

#[test]
fn test_get_shift_ranges() {
    assert_eq!(GridBuffer::<u8, 5, 4>::get_shift_ranges(5, 10), (5, 10));
    assert_eq!(GridBuffer::<u8, 5, 4>::get_shift_ranges(-5, 10), (0, 5));
    assert_eq!(GridBuffer::<u8, 5, 4>::get_shift_ranges(15, 10), (10, 10));
    assert_eq!(GridBuffer::<u8, 5, 4>::get_shift_ranges(-15, 10), (0, 0));
    assert_eq!(GridBuffer::<u8, 5, 4>::get_shift_ranges(0, 10), (0, 10));
}

#[test]
fn test_shift_pos() {
    assert_eq!(GridBuffer::<u8, 5, 4>::shift_pos(5, 2), 3);
    assert_eq!(GridBuffer::<u8, 5, 4>::shift_pos(5, -2), 7);
    assert_eq!(GridBuffer::<u8, 5, 4>::shift_pos(5, 0), 5);
}

#[test]
fn test_get_source_pos() {
    assert_eq!(GridBuffer::<u8, 5, 4>::get_source_pos((10, 20), (3, 5)), (7, 15));
    assert_eq!(GridBuffer::<u8, 5, 4>::get_source_pos((10, 20), (-3, -5)), (13, 25));
    assert_eq!(GridBuffer::<u8, 5, 4>::get_source_pos((10, 20), (3, -5)), (7, 25));
    assert_eq!(GridBuffer::<u8, 5, 4>::get_source_pos((10, 20), (-3, 5)), (13, 15));
    assert_eq!(GridBuffer::<u8, 5, 4>::get_source_pos((10, 20), (0, 0)), (10, 20));
}

#[test]
fn test_get_source_pos_inverse() {
    // Composing the coordinate shift with its negated offset returns the
    // original coordinate.
    for (v, h) in [(3isize, 5isize), (-3, -5), (3, -5), (-3, 5), (0, 0)] {
        let moved = GridBuffer::<u8, 5, 4>::get_source_pos((10, 20), (v, h));
        let back = GridBuffer::<u8, 5, 4>::get_source_pos(moved, (-v, -h));
        assert_eq!(back, (10, 20));
    }
}
