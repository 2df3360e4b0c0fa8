use state_migration::mmap::{read_at, size};

#[test]
fn read_at_fills_the_buffer_where_enough_is_left() {
    let data: Vec<u8> = (0u8..10).collect();
    let mut buf = [0xffu8; 4];
    assert_eq!(read_at(&data, 3, &mut buf), 4);
    assert_eq!(buf, [3, 4, 5, 6]);
}

#[test]
fn read_at_the_exact_end_fills_the_buffer() {
    let data: Vec<u8> = (0u8..10).collect();
    let mut buf = [0xffu8; 4];
    assert_eq!(read_at(&data, 6, &mut buf), 4);
    assert_eq!(buf, [6, 7, 8, 9]);
}

#[test]
fn read_at_near_the_end_is_short_and_keeps_the_rest_of_the_buffer() {
    let data: Vec<u8> = (0u8..10).collect();
    let mut buf = [0xffu8; 4];
    assert_eq!(read_at(&data, 8, &mut buf), 2);
    assert_eq!(buf, [8, 9, 0xff, 0xff]);
}

#[test]
fn read_at_the_end_reads_nothing() {
    let data: Vec<u8> = (0u8..10).collect();
    let mut buf = [0xffu8; 4];
    assert_eq!(read_at(&data, 10, &mut buf), 0);
    assert_eq!(buf, [0xff; 4]);
}

#[test]
fn read_at_with_an_empty_buffer_reads_nothing() {
    let data = [1u8, 2, 3];
    let mut buf: [u8; 0] = [];
    assert_eq!(read_at(&data, 1, &mut buf), 0);
}

#[test]
fn read_at_every_position_agrees_with_the_data() {
    let data: Vec<u8> = (0..300u32).map(|i| (i * 7 % 251) as u8).collect();
    let mut buffer = [0u8; 128];
    for pos in 0..data.len() {
        let n = read_at(&data, pos as u64, &mut buffer);
        assert_eq!(n, std::cmp::min(128, data.len() - pos));
        assert_eq!(&data[pos..pos + n], &buffer[..n]);
    }
}

#[test]
fn size_is_the_length_of_the_data() {
    assert_eq!(size(&[]), Some(0));
    assert_eq!(size(&[9u8; 77]), Some(77));
}
