use object_model::storage::{read_region, write_region, zeroed};
use object_model::Extent;

#[test]
fn zeroed_gives_zero_bytes() {
    assert_eq!(zeroed(0), Vec::<u8>::new());
    assert_eq!(zeroed(4), vec![0, 0, 0, 0]);
}

#[test]
fn read_region_copies_the_range() {
    let data = vec![1, 2, 3, 4, 5];
    assert_eq!(read_region(&data, Extent { start: 1, end: 4 }), vec![2, 3, 4]);
    assert_eq!(read_region(&data, Extent { start: 0, end: 5 }), data);
    assert_eq!(read_region(&data, Extent { start: 3, end: 3 }), Vec::<u8>::new());
}

#[test]
fn write_region_replaces_the_range() {
    let mut data = vec![1, 2, 3, 4, 5];
    write_region(&mut data, Extent { start: 1, end: 4 }, &vec![7, 8, 9]);
    assert_eq!(data, vec![1, 7, 8, 9, 5]);
}

#[test]
fn write_region_ignores_what_is_beyond_the_range() {
    let mut data = vec![1, 2, 3, 4, 5];
    write_region(&mut data, Extent { start: 1, end: 3 }, &vec![7, 8, 9, 10]);
    assert_eq!(data, vec![1, 7, 8, 4, 5]);
}

#[test]
fn write_region_keeps_what_the_source_lacks() {
    let mut data = vec![1, 2, 3, 4, 5];
    write_region(&mut data, Extent { start: 1, end: 5 }, &vec![7]);
    assert_eq!(data, vec![1, 7, 3, 4, 5]);
    write_region(&mut data, Extent { start: 0, end: 5 }, &Vec::new());
    assert_eq!(data, vec![1, 7, 3, 4, 5]);
}
