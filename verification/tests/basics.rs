use http_ext::aggregate::Aggregate;

#[test]
fn lib_it_works() {
    assert_eq!(2 + 2, 4);
    assert_eq!(Aggregate::new().bufs_cnt(), 0);
}
