use actias::paging::{page_offset, total_pages};

#[test]
fn total_pages_rounds_up() {
    assert_eq!(total_pages(5, 2), 3);
    assert_eq!(total_pages(4, 2), 2);
    assert_eq!(total_pages(1, 10), 1);
}

#[test]
fn total_pages_of_nothing_is_zero() {
    assert_eq!(total_pages(0, 10), 0);
    assert_eq!(total_pages(0, 0), 0);
    assert_eq!(total_pages(7, 0), 0);
}

#[test]
fn page_offset_is_the_product() {
    assert_eq!(page_offset(3, 20), 60);
    assert_eq!(page_offset(0, 20), 0);
}
