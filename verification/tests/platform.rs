use engine::platform_compat::add;
use engine::platform_compat::path::get_bundle_path;

#[test]
fn add_sums() {
    assert_eq!(add(2, 2), 4);
    assert_eq!(add(0, u64::MAX), u64::MAX);
}

#[test]
fn bundle_path_is_the_path_outside_a_bundle() {
    assert_eq!(get_bundle_path("assets/images/cow.png"), "assets/images/cow.png".to_string());
}
