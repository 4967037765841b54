use imaged::service::image::ImageService;

#[test]
fn get_partition_table_path_pins_the_exact_on_disk_layout() {
    let svc = ImageService::new("/base".to_string());
    assert_eq!(svc.get_partition_table_path(7), "/base/img-7/parttable.bin");
}

#[test]
fn get_partition_path_pins_the_exact_pcl_layout_including_extension() {
    let svc = ImageService::new("/base".to_string());
    assert_eq!(svc.get_partition_path(7, 2), "/base/img-7/p-2.pcl");
}

#[test]
fn the_image_directory_and_relative_table_path_follow_the_same_layout() {
    let svc = ImageService::new("/srv/images".to_string());
    assert_eq!(svc.image_dir(12), "/srv/images/img-12");
    assert_eq!(svc.relative_partition_table_path(12), "img-12/parttable.bin");
    assert_eq!(svc.images_path(), "/srv/images");
}

#[test]
fn negative_ids_keep_their_sign_in_paths() {
    let svc = ImageService::new("/b".to_string());
    assert_eq!(svc.get_partition_path(-3, -1), "/b/img--3/p--1.pcl");
}

#[test]
fn clear_image_data_does_not_touch_sibling_img_dirs_with_a_shared_prefix() {
    let svc = ImageService::new("/base".to_string());
    let one = format!("{}/", svc.image_dir(1));
    let twelve = svc.get_partition_path(12, 1);
    assert!(!twelve.starts_with(&one));
    assert!(svc.get_partition_path(1, 1).starts_with(&one));
}
