use raytracer::hittable::HittableList;

#[test]
fn new_list_is_empty() {
    let list: HittableList<u32> = HittableList::new();
    assert!(list.objects.is_empty());
}

#[test]
fn add_keeps_insertion_order() {
    let mut list = HittableList::new();
    list.add("ground");
    list.add("glass");
    list.add("metal");
    assert_eq!(list.objects, vec!["ground", "glass", "metal"]);
}
