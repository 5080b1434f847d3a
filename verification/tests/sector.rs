use solarscape::sector::SectorMeta;

#[test]
fn sector_meta_keeps_names() {
    let meta = SectorMeta::new(Box::from("sol"), Box::from("Sol System"));
    assert_eq!(&*meta.name, "sol");
    assert_eq!(&*meta.display_name, "Sol System");
}
