use gcodekit5_ui::cam_catalog::{apply_filters, cam_tools};

#[test]
fn catalog_lists_nine_tools() {
    let tools = cam_tools();
    assert_eq!(tools.len(), 9);
    assert_eq!(tools[0].page, "tabbed_box");
    assert_eq!(tools[4].title, "Speeds and Feeds Calculator");
    assert_eq!(tools[8].icon, "input-mouse-symbolic");
}

#[test]
fn search_and_category_filter() {
    let tools = cam_tools();
    assert!(apply_filters(&tools, "", "all").iter().all(|b| *b));
    assert_eq!(
        apply_filters(&tools, "  LASER ", "all"),
        vec![true, false, true, true, false, false, false, false, false]
    );
    assert_eq!(
        apply_filters(&tools, "", "maintenance"),
        vec![false, false, false, false, false, true, true, false, false]
    );
    assert_eq!(
        apply_filters(&tools, "g-code", "generators"),
        vec![true, false, false, false, false, false, false, true, false]
    );
    assert!(apply_filters(&tools, "nothing like this", "all").iter().all(|b| !*b));
    assert!(apply_filters(&tools, "", "unknown").iter().all(|b| !*b));
}
