use zlaunch::base_delegate::BaseDelegate;

#[test]
fn test_base_delegate_creation() {
    let items = vec!["item1", "item2", "item3"];
    let delegate = BaseDelegate::new(items);

    assert_eq!(delegate.filtered_count(), 3);
    assert_eq!(delegate.selected_index(), Some(0));
}

#[test]
fn test_selection_navigation() {
    let items = vec!["a", "b", "c"];
    let mut delegate = BaseDelegate::new(items);

    assert_eq!(delegate.selected_index(), Some(0));

    delegate.select_down();
    assert_eq!(delegate.selected_index(), Some(1));

    delegate.select_down();
    assert_eq!(delegate.selected_index(), Some(2));

    delegate.select_down(); // Wraps to 0
    assert_eq!(delegate.selected_index(), Some(0));

    delegate.select_up(); // Wraps to 2
    assert_eq!(delegate.selected_index(), Some(2));
}

#[test]
fn base_delegate_filtering_and_selection() {
    let mut d = BaseDelegate::new(vec!["a", "b", "c", "d"]);
    d.apply_filtered_indices(vec![3, 1]);
    assert_eq!(d.filtered_count(), 2);
    assert_eq!(d.selected_item(), Some(&"d"));
    assert_eq!(d.get_filtered_item(1), Some(&"b"));
    assert_eq!(d.get_filtered_item(2), None);
    d.set_selected(5);
    assert_eq!(d.selected_index(), Some(0));
    d.set_selected(1);
    assert_eq!(d.selected_item(), Some(&"b"));
    d.set_query("x".to_string());
    assert_eq!(d.query(), "x");
    d.clear_query();
    assert_eq!(d.query(), "");
    assert_eq!(d.filtered_indices(), &[0, 1, 2, 3]);
    assert_eq!(d.selected_index(), Some(0));
}

#[test]
fn base_delegate_empty_has_no_selection() {
    let mut d: BaseDelegate<&str> = BaseDelegate::new(vec![]);
    assert_eq!(d.selected_index(), None);
    d.select_down();
    assert_eq!(d.selected_index(), None);
    assert_eq!(d.selected_item(), None);
}
