//! Navigation cursor and paginated selection.

use log_viz::app::navigation_state::NavigationState;
use log_viz::app::messages_state::MessagesState;
use log_viz::app::FocusedWindow;
use log_viz::ui::event_list::EventListState;

#[test]
fn empty_order_never_yields() {
    let mut nav = NavigationState::new();
    assert_eq!(nav.next_event(), None);
    assert_eq!(nav.prev_event(), None);
    nav.load_nav_order(vec![]);
    assert_eq!(nav.next_event(), None);
    assert_eq!(nav.prev_event(), None);
}

#[test]
fn cursor_walks_and_clears_at_front() {
    let mut nav = NavigationState::new();
    nav.load_nav_order(vec![5, 7, 9]);
    assert_eq!(nav.next_event(), Some(5));
    assert_eq!(nav.next_event(), Some(7));
    assert_eq!(nav.next_event(), Some(9));
    assert_eq!(nav.next_event(), None);
    assert_eq!(nav.prev_event(), Some(7));
    assert_eq!(nav.prev_event(), Some(5));
    // stepping back from the first match clears the cursor entirely
    assert_eq!(nav.prev_event(), None);
    // so the next forward step starts over
    assert_eq!(nav.next_event(), Some(5));
    // loading a new order resets the cursor
    nav.load_nav_order(vec![1]);
    assert_eq!(nav.next_event(), Some(1));
    nav.clear_nav_order();
    assert_eq!(nav.next_event(), None);
}

#[test]
fn pagination_numbers() {
    let mut st = EventListState::new(25, Some(0));
    st.calculate_pages(10);
    assert_eq!(st.page_count, 2);
    st.go_end();
    assert_eq!(st.selected_event, 24);
    assert_eq!(st.current_page, 2);
    assert_eq!(st.page_offset, 4);
    st.focus_event(15);
    assert_eq!(st.current_page, 1);
    assert_eq!(st.page_offset, 5);
    assert_eq!(st.selected_event, 15);
    st.go_home();
    assert_eq!(st.selected_event, 0);
    assert_eq!(st.current_page, 0);
    assert_eq!(st.page_offset, 0);
}

#[test]
fn stepping_crosses_pages() {
    let mut st = EventListState::new(25, Some(0));
    st.calculate_pages(10);
    st.focus_event(9);
    st.next_event();
    assert_eq!(st.selected_event, 10);
    assert_eq!(st.current_page, 1);
    assert_eq!(st.page_offset, 0);
    st.prev_event();
    assert_eq!(st.selected_event, 9);
    assert_eq!(st.current_page, 0);
    assert_eq!(st.page_offset, 9);
    st.next_page();
    assert_eq!(st.selected_event, 10);
    st.next_page();
    assert_eq!(st.selected_event, 20);
    // the page holding the last item is the last page
    st.next_page();
    assert_eq!(st.selected_event, 20);
    st.prev_page();
    assert_eq!(st.selected_event, 19);
    assert_eq!(st.current_page, 1);
    assert_eq!(st.page_offset, 9);
}

#[test]
fn empty_list_operations_are_noops() {
    let mut st = EventListState::new(0, None);
    st.calculate_pages(10);
    st.next_event();
    st.prev_event();
    st.next_page();
    st.prev_page();
    st.go_end();
    st.go_home();
    st.focus_event(3);
    assert_eq!(st.selected_event, 0);
    assert_eq!(st.current_page, 0);
}

#[test]
fn end_of_list_stops_stepping() {
    let mut st = EventListState::new(3, Some(0));
    st.calculate_pages(10);
    st.next_event();
    st.next_event();
    st.next_event();
    assert_eq!(st.selected_event, 2);
    st.prev_event();
    st.prev_event();
    st.prev_event();
    assert_eq!(st.selected_event, 0);
}

#[test]
fn focus_and_messages() {
    let w = FocusedWindow::EventList;
    assert!(w.is_event_list());
    assert!(!w.is_filter_list());
    let q = FocusedWindow::QueryEditor;
    assert!(q.is_filter_list());
    assert!(!q.is_event_list());

    let mut msgs = MessagesState::new();
    msgs.push("one".to_string());
    msgs.push("two".to_string());
    assert_eq!(msgs.messages(), &vec!["one".to_string(), "two".to_string()]);
    msgs.clear();
    assert!(msgs.messages().is_empty());
}
