//! State behind the rendered widgets.  The widgets themselves live with
//! the rendering layer; only the windowed/paginated selection state is
//! kept here.

pub mod event_list;
