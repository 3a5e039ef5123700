//! The live state engine: the bounded store of records, the filtered view
//! over it, the selection and viewport synchronizer, the column registry and
//! the field explorer, all kept coherent across every mutation.

use vstd::prelude::*;
use vstd::string::*;

use crate::columns::{
    cols_view, discover_into, discover_spec, default_columns, paths_distinct, ColumnDef,
};
use crate::cursor::ListCursor;
use crate::field_view::{collect_fields, FieldViewState, FieldZoom};
use crate::model::{build_haystack, entry_matches, LogEntry};
use crate::pattern::{regex_is_match, regex_source};

verus! {

/// Which pane has the keyboard focus.
#[derive(Clone, Copy, Debug, PartialEq, Eq)]
pub enum Focus {
    List,
    Detail,
}

/// The operator's interaction mode.
#[derive(Clone, Copy, Debug, PartialEq, Eq)]
pub enum InputMode {
    Normal,
    FilterInput,
    ColumnSelect,
    FieldView,
}

/// Where selection falls after a rebuild when the previously selected record
/// is gone: the first remaining match, or the newest one.
#[derive(Clone, Copy)]
pub(crate) enum SelectStrategy {
    PreserveOrFirst,
    Last,
}

/// The engine's whole state.
pub struct App {
    pub entries: Vec<LogEntry>,
    pub filtered_indices: Vec<usize>,
    pub columns: Vec<ColumnDef>,
    pub column_select_state: ListCursor,
    pub list_state: ListCursor,
    pub input_paused: bool,
    pub list_scroll_offset: usize,
    pub max_entries: usize,
    pub last_list_height: usize,
    pub last_list_width: usize,
    pub last_detail_height: usize,
    pub last_detail_width: usize,
    pub detail_scroll: u16,
    pub detail_total_lines: usize,
    pub detail_horiz_offset: usize,
    pub detail_max_line_width: usize,
    pub focus: Focus,
    pub show_help: bool,
    pub zoom: Option<Focus>,
    pub autoscroll: bool,
    pub filter_query: String,
    /// The live compiled pattern. Only values built by this crate's own
    /// compile step belong here: the invariant ties the value's source
    /// pattern to `filter_query`.
    pub filter_regex: Option<regex::Regex>,
    pub filter_error: Option<String>,
    pub input_mode: InputMode,
    pub filter_buffer: String,
    pub force_redraw: bool,
    pub max_row_width: usize,
    pub horiz_offset: usize,
    pub field_view: Option<FieldViewState>,
    pub field_detail_scroll: u16,
    pub field_detail_total_lines: usize,
    pub last_field_detail_height: usize,
    pub last_field_list_height: usize,
    pub last_field_detail_width: usize,
    pub field_detail_horiz_offset: usize,
    pub field_detail_max_line_width: usize,
    pub detail_wrap: bool,
    pub field_detail_wrap: bool,
    pub field_zoom: Option<FieldZoom>,
}

/// A filtered view stays exact when the store, the pattern and the view
/// itself are unchanged.
pub proof fn lemma_filtered_wf_same(a: App, b: App)
    requires
        a.filtered_wf(),
        b.filtered_indices@ == a.filtered_indices@,
        b.entries@ == a.entries@,
        b.active() == a.active(),
    ensures
        b.filtered_wf(),
{
    assert forall|j: int|
        0 <= j < b.entries@.len() && entry_matches(b.active(), b.entries@[j]) implies exists|
        k: int,
    | 0 <= k < b.filtered_indices@.len() && b.filtered_indices@[k] == j by {
        let k = choose|k: int| 0 <= k < a.filtered_indices@.len() && a.filtered_indices@[k] == j;
        assert(0 <= k < b.filtered_indices@.len() && b.filtered_indices@[k] == j);
    }
}

impl App {
    /// The active filter pattern: the source of the live regex, if any.
    pub open spec fn active(self) -> Option<Seq<char>> {
        match self.filter_regex {
            Some(re) => Some(regex_source(re)),
            None => None,
        }
    }

    /// The filtered view names exactly the records passing the active
    /// pattern, in store order.
    pub open spec fn filtered_wf(self) -> bool {
        &&& crate::strictly_increasing(self.filtered_indices@)
        &&& forall|k: int| 0 <= k < self.filtered_indices@.len()
            ==> self.filtered_indices@[k] < self.entries@.len() && entry_matches(
            self.active(),
            self.entries@[self.filtered_indices@[k] as int],
        )
        &&& forall|j: int| 0 <= j < self.entries@.len() && entry_matches(
            self.active(),
            self.entries@[j],
        ) ==> exists|k: int| 0 <= k < self.filtered_indices@.len()
            && self.filtered_indices@[k] == j
    }

    /// Everything the engine keeps invariant apart from the filtered view:
    /// the store respects its capacity, the live regex was compiled from the
    /// recorded query, column paths are unique, and the cursors of the column
    /// selector and the field explorer are in range.
    pub open spec fn wf_core(self) -> bool {
        &&& self.max_entries >= 1
        &&& self.entries@.len() <= self.max_entries
        &&& (match self.filter_regex {
            Some(re) => regex_source(re) == self.filter_query@,
            None => self.filter_query@.len() == 0,
        })
        &&& paths_distinct(cols_view(self.columns@))
        &&& (match self.column_select_state.selected {
            Some(i) => self.columns@.len() == 0 || i < self.columns@.len(),
            None => true,
        })
        &&& (match self.field_view {
            Some(fv) => fv.filtered_wf() && (match fv.list_state.selected {
                Some(s) => s < fv.filtered_indices@.len(),
                None => true,
            }),
            None => true,
        })
    }

    /// The engine's full invariant.
    pub open spec fn wf(self) -> bool {
        self.wf_core() && self.filtered_wf()
    }

    /// The field-explorer node under its cursor, when the explorer is open
    /// and its cursor names a live row and node.
    pub open spec fn spec_selected_field(self) -> Option<crate::field_view::FieldEntry> {
        match self.field_view {
            Some(fv) => match fv.spec_selected_node() {
                Some(j) => if j < fv.fields@.len() {
                    Some(fv.fields@[j as int])
                } else {
                    None
                },
                None => None,
            },
            None => None,
        }
    }

    /// The store index of the selected record, when the cursor names a live
    /// filtered row.
    pub open spec fn spec_selected_entry(self) -> Option<usize> {
        match self.list_state.selected {
            Some(s) => if s < self.filtered_indices@.len() {
                Some(self.filtered_indices@[s as int])
            } else {
                None
            },
            None => None,
        }
    }

    /// The vertical window rule: the offset moves just enough to keep the
    /// selected row inside a window of the given height.
    pub open spec fn spec_window_offset(selected: int, offset: int, height: int) -> int {
        let h = if height >= 1 {
            height
        } else {
            1
        };
        if selected >= offset + h {
            selected + 1 - h
        } else if selected < offset {
            selected
        } else {
            offset
        }
    }

    /// What synchronizing the list window does: under follow-latest the
    /// stored offset just mirrors the cursor's; in manual mode both move per
    /// the window rule.
    /// The window offset that synchronization yields: under follow-latest,
    /// or without a selection, the cursor's own offset; otherwise the window
    /// rule over the stored offset.
    pub open spec fn spec_synced_offset(
        autoscroll: bool,
        sel: Option<usize>,
        cursor_offset: int,
        scroll: int,
        height: int,
    ) -> int {
        if autoscroll {
            cursor_offset
        } else {
            match sel {
                None => cursor_offset,
                Some(s) => Self::spec_window_offset(s as int, scroll, height),
            }
        }
    }

    pub open spec fn spec_sync_offset(self) -> App {
        let w = Self::spec_synced_offset(
            self.autoscroll,
            self.list_state.selected,
            self.list_state.offset as int,
            self.list_scroll_offset as int,
            self.last_list_height as int,
        );
        App {
            list_scroll_offset: w as usize,
            list_state: ListCursor { selected: self.list_state.selected, offset: w as usize },
            ..self
        }
    }

    /// The state after a selection move: the cursor on `sel`, the detail
    /// pane reset, a redraw forced, and the window synchronized.
    pub open spec fn moved_post(pre: App, sel: Option<usize>, post: App) -> bool {
        post == (App {
            list_state: ListCursor { selected: sel, offset: pre.list_state.offset },
            detail_scroll: 0,
            detail_horiz_offset: 0,
            force_redraw: true,
            ..pre
        }).spec_sync_offset()
    }

    /// A relative selection move: inert on an empty view, else a move onto
    /// the target row.
    pub open spec fn step_post(pre: App, target: int, post: App) -> bool {
        if pre.filtered_indices@.len() == 0 {
            post == pre
        } else {
            Self::moved_post(pre, Some(target as usize), post)
        }
    }

    /// The row one step down from the selection (or from the top), clamped.
    pub open spec fn next_target(self) -> int {
        let i = (match self.list_state.selected {
            Some(s) => s as int,
            None => 0int,
        });
        if i + 1 < self.filtered_indices@.len() {
            i + 1
        } else {
            self.filtered_indices@.len() - 1
        }
    }

    /// The row one step up from the selection (or from the top), floored.
    pub open spec fn prev_target(self) -> int {
        let i = (match self.list_state.selected {
            Some(s) => s as int,
            None => 0int,
        });
        if i >= 1 {
            i - 1
        } else {
            0int
        }
    }

    /// The row half a page down from the selection, clamped.
    pub open spec fn page_down_target(self) -> int {
        let i = (match self.list_state.selected {
            Some(s) => s as int,
            None => 0int,
        });
        if i + self.spec_half_page() < self.filtered_indices@.len() {
            i + self.spec_half_page()
        } else {
            self.filtered_indices@.len() - 1
        }
    }

    /// The row half a page up from the selection, floored.
    pub open spec fn page_up_target(self) -> int {
        let i = (match self.list_state.selected {
            Some(s) => s as int,
            None => 0int,
        });
        if i - self.spec_half_page() >= 0 {
            i - self.spec_half_page()
        } else {
            0int
        }
    }

    /// The first row, or nothing on an empty view.
    pub open spec fn first_target(self) -> Option<usize> {
        if self.filtered_indices@.len() == 0 {
            None
        } else {
            Some(0usize)
        }
    }

    /// The last row, or nothing on an empty view.
    pub open spec fn last_target(self) -> Option<usize> {
        if self.filtered_indices@.len() == 0 {
            None
        } else {
            Some((self.filtered_indices@.len() - 1) as usize)
        }
    }

    /// A fresh engine: an empty store of the given capacity, the default
    /// columns, no filter, follow-latest on.
    pub fn new(max_entries: usize) -> (r: Self)
        requires
            max_entries >= 1,
        ensures
            r.wf(),
            r.entries@.len() == 0,
            r.filtered_indices@.len() == 0,
            cols_view(r.columns@) == crate::columns::default_cols_view(),
            r.columns@.len() == 3,
            r.list_state.selected is None,
            r.list_state.offset == 0,
            r.column_select_state.selected == Some(0usize),
            r.max_entries == max_entries,
            r.autoscroll,
            !r.input_paused,
            r.filter_regex is None,
            r.filter_query@.len() == 0,
            r.filter_buffer@.len() == 0,
            r.filter_error is None,
            r.input_mode == InputMode::Normal,
            r.focus == Focus::List,
            r.field_view is None,
            r.field_zoom is None,
            r.zoom is None,
            !r.show_help,
            r.force_redraw,
            r.detail_wrap,
            r.field_detail_wrap,
            r.list_scroll_offset == 0,
            r.detail_scroll == 0,
            r.detail_horiz_offset == 0,
            r.horiz_offset == 0,
            r.field_detail_scroll == 0,
            r.last_list_height == 0,
    {
        let mut list_state = ListCursor::new();
        list_state.select(None);
        let mut column_select_state = ListCursor::new();
        column_select_state.select(Some(0));
        let columns = default_columns();
        proof {
            crate::columns::lemma_default_cols_distinct();
        }
        App {
            entries: Vec::new(),
            filtered_indices: Vec::new(),
            columns,
            column_select_state,
            list_state,
            input_paused: false,
            list_scroll_offset: 0,
            max_entries,
            last_list_height: 0,
            last_list_width: 0,
            last_detail_height: 0,
            last_detail_width: 0,
            detail_scroll: 0,
            detail_total_lines: 0,
            detail_horiz_offset: 0,
            detail_max_line_width: 0,
            focus: Focus::List,
            show_help: false,
            zoom: None,
            autoscroll: true,
            filter_query: String::new(),
            filter_regex: None,
            filter_error: None,
            input_mode: InputMode::Normal,
            filter_buffer: String::new(),
            force_redraw: true,
            max_row_width: 0,
            horiz_offset: 0,
            field_view: None,
            field_detail_scroll: 0,
            field_detail_total_lines: 0,
            last_field_detail_height: 0,
            last_field_list_height: 0,
            last_field_detail_width: 0,
            field_detail_horiz_offset: 0,
            field_detail_max_line_width: 0,
            detail_wrap: true,
            field_detail_wrap: true,
            field_zoom: None,
        }
    }

    /// Whether a record passes the active pattern, by testing its haystack.
    pub fn matches_filter(&self, entry: &LogEntry) -> (r: bool)
        ensures
            r == entry_matches(self.active(), *entry),
    {
        match &self.filter_regex {
            Some(re) => {
                let hay = build_haystack(entry);
                regex_is_match(re, hay.as_str())
            },
            None => true,
        }
    }

    /// The store index of the selected record, as `spec_selected_entry` says.
    fn selected_entry_index(&self) -> (r: Option<usize>)
        ensures
            r == self.spec_selected_entry(),
    {
        match self.list_state.selected() {
            Some(idx) => if idx < self.filtered_indices.len() {
                Some(self.filtered_indices[idx])
            } else {
                None
            },
            None => None,
        }
    }

    /// The selected record itself, when the cursor names a live filtered row
    /// naming a live store index.
    pub fn current_entry(&self) -> (r: Option<&LogEntry>)
        ensures
            (match self.spec_selected_entry() {
                Some(idx) => if idx < self.entries@.len() {
                    r matches Some(e) && *e == self.entries@[idx as int]
                } else {
                    r is None
                },
                None => r is None,
            }),
    {
        let idx = match self.list_state.selected() {
            Some(i) => i,
            None => {
                return None;
            },
        };
        if idx >= self.filtered_indices.len() {
            return None;
        }
        let entry_idx = self.filtered_indices[idx];
        if entry_idx >= self.entries.len() {
            return None;
        }
        Some(&self.entries[entry_idx])
    }

    /// Synchronizes the stored list offset (and, in manual mode, the
    /// cursor's window) with the selection, as `spec_sync_offset` says.
    fn update_list_offset(&mut self)
        ensures
            *final(self) == old(self).spec_sync_offset(),
    {
        if self.autoscroll {
            self.list_scroll_offset = self.list_state.offset();
            return;
        }
        let selected = match self.list_state.selected() {
            Some(s) => s,
            None => {
                self.list_scroll_offset = self.list_state.offset();
                return;
            },
        };
        let height = if self.last_list_height >= 1 {
            self.last_list_height
        } else {
            1
        };
        let offset = self.list_scroll_offset;
        let new_offset = if selected >= offset && selected - offset >= height {
            selected - height + 1
        } else if selected < offset {
            selected
        } else {
            offset
        };
        self.list_scroll_offset = new_offset;
        let off = self.list_state.offset_mut();
        *off = new_offset;
    }

    /// Moves the selection down one row; a no-op on an empty filtered view.
    pub fn next(&mut self)
        requires
            old(self).wf(),
        ensures
            final(self).wf(),
            Self::step_post(*old(self), old(self).next_target(), *final(self)),
    {
        if self.filtered_indices.len() == 0 {
            return;
        }
        let i = match self.list_state.selected() {
            Some(s) => s,
            None => 0,
        };
        let last = self.filtered_indices.len() - 1;
        let next = if i < last {
            i + 1
        } else {
            last
        };
        self.list_state.select(Some(next));
        self.reset_detail_position();
        self.force_redraw = true;
        self.update_list_offset();
        proof {
            lemma_filtered_wf_same(*old(self), *self);
        }
    }

    /// Moves the selection up one row; a no-op on an empty filtered view.
    pub fn previous(&mut self)
        requires
            old(self).wf(),
        ensures
            final(self).wf(),
            Self::step_post(*old(self), old(self).prev_target(), *final(self)),
    {
        if self.filtered_indices.len() == 0 {
            return;
        }
        let i = match self.list_state.selected() {
            Some(s) => s,
            None => 0,
        };
        let prev = if i >= 1 {
            i - 1
        } else {
            0
        };
        self.list_state.select(Some(prev));
        self.reset_detail_position();
        self.force_redraw = true;
        self.update_list_offset();
        proof {
            lemma_filtered_wf_same(*old(self), *self);
        }
    }

    /// The page step: half the last seen list height, at least one row.
    pub open spec fn spec_half_page(self) -> int {
        let h = if self.last_list_height >= 1 {
            self.last_list_height as int
        } else {
            1int
        };
        if h / 2 >= 1 {
            h / 2
        } else {
            1int
        }
    }

    /// Moves the selection half a page down; a no-op on an empty filtered
    /// view.
    #[verifier::rlimit(60)]
    pub fn page_down(&mut self)
        requires
            old(self).wf(),
        ensures
            final(self).wf(),
            Self::step_post(*old(self), old(self).page_down_target(), *final(self)),
    {
        if self.filtered_indices.len() == 0 {
            return;
        }
        let h = if self.last_list_height >= 1 {
            self.last_list_height
        } else {
            1
        };
        let half = if h / 2 >= 1 {
            h / 2
        } else {
            1
        };
        let i = match self.list_state.selected() {
            Some(s) => s,
            None => 0,
        };
        let last = self.filtered_indices.len() - 1;
        let next = if i < last && half <= last - i {
            i + half
        } else {
            last
        };
        self.list_state.select(Some(next));
        self.reset_detail_position();
        self.force_redraw = true;
        self.update_list_offset();
        proof {
            lemma_filtered_wf_same(*old(self), *self);
        }
    }

    /// Moves the selection half a page up; a no-op on an empty filtered view.
    #[verifier::rlimit(60)]
    pub fn page_up(&mut self)
        requires
            old(self).wf(),
        ensures
            final(self).wf(),
            Self::step_post(*old(self), old(self).page_up_target(), *final(self)),
    {
        if self.filtered_indices.len() == 0 {
            return;
        }
        let h = if self.last_list_height >= 1 {
            self.last_list_height
        } else {
            1
        };
        let half = if h / 2 >= 1 {
            h / 2
        } else {
            1
        };
        let i = match self.list_state.selected() {
            Some(s) => s,
            None => 0,
        };
        let prev = if i >= half {
            i - half
        } else {
            0
        };
        self.list_state.select(Some(prev));
        self.reset_detail_position();
        self.force_redraw = true;
        self.update_list_offset();
        proof {
            lemma_filtered_wf_same(*old(self), *self);
        }
    }

    /// Selects the last filtered row, or nothing when the view is empty.
    pub fn select_last(&mut self)
        requires
            old(self).wf(),
        ensures
            final(self).wf(),
            Self::moved_post(*old(self), old(self).last_target(), *final(self)),
    {
        if self.filtered_indices.len() == 0 {
            self.list_state.select(None);
        } else {
            let last = self.filtered_indices.len() - 1;
            self.list_state.select(Some(last));
        }
        self.reset_detail_position();
        self.force_redraw = true;
        self.update_list_offset();
        proof {
            lemma_filtered_wf_same(*old(self), *self);
        }
    }

    /// Selects the first filtered row, or nothing when the view is empty.
    pub fn select_first(&mut self)
        requires
            old(self).wf(),
        ensures
            final(self).wf(),
            Self::moved_post(*old(self), old(self).first_target(), *final(self)),
    {
        if self.filtered_indices.len() == 0 {
            self.list_state.select(None);
        } else {
            self.list_state.select(Some(0));
        }
        self.reset_detail_position();
        self.force_redraw = true;
        self.update_list_offset();
        proof {
            lemma_filtered_wf_same(*old(self), *self);
        }
    }

    /// Scrolls the detail pane back to its top-left corner.
    pub(crate) fn reset_detail_position(&mut self)
        ensures
            *final(self) == (App { detail_scroll: 0, detail_horiz_offset: 0, ..*old(self) }),
    {
        self.detail_scroll = 0;
        self.detail_horiz_offset = 0;
    }

    /// Scrolls the field explorer's detail pane back to its top-left corner.
    pub(crate) fn reset_field_detail_position(&mut self)
        ensures
            *final(self) == (App {
                field_detail_scroll: 0,
                field_detail_horiz_offset: 0,
                ..*old(self)
            }),
    {
        self.field_detail_scroll = 0;
        self.field_detail_horiz_offset = 0;
    }

    /// The furthest a detail pane of the given height can scroll down over
    /// the given number of wrapped lines.
    pub open spec fn spec_detail_max(total: int, height: int) -> int {
        let h = if height >= 1 {
            height
        } else {
            1
        };
        if total >= h {
            total - h
        } else {
            0
        }
    }

    /// What scrolling the detail pane down does: it stops at the last window
    /// (and at the pane counter's own ceiling), and is inert when nothing is
    /// shown.
    pub open spec fn detail_down_post(pre: App, post: App, lines: int) -> bool {
        if pre.detail_total_lines == 0 {
            post == pre
        } else {
            let cap = {
                let m = Self::spec_detail_max(
                    pre.detail_total_lines as int,
                    pre.last_detail_height as int,
                );
                if m <= u16::MAX as int {
                    m
                } else {
                    u16::MAX as int
                }
            };
            let target = if pre.detail_scroll as int + lines <= cap {
                pre.detail_scroll as int + lines
            } else {
                cap
            };
            post == (App { detail_scroll: target as u16, ..pre })
        }
    }

    /// Scrolls the detail pane down by the given number of lines, as
    /// `detail_down_post` says.
    pub fn detail_down(&mut self, lines: usize)
        ensures
            Self::detail_down_post(*old(self), *final(self), lines as int),
    {
        if self.detail_total_lines == 0 {
            return;
        }
        let h = if self.last_detail_height >= 1 {
            self.last_detail_height
        } else {
            1
        };
        let max_offset = if self.detail_total_lines >= h {
            self.detail_total_lines - h
        } else {
            0
        };
        let cap: u16 = if max_offset <= u16::MAX as usize {
            max_offset as u16
        } else {
            u16::MAX
        };
        let base = self.detail_scroll as usize;
        self.detail_scroll = if lines <= cap as usize && base + lines <= cap as usize {
            (base + lines) as u16
        } else {
            cap
        };
    }

    /// What scrolling the detail pane up does: it stops at the top.
    pub open spec fn detail_up_post(pre: App, post: App, lines: int) -> bool {
        post == (App {
            detail_scroll: (if lines >= pre.detail_scroll as int {
                0int
            } else {
                pre.detail_scroll as int - lines
            }) as u16,
            ..pre
        })
    }

    /// Scrolls the detail pane up by the given number of lines, as
    /// `detail_up_post` says.
    pub fn detail_up(&mut self, lines: usize)
        ensures
            Self::detail_up_post(*old(self), *final(self), lines as int),
    {
        let dec: u16 = if lines >= u16::MAX as usize {
            u16::MAX
        } else {
            lines as u16
        };
        self.detail_scroll = self.detail_scroll.saturating_sub(dec);
    }

    /// Jumps the detail pane to its top-left corner.
    pub fn detail_top(&mut self)
        ensures
            *final(self) == (App { detail_scroll: 0, detail_horiz_offset: 0, ..*old(self) }),
    {
        self.detail_scroll = 0;
        self.detail_horiz_offset = 0;
    }

    /// What jumping the detail pane to its bottom does: the last window
    /// (clamped to the pane counter's ceiling), or the top when nothing is
    /// shown.
    pub open spec fn detail_bottom_post(pre: App, post: App) -> bool {
        if pre.detail_total_lines == 0 {
            post == (App { detail_scroll: 0, ..pre })
        } else {
            let m = Self::spec_detail_max(
                pre.detail_total_lines as int,
                pre.last_detail_height as int,
            );
            let target = if m <= u16::MAX as int {
                m
            } else {
                u16::MAX as int
            };
            post == (App { detail_scroll: target as u16, ..pre })
        }
    }

    /// Jumps the detail pane to its last window, as `detail_bottom_post`
    /// says.
    pub fn detail_bottom(&mut self)
        ensures
            Self::detail_bottom_post(*old(self), *final(self)),
    {
        if self.detail_total_lines == 0 {
            self.detail_scroll = 0;
            return;
        }
        let h = if self.last_detail_height >= 1 {
            self.last_detail_height
        } else {
            1
        };
        let max_offset = if self.detail_total_lines >= h {
            self.detail_total_lines - h
        } else {
            0
        };
        self.detail_scroll = if max_offset <= u16::MAX as usize {
            max_offset as u16
        } else {
            u16::MAX
        };
    }

    /// A horizontal step: a quarter of the pane, at least four columns.
    pub open spec fn pan_step(width: int) -> int {
        if width / 4 >= 4 {
            width / 4
        } else {
            4int
        }
    }

    /// The detail pane's half-page step: half its last seen height, at least
    /// one line.
    pub open spec fn spec_detail_half(self) -> int {
        let h = if self.last_detail_height >= 1 {
            self.last_detail_height as int
        } else {
            1int
        };
        if h / 2 >= 1 {
            h / 2
        } else {
            1int
        }
    }

    /// The furthest a pane can scroll right: the content width beyond the
    /// pane width (the width counting as at least one column).
    pub open spec fn spec_horiz_max(content: int, width: int) -> int {
        let w = if width >= 1 {
            width
        } else {
            1
        };
        if content >= w {
            content - w
        } else {
            0
        }
    }

    /// A clamped detail-pane column: a wrapped pane always sits at column
    /// zero, otherwise the offset stops at the widest line beyond the pane.
    pub open spec fn clamped_detail_offset(pre: App, x: int) -> int {
        if pre.detail_wrap {
            0int
        } else {
            let m = Self::spec_horiz_max(
                pre.detail_max_line_width as int,
                pre.last_detail_width as int,
            );
            if x <= m {
                x
            } else {
                m
            }
        }
    }

    /// Clamps the detail pane's horizontal offset, as `clamped_detail_offset`
    /// says.
    pub fn clamp_detail_horiz_offset(&mut self)
        ensures
            *final(self) == (App {
                detail_horiz_offset: Self::clamped_detail_offset(
                    *old(self),
                    old(self).detail_horiz_offset as int,
                ) as usize,
                ..*old(self)
            }),
    {
        if self.detail_wrap {
            self.detail_horiz_offset = 0;
            return;
        }
        let w = if self.last_detail_width >= 1 {
            self.last_detail_width
        } else {
            1
        };
        let max_off = if self.detail_max_line_width >= w {
            self.detail_max_line_width - w
        } else {
            0
        };
        if self.detail_horiz_offset > max_off {
            self.detail_horiz_offset = max_off;
        }
    }

    /// A clamped field-detail column: a wrapped pane always sits at column
    /// zero, otherwise the offset stops at the widest line beyond the pane.
    pub open spec fn clamped_field_offset(pre: App, x: int) -> int {
        if pre.field_detail_wrap {
            0int
        } else {
            let m = Self::spec_horiz_max(
                pre.field_detail_max_line_width as int,
                pre.last_field_detail_width as int,
            );
            if x <= m {
                x
            } else {
                m
            }
        }
    }

    /// Clamps the field explorer detail pane's horizontal offset, as
    /// `clamped_field_offset` says.
    pub fn clamp_field_detail_horiz_offset(&mut self)
        ensures
            *final(self) == (App {
                field_detail_horiz_offset: Self::clamped_field_offset(
                    *old(self),
                    old(self).field_detail_horiz_offset as int,
                ) as usize,
                ..*old(self)
            }),
    {
        if self.field_detail_wrap {
            self.field_detail_horiz_offset = 0;
            return;
        }
        let w = if self.last_field_detail_width >= 1 {
            self.last_field_detail_width
        } else {
            1
        };
        let max_off = if self.field_detail_max_line_width >= w {
            self.field_detail_max_line_width - w
        } else {
            0
        };
        if self.field_detail_horiz_offset > max_off {
            self.field_detail_horiz_offset = max_off;
        }
    }

    /// A clamped list-pane column: the offset stops at the widest row beyond
    /// the pane width; rows that fit pin it to column zero.
    pub open spec fn clamped_list_offset(pre: App, x: int) -> int {
        if pre.max_row_width > pre.last_list_width {
            let m = pre.max_row_width - pre.last_list_width;
            if x <= m {
                x
            } else {
                m as int
            }
        } else {
            0int
        }
    }

    /// Clamps the list pane's horizontal offset, as `clamped_list_offset`
    /// says.
    pub fn clamp_offset(&mut self)
        ensures
            *final(self) == (App {
                horiz_offset: Self::clamped_list_offset(
                    *old(self),
                    old(self).horiz_offset as int,
                ) as usize,
                ..*old(self)
            }),
    {
        if self.max_row_width > self.last_list_width {
            let max_off = self.max_row_width - self.last_list_width;
            if self.horiz_offset > max_off {
                self.horiz_offset = max_off;
            }
        } else {
            self.horiz_offset = 0;
        }
    }

    /// Clamping an integer between two bounds.
    pub open spec fn spec_clamp(x: int, lo: int, hi: int) -> int {
        if x < lo {
            lo
        } else if x > hi {
            hi
        } else {
            x
        }
    }

    /// What a column move does: the column under the selector cursor swaps
    /// with the one `delta` away (clamped to the registry's ends) and the
    /// cursor moves with it; a no-op without columns, without a cursor, or
    /// at an end.
    pub open spec fn move_column_post(pre: App, post: App, delta: int) -> bool {
        match pre.column_select_state.selected {
            Some(idx) => if pre.columns@.len() == 0 {
                post == pre
            } else {
                let target = Self::spec_clamp(idx as int + delta, 0, pre.columns@.len() - 1);
                if target == idx as int {
                    post == pre
                } else {
                    &&& post == (App {
                        columns: post.columns,
                        column_select_state: ListCursor {
                            selected: Some(target as usize),
                            offset: pre.column_select_state.offset,
                        },
                        ..pre
                    })
                    &&& post.columns@ == pre.columns@.update(
                        idx as int,
                        pre.columns@[target],
                    ).update(target, pre.columns@[idx as int])
                }
            },
            None => post == pre,
        }
    }

    /// Swaps the column under the selector cursor with the one `delta` away,
    /// as `move_column_post` says.
    #[verifier::rlimit(100)]
    #[verifier::spinoff_prover]
    pub fn move_column(&mut self, delta: isize)
        requires
            old(self).wf(),
        ensures
            final(self).wf(),
            Self::move_column_post(*old(self), *final(self), delta as int),
    {
        if self.columns.len() == 0 {
            return;
        }
        let idx = match self.column_select_state.selected() {
            Some(i) => i,
            None => {
                return;
            },
        };
        let len = self.columns.len();
        let new_idx: usize = if delta >= 0 {
            let d = delta as usize;
            if d <= len - 1 - idx {
                idx + d
            } else {
                len - 1
            }
        } else {
            let d = (-(delta + 1)) as usize + 1;
            if d <= idx {
                idx - d
            } else {
                0
            }
        };
        if new_idx == idx {
            return;
        }
        let ghost before = self.columns@;
        let (lo, hi) = if new_idx < idx {
            (new_idx, idx)
        } else {
            (idx, new_idx)
        };
        let chi = self.columns.remove(hi);
        let clo = self.columns.remove(lo);
        self.columns.insert(lo, chi);
        self.columns.insert(hi, clo);
        self.column_select_state.select(Some(new_idx));
        proof {
            assert(self.columns@ =~= before.update(idx as int, before[new_idx as int]).update(
                new_idx as int,
                before[idx as int],
            ));
            assert(cols_view(self.columns@) =~= cols_view(before).update(
                idx as int,
                cols_view(before)[new_idx as int],
            ).update(new_idx as int, cols_view(before)[idx as int]));
            assert(paths_distinct(cols_view(self.columns@))) by {
                let a = cols_view(before);
                let b = cols_view(self.columns@);
                assert forall|i: int, j: int| 0 <= i < j < b.len() implies b[i].1 != b[j].1 by {
                    let pi = if i == idx as int {
                        new_idx as int
                    } else if i == new_idx as int {
                        idx as int
                    } else {
                        i
                    };
                    let pj = if j == idx as int {
                        new_idx as int
                    } else if j == new_idx as int {
                        idx as int
                    } else {
                        j
                    };
                    assert(b[i] == a[pi] && b[j] == a[pj] && pi != pj);
                }
            }
            lemma_filtered_wf_same(*old(self), *self);
        }
    }

    /// What flipping follow-latest does: turning it on jumps to the newest
    /// filtered row; turning it off freezes the current scroll offset as the
    /// manual anchor.
    pub open spec fn toggle_autoscroll_post(pre: App, post: App) -> bool {
        &&& post.autoscroll == !pre.autoscroll
        &&& (pre.autoscroll ==> post == (App {
            autoscroll: false,
            force_redraw: true,
            list_scroll_offset: pre.list_state.offset,
            ..pre
        }))
        &&& (!pre.autoscroll ==> Self::moved_post(
            App { autoscroll: true, force_redraw: true, ..pre },
            pre.last_target(),
            post,
        ))
    }

    /// Flips follow-latest, as `toggle_autoscroll_post` says.
    pub fn toggle_autoscroll(&mut self)
        requires
            old(self).wf(),
        ensures
            final(self).wf(),
            Self::toggle_autoscroll_post(*old(self), *final(self)),
    {
        self.autoscroll = !self.autoscroll;
        self.force_redraw = true;
        if self.autoscroll {
            self.select_last();
        } else {
            self.list_scroll_offset = self.list_state.offset();
            let off = self.list_state.offset_mut();
            *off = self.list_scroll_offset;
            proof {
                lemma_filtered_wf_same(*old(self), *self);
            }
        }
    }

    /// Whether the record selected before a rebuild is present in the
    /// rebuilt filtered view.
    pub open spec fn sel_found(pre: App, post: App) -> bool {
        match pre.spec_selected_entry() {
            Some(idx) => exists|k: int|
                0 <= k < post.filtered_indices@.len() && post.filtered_indices@[k] == idx,
            None => false,
        }
    }

    /// Re-scans the whole store against the active pattern, producing the new
    /// filtered view. A still-present selected record keeps the selection
    /// (under the preserving strategy); otherwise the strategy picks the
    /// first or the newest row, and an empty view clears the selection.
    #[verifier::rlimit(100)]
    #[verifier::spinoff_prover]
    pub(crate) fn rebuild_filtered(&mut self, strategy: SelectStrategy)
        requires
            old(self).wf_core(),
        ensures
            final(self).wf(),
            *final(self) == (App {
                filtered_indices: final(self).filtered_indices,
                list_state: final(self).list_state,
                list_scroll_offset: final(self).list_scroll_offset,
                detail_scroll: final(self).detail_scroll,
                detail_horiz_offset: final(self).detail_horiz_offset,
                horiz_offset: final(self).horiz_offset,
                ..*old(self)
            }),
            final(self).filtered_indices@.len() == 0 ==> *final(self) == (App {
                filtered_indices: final(self).filtered_indices,
                list_state: ListCursor { selected: None, offset: old(self).list_state.offset },
                detail_scroll: 0,
                detail_horiz_offset: 0,
                ..*old(self)
            }),
            (final(self).filtered_indices@.len() > 0 && strategy is Last) ==> *final(self) == (App {
                filtered_indices: final(self).filtered_indices,
                list_state: ListCursor {
                    selected: Some((final(self).filtered_indices@.len() - 1) as usize),
                    offset: old(self).list_state.offset,
                },
                detail_scroll: 0,
                detail_horiz_offset: 0,
                horiz_offset: 0,
                ..*old(self)
            }).spec_sync_offset(),
            (final(self).filtered_indices@.len() > 0 && strategy is PreserveOrFirst
                && Self::sel_found(*old(self), *final(self))) ==> (match final(self).list_state.selected {
                Some(s) => {
                    &&& s < final(self).filtered_indices@.len()
                    &&& Some(final(self).filtered_indices@[s as int]) == old(self).spec_selected_entry()
                    &&& *final(self) == (App {
                        filtered_indices: final(self).filtered_indices,
                        list_state: ListCursor {
                            selected: Some(s),
                            offset: old(self).list_state.offset,
                        },
                        detail_scroll: 0,
                        detail_horiz_offset: 0,
                        horiz_offset: 0,
                        ..*old(self)
                    }).spec_sync_offset()
                },
                None => false,
            }),
            (final(self).filtered_indices@.len() > 0 && strategy is PreserveOrFirst
                && !Self::sel_found(*old(self), *final(self))) ==> *final(self) == (App {
                filtered_indices: final(self).filtered_indices,
                list_state: ListCursor { selected: Some(0usize), offset: old(self).list_state.offset },
                detail_scroll: 0,
                detail_horiz_offset: 0,
                horiz_offset: 0,
                ..*old(self)
            }).spec_sync_offset(),
    {
        let prev_selected_entry = self.selected_entry_index();
        let mut filtered: Vec<usize> = Vec::new();
        let mut i: usize = 0;
        while i < self.entries.len()
            invariant
                i <= self.entries@.len(),
                *self == *old(self),
                crate::strictly_increasing(filtered@),
                forall|k: int| 0 <= k < filtered@.len() ==> filtered@[k] < i && entry_matches(
                    self.active(),
                    self.entries@[filtered@[k] as int],
                ),
                forall|j: int| 0 <= j < i && entry_matches(self.active(), self.entries@[j])
                    ==> exists|k: int| 0 <= k < filtered@.len() && filtered@[k] == j,
            decreases self.entries@.len() - i,
        {
            if self.matches_filter(&self.entries[i]) {
                let ghost fbefore = filtered@;
                filtered.push(i);
                proof {
                    assert forall|j: int|
                        0 <= j < i + 1 && entry_matches(self.active(), self.entries@[j])
                        implies exists|k: int| 0 <= k < filtered@.len() && filtered@[k] == j by {
                        if j < i {
                            let k = choose|k: int| 0 <= k < fbefore.len() && fbefore[k] == j;
                            assert(filtered@[k] == j);
                        } else {
                            assert(filtered@[filtered@.len() - 1] == j);
                        }
                    }
                }
            }
            i = i + 1;
        }
        self.filtered_indices = filtered;

        if self.filtered_indices.len() == 0 {
            self.list_state.select(None);
            self.reset_detail_position();
            return;
        }
        match strategy {
            SelectStrategy::Last => {
                let last = self.filtered_indices.len() - 1;
                self.list_state.select(Some(last));
                self.reset_detail_position();
                self.horiz_offset = 0;
                self.update_list_offset();
                proof {
                    lemma_filtered_wf_same(*self, *self);
                }
            },
            SelectStrategy::PreserveOrFirst => {
                if let Some(idx) = prev_selected_entry {
                    let mut k: usize = 0;
                    let mut found: Option<usize> = None;
                    while k < self.filtered_indices.len() && found.is_none()
                        invariant
                            k <= self.filtered_indices@.len(),
                            (match found {
                                Some(pos) => pos < self.filtered_indices@.len()
                                    && self.filtered_indices@[pos as int] == idx,
                                None => forall|m: int| 0 <= m < k
                                    ==> self.filtered_indices@[m] != idx,
                            }),
                        decreases self.filtered_indices@.len() - k, (if found is None { 1int } else { 0int }),
                    {
                        if self.filtered_indices[k] == idx {
                            found = Some(k);
                        } else {
                            k = k + 1;
                        }
                    }
                    if let Some(pos) = found {
                        self.list_state.select(Some(pos));
                        self.reset_detail_position();
                        self.horiz_offset = 0;
                        self.update_list_offset();
                        return;
                    }
                }
                self.list_state.select(Some(0));
                self.reset_detail_position();
                self.horiz_offset = 0;
                self.update_list_offset();
            },
        }
    }

    /// What applying a pattern does: an unparsable pattern only records an
    /// error; an accepted (or empty) one becomes the active pattern, the
    /// view is rebuilt exactly, a still-matching selected record keeps the
    /// selection (else it falls to the first remaining match, or to nothing
    /// on an empty view), and the detail viewport and the list's horizontal
    /// offset reset.
    pub open spec fn apply_filter_post(pre: App, post: App, pattern: Seq<char>) -> bool {
        &&& ((pattern.len() > 0 && !crate::pattern::regex_accepts(pattern)) ==> {
            &&& post.filter_error is Some
            &&& post == (App { filter_error: post.filter_error, ..pre })
        })
        &&& ((pattern.len() == 0 || crate::pattern::regex_accepts(pattern)) ==> ({
            let active = if pattern.len() == 0 {
                None::<Seq<char>>
            } else {
                Some(pattern)
            };
            &&& post == (App {
                filter_query: post.filter_query,
                filter_regex: post.filter_regex,
                filter_error: post.filter_error,
                filtered_indices: post.filtered_indices,
                list_state: post.list_state,
                list_scroll_offset: post.list_scroll_offset,
                detail_scroll: post.detail_scroll,
                detail_horiz_offset: post.detail_horiz_offset,
                horiz_offset: post.horiz_offset,
                ..pre
            })
            &&& post.active() == active
            &&& post.filter_query@ == pattern
            &&& post.filter_error is None
            &&& post.detail_scroll == 0
            &&& post.detail_horiz_offset == 0
            &&& post.horiz_offset == 0
            &&& (match pre.spec_selected_entry() {
                Some(idx) => if idx < pre.entries@.len() && entry_matches(
                    active,
                    pre.entries@[idx as int],
                ) {
                    (match post.list_state.selected {
                        Some(s) => s < post.filtered_indices@.len()
                            && post.filtered_indices@[s as int] == idx,
                        None => false,
                    })
                } else {
                    post.list_state.selected == (if post.filtered_indices@.len() == 0 {
                        None::<usize>
                    } else {
                        Some(0usize)
                    })
                },
                None => post.list_state.selected == (if post.filtered_indices@.len() == 0 {
                    None::<usize>
                } else {
                    Some(0usize)
                }),
            })
        }))
    }

    /// Applies an operator-supplied pattern, as `apply_filter_post` says: an
    /// empty pattern clears the filter, a valid one becomes active with the
    /// view rebuilt and the viewport reset, an invalid one only records an
    /// error.
    pub fn apply_filter(&mut self, pattern: &str)
        requires
            old(self).wf(),
        ensures
            final(self).wf(),
            Self::apply_filter_post(*old(self), *final(self), pattern@),
    {
        if pattern.unicode_len() == 0 {
            self.filter_query = String::new();
            self.filter_regex = None;
            self.filter_error = None;
            self.rebuild_filtered(SelectStrategy::PreserveOrFirst);
            self.horiz_offset = 0;
            proof {
                assert(self.filter_query@ =~= pattern@);
            }
            return;
        }
        match crate::pattern::regex_new(pattern) {
            Ok(re) => {
                self.filter_query = pattern.to_owned();
                self.filter_regex = Some(re);
                self.filter_error = None;
                self.rebuild_filtered(SelectStrategy::PreserveOrFirst);
                self.horiz_offset = 0;
            },
            Err(err) => {
                self.filter_error = Some(err);
            },
        }
    }

    /// Hands a record to the store unless input is paused.
    pub fn ingest(&mut self, entry: LogEntry)
        requires
            old(self).wf(),
        ensures
            final(self).wf(),
            old(self).input_paused ==> *final(self) == *old(self),
            !old(self).input_paused ==> Self::push_post(*old(self), *final(self), entry),
    {
        if self.input_paused {
            return;
        }
        self.push(entry);
    }

    /// Appends every newly discovered column of a payload and, when columns
    /// were added and the selector had no live cursor, rests it on the first
    /// column.
    pub fn discover_columns(&mut self, value: &crate::json::JsonValue)
        requires
            old(self).wf_core(),
        ensures
            final(self).wf_core(),
            cols_view(final(self).columns@) == discover_spec(cols_view(old(self).columns@), value@),
            final(self).columns@.len() >= old(self).columns@.len(),
            *final(self) == (App {
                columns: final(self).columns,
                column_select_state: final(self).column_select_state,
                ..*old(self)
            }),
            final(self).column_select_state.offset == old(self).column_select_state.offset,
            (match old(self).column_select_state.selected {
                Some(i) => final(self).column_select_state.selected == (if final(self).columns@.len() > old(self).columns@.len() && i >= final(self).columns@.len() {
                    Some(0usize)
                } else {
                    Some(i)
                }),
                None => final(self).column_select_state.selected == (if final(self).columns@.len()
                    > old(self).columns@.len() {
                    Some(0usize)
                } else {
                    None::<usize>
                }),
            }),
    {
        let ghost cv0 = cols_view(self.columns@);
        let added = discover_into(&mut self.columns, value);
        if added {
            let len = self.columns.len();
            let reset = match self.column_select_state.selected() {
                Some(i) => i >= len,
                None => true,
            };
            if reset {
                self.column_select_state.select(Some(0));
            }
        }
        proof {
            crate::columns::lemma_discover_distinct(cv0, value@);
        }
    }

    /// The index renumbering after the oldest record is evicted: an entry
    /// naming it (index zero) drops out, every other index moves down one.
    pub open spec fn renumber(f: Seq<usize>) -> Seq<usize>
        decreases f.len(),
    {
        if f.len() == 0 {
            Seq::empty()
        } else {
            let rest = Self::renumber(f.drop_first());
            if f[0] == 0 {
                rest
            } else {
                seq![(f[0] - 1) as usize] + rest
            }
        }
    }

    /// How renumbering acts on a strictly increasing index sequence: with
    /// index zero present the head drops and the rest shift down; otherwise
    /// every index shifts down.
    pub proof fn lemma_renumber_incr(f: Seq<usize>)
        requires
            crate::strictly_increasing(f),
        ensures
            (f.len() > 0 && f[0] == 0) ==> Self::renumber(f).len() == f.len() - 1 && (forall|
                k: int,
            |
                0 <= k < f.len() - 1 ==> Self::renumber(f)[k] as int == f[k + 1] as int - 1),
            !(f.len() > 0 && f[0] == 0) ==> Self::renumber(f).len() == f.len() && (forall|k: int|
                0 <= k < f.len() ==> Self::renumber(f)[k] as int == f[k] as int - 1),
        decreases f.len(),
    {
        if f.len() > 0 {
            let rest = f.drop_first();
            assert(crate::strictly_increasing(rest)) by {
                assert(forall|i: int, j: int|
                    0 <= i < j < rest.len() ==> rest[i] == f[i + 1] && rest[j] == f[j + 1]);
            }
            Self::lemma_renumber_incr(rest);
            if f[0] == 0 {
                assert(rest.len() > 0 ==> rest[0] == f[1] && f[1] > f[0]);
            } else {
                assert(rest.len() > 0 ==> rest[0] as int > f[0] as int && rest[0] != 0);
                assert forall|k: int| 0 <= k < f.len() implies Self::renumber(f)[k] as int == f[k]
                    as int - 1 by {
                    if k > 0 {
                        assert(rest[k - 1] == f[k]);
                    }
                }
            }
        }
    }

    /// Renumbering after an eviction keeps the filtered view exact over the
    /// shortened store.
    #[verifier::spinoff_prover]
    proof fn lemma_evict_filtered_wf(
        e1: Seq<LogEntry>,
        f1: Seq<usize>,
        active: Option<Seq<char>>,
        e2: Seq<LogEntry>,
        f2: Seq<usize>,
    )
        requires
            e1.len() >= 1,
            e2 == e1.drop_first(),
            f2 == Self::renumber(f1),
            crate::strictly_increasing(f1),
            forall|k: int| 0 <= k < f1.len() ==> f1[k] < e1.len() && entry_matches(
                active,
                e1[f1[k] as int],
            ),
            forall|j: int| 0 <= j < e1.len() && entry_matches(active, e1[j]) ==> exists|k: int|
                0 <= k < f1.len() && f1[k] == j,
        ensures
            crate::strictly_increasing(f2),
            forall|k: int| 0 <= k < f2.len() ==> f2[k] < e2.len() && entry_matches(
                active,
                e2[f2[k] as int],
            ),
            forall|j: int| 0 <= j < e2.len() && entry_matches(active, e2[j]) ==> exists|k: int|
                0 <= k < f2.len() && f2[k] == j,
    {
        Self::lemma_renumber_incr(f1);
        if f1.len() > 0 && f1[0] == 0 {
            assert forall|k: int| 0 <= k < f2.len() implies f2[k] < e2.len() && entry_matches(
                active,
                e2[f2[k] as int],
            ) by {
                assert(f2[k] as int == f1[k + 1] as int - 1);
                assert(f1[k + 1] >= 1);
                assert(e2[f2[k] as int] == e1[f1[k + 1] as int]);
            }
            assert forall|j: int|
                0 <= j < e2.len() && entry_matches(active, e2[j]) implies exists|k: int|
                0 <= k < f2.len() && f2[k] == j by {
                assert(e2[j] == e1[j + 1]);
                let k = choose|k: int| 0 <= k < f1.len() && f1[k] == j + 1;
                assert(k >= 1);
                assert(f2[k - 1] as int == f1[k] as int - 1);
            }
        } else {
            assert forall|k: int| 0 <= k < f2.len() implies f2[k] < e2.len() && entry_matches(
                active,
                e2[f2[k] as int],
            ) by {
                assert(f2[k] as int == f1[k] as int - 1);
                assert(f1[k] != 0) by {
                    if k > 0 {
                        assert(f1[k] > f1[0] >= 0);
                    }
                }
                assert(e2[f2[k] as int] == e1[f1[k] as int]);
            }
            assert forall|j: int|
                0 <= j < e2.len() && entry_matches(active, e2[j]) implies exists|k: int|
                0 <= k < f2.len() && f2[k] == j by {
                assert(e2[j] == e1[j + 1]);
                let k = choose|k: int| 0 <= k < f1.len() && f1[k] == j + 1;
                assert(f2[k] as int == f1[k] as int - 1);
            }
        }
    }

    /// Renumbers a filtered index list after an eviction, as `renumber`
    /// says.
    #[verifier::spinoff_prover]
    fn renumber_vec(f: &Vec<usize>) -> (r: Vec<usize>)
        ensures
            r@ == Self::renumber(f@),
    {
        let mut out: Vec<usize> = Vec::new();
        let mut i: usize = 0;
        proof {
            assert(f@.skip(0) =~= f@);
            assert(out@ + Self::renumber(f@.skip(0)) =~= Self::renumber(f@));
        }
        while i < f.len()
            invariant
                i <= f@.len(),
                out@ + Self::renumber(f@.skip(i as int)) == Self::renumber(f@),
            decreases f@.len() - i,
        {
            let x = f[i];
            proof {
                let rest = f@.skip(i as int);
                assert(rest[0] == f@[i as int]);
                assert(rest.drop_first() =~= f@.skip(i + 1 as int));
            }
            if x > 0 {
                out.push(x - 1);
                proof {
                    assert(out@ + Self::renumber(f@.skip(i + 1 as int)) =~= Self::renumber(f@));
                }
            } else {
                proof {
                    assert(out@ + Self::renumber(f@.skip(i + 1 as int)) =~= Self::renumber(f@));
                }
            }
            i = i + 1;
        }
        proof {
            assert(f@.skip(f@.len() as int) =~= Seq::<usize>::empty());
            assert(out@ =~= Self::renumber(f@));
        }
        out
    }

    /// The selection's list position after the oldest record is evicted.
    /// Rows shift up one only when the evicted record (store index zero) was
    /// in the filtered view, so only then does the position move down — a
    /// selection on the evicted record's own row falls to the new first row.
    /// Otherwise every row still names the same record and the position
    /// stays, keeping the operator's place in the stream.
    pub open spec fn evicted_selection(sel: Option<usize>, f: Seq<usize>) -> Option<usize> {
        match sel {
            Some(s) => if f.len() > 0 && f[0] == 0 {
                Some(
                    (if s >= 1 {
                        s - 1
                    } else {
                        0
                    }) as usize,
                )
            } else {
                Some(s)
            },
            None => None,
        }
    }

    /// Evicts the oldest record: the store drops index zero, the filtered
    /// view is renumbered, the selection moves as `evicted_selection` says,
    /// and the list window follows. A selected record that survives the
    /// eviction keeps the selection: the renumbered selection names the same
    /// logical record.
    #[verifier::rlimit(100)]
    #[verifier::spinoff_prover]
    pub fn evict_oldest(&mut self)
        requires
            old(self).wf(),
            old(self).entries@.len() >= 1,
        ensures
            final(self).wf(),
            final(self).entries@ == old(self).entries@.drop_first(),
            final(self).filtered_indices@ == Self::renumber(old(self).filtered_indices@),
            *final(self) == (App {
                entries: final(self).entries,
                filtered_indices: final(self).filtered_indices,
                list_state: ListCursor {
                    selected: Self::evicted_selection(
                        old(self).list_state.selected,
                        old(self).filtered_indices@,
                    ),
                    offset: old(self).list_state.offset,
                },
                ..*old(self)
            }).spec_sync_offset(),
            (match old(self).list_state.selected {
                Some(s) => (s < old(self).filtered_indices@.len() && old(self).filtered_indices@[s as int] != 0) ==> (match final(self).list_state.selected {
                    Some(s2) => s2 < final(self).filtered_indices@.len() && final(self).entries@[
                        final(self).filtered_indices@[s2 as int] as int] == old(self).entries@[
                        old(self).filtered_indices@[s as int] as int],
                    None => false,
                }),
                None => true,
            }),
    {
        let ghost pre = *old(self);
        self.entries.remove(0);
        proof {
            assert(self.entries@ =~= pre.entries@.drop_first());
        }
        let shifted = self.filtered_indices.len() > 0 && self.filtered_indices[0] == 0;
        if shifted {
            match self.list_state.selected() {
                Some(sel) => {
                    if sel > 0 {
                        self.list_state.select(Some(sel - 1));
                    } else {
                        self.list_state.select(Some(0));
                    }
                },
                None => {},
            }
        }
        let ghost fold = pre.filtered_indices@;
        let renumbered = Self::renumber_vec(&self.filtered_indices);
        self.filtered_indices = renumbered;
        self.update_list_offset();
        proof {
            assert(self.active() == pre.active());
            Self::lemma_evict_filtered_wf(
                pre.entries@,
                fold,
                pre.active(),
                self.entries@,
                self.filtered_indices@,
            );
            Self::lemma_renumber_incr(fold);
            assert(self.wf_core());
            assert(self.filtered_wf());
        }
    }

    /// What pushing one record does: at capacity the oldest record is
    /// evicted first (renumbering the view, moving the selection as
    /// `evicted_selection` says — so a surviving selected record stays
    /// selected — and syncing the window), the payload's new keys become
    /// columns, and the record is appended. Under follow-latest the view is
    /// rebuilt onto the newest match with the detail pane reset; when
    /// paused, a matching record's index is appended to the view and an
    /// existing selection, the manual scroll position and the detail pane
    /// stay exactly as they were; only when nothing was selected does the
    /// new tail row take the selection.
    pub open spec fn push_post(pre: App, post: App, entry: LogEntry) -> bool {
        let evicted = pre.entries@.len() == pre.max_entries;
        let base_entries = if evicted {
            pre.entries@.drop_first()
        } else {
            pre.entries@
        };
        let base_filtered = if evicted {
            Self::renumber(pre.filtered_indices@)
        } else {
            pre.filtered_indices@
        };
        let base_sel = if evicted {
            Self::evicted_selection(pre.list_state.selected, pre.filtered_indices@)
        } else {
            pre.list_state.selected
        };
        let base_scroll = if evicted {
            Self::spec_synced_offset(
                pre.autoscroll,
                base_sel,
                pre.list_state.offset as int,
                pre.list_scroll_offset as int,
                pre.last_list_height as int,
            )
        } else {
            pre.list_scroll_offset as int
        };
        let base_coff = if evicted {
            base_scroll
        } else {
            pre.list_state.offset as int
        };
        &&& post.entries@ == base_entries.push(entry)
        &&& cols_view(post.columns@) == discover_spec(cols_view(pre.columns@), entry.raw@)
        &&& post == (App {
            entries: post.entries,
            filtered_indices: post.filtered_indices,
            columns: post.columns,
            column_select_state: post.column_select_state,
            list_state: post.list_state,
            list_scroll_offset: post.list_scroll_offset,
            detail_scroll: post.detail_scroll,
            detail_horiz_offset: post.detail_horiz_offset,
            horiz_offset: post.horiz_offset,
            ..pre
        })
        &&& (pre.autoscroll ==> {
            &&& post.horiz_offset == 0
            &&& post.detail_scroll == 0
            &&& post.detail_horiz_offset == 0
            &&& (post.filtered_indices@.len() > 0 ==> {
                &&& post.list_state.selected == Some((post.filtered_indices@.len() - 1) as usize)
                &&& post.list_state.offset as int == base_coff
                &&& post.list_scroll_offset as int == base_coff
            })
            &&& (post.filtered_indices@.len() == 0 ==> {
                &&& post.list_state.selected is None
                &&& post.list_state.offset as int == base_coff
                &&& post.list_scroll_offset as int == base_scroll
            })
        })
        &&& (!pre.autoscroll ==> {
            let new_idx = base_entries.len() as usize;
            &&& (entry_matches(pre.active(), entry) ==> {
                &&& post.filtered_indices@ == base_filtered.push(new_idx)
                &&& (base_sel is Some ==> {
                    &&& post.list_state.selected == base_sel
                    &&& post.list_state.offset as int == base_coff
                    &&& post.list_scroll_offset as int == base_scroll
                    &&& post.detail_scroll == pre.detail_scroll
                    &&& post.detail_horiz_offset == pre.detail_horiz_offset
                    &&& post.horiz_offset == pre.horiz_offset
                })
                &&& (base_sel is None ==> {
                    let tail = (post.filtered_indices@.len() - 1) as usize;
                    let w = Self::spec_synced_offset(
                        false,
                        Some(tail),
                        base_coff,
                        base_scroll,
                        pre.last_list_height as int,
                    );
                    &&& post.list_state.selected == Some(tail)
                    &&& post.list_state.offset as int == w
                    &&& post.list_scroll_offset as int == w
                    &&& post.detail_scroll == 0
                    &&& post.detail_horiz_offset == 0
                    &&& post.horiz_offset == 0
                })
            })
            &&& (!entry_matches(pre.active(), entry) ==> {
                &&& post.filtered_indices@ == base_filtered
                &&& post.list_state.selected == base_sel
                &&& post.list_state.offset as int == base_coff
                &&& post.list_scroll_offset as int == base_scroll
                &&& post.detail_scroll == pre.detail_scroll
                &&& post.detail_horiz_offset == pre.detail_horiz_offset
                &&& post.horiz_offset == pre.horiz_offset
            })
        })
    }

    /// Pushes one record through the whole ingestion pipeline, as
    /// `push_post` says.
    #[verifier::rlimit(100)]
    #[verifier::spinoff_prover]
    pub fn push(&mut self, entry: LogEntry)
        requires
            old(self).wf(),
        ensures
            final(self).wf(),
            Self::push_post(*old(self), *final(self), entry),
    {
        let ghost pre = *old(self);
        if self.entries.len() == self.max_entries {
            self.evict_oldest();
        }
        let ghost evicted_state = *self;
        self.discover_columns(&entry.raw);
        let new_idx = self.entries.len();
        let matched = self.matches_filter(&entry);
        self.entries.push(entry);
        if !self.autoscroll {
            if matched {
                self.filtered_indices.push(new_idx);
                proof {
                    assert(self.active() == evicted_state.active());
                    assert forall|k: int|
                        0 <= k < self.filtered_indices@.len() implies self.filtered_indices@[k]
                        < self.entries@.len() && entry_matches(
                        self.active(),
                        self.entries@[self.filtered_indices@[k] as int],
                    ) by {
                        if k < self.filtered_indices@.len() - 1 {
                            assert(self.filtered_indices@[k]
                                == evicted_state.filtered_indices@[k]);
                            assert(self.entries@[self.filtered_indices@[k] as int]
                                == evicted_state.entries@[self.filtered_indices@[k] as int]);
                        } else {
                            assert(self.filtered_indices@[k] == new_idx);
                        }
                    }
                    assert(crate::strictly_increasing(self.filtered_indices@)) by {
                        assert forall|a: int, b: int|
                            0 <= a < b < self.filtered_indices@.len()
                            implies self.filtered_indices@[a] < self.filtered_indices@[b] by {
                            if b < self.filtered_indices@.len() - 1 {
                                assert(self.filtered_indices@[a]
                                    == evicted_state.filtered_indices@[a]);
                            } else {
                                assert(self.filtered_indices@[b] == new_idx);
                                assert(evicted_state.filtered_indices@[a] < new_idx);
                            }
                        }
                    }
                    assert forall|j: int|
                        0 <= j < self.entries@.len() && entry_matches(
                            self.active(),
                            self.entries@[j],
                        ) implies exists|k: int|
                        0 <= k < self.filtered_indices@.len() && self.filtered_indices@[k]
                            == j by {
                        if j < new_idx {
                            let k = choose|k: int|
                                0 <= k < evicted_state.filtered_indices@.len()
                                    && evicted_state.filtered_indices@[k] == j;
                            assert(self.filtered_indices@[k] == j);
                        } else {
                            assert(self.filtered_indices@[self.filtered_indices@.len() - 1] == j);
                        }
                    }
                }
                if self.list_state.selected().is_none() {
                    let last = self.filtered_indices.len() - 1;
                    self.list_state.select(Some(last));
                    self.reset_detail_position();
                    self.horiz_offset = 0;
                    self.update_list_offset();
                }
            } else {
                proof {
                    assert(self.active() == evicted_state.active());
                    assert forall|k: int|
                        0 <= k < self.filtered_indices@.len() implies self.filtered_indices@[k]
                        < self.entries@.len() && entry_matches(
                        self.active(),
                        self.entries@[self.filtered_indices@[k] as int],
                    ) by {
                        assert(self.filtered_indices@[k] == evicted_state.filtered_indices@[k]);
                        assert(self.entries@[self.filtered_indices@[k] as int]
                            == evicted_state.entries@[self.filtered_indices@[k] as int]);
                    }
                    assert forall|j: int|
                        0 <= j < self.entries@.len() && entry_matches(
                            self.active(),
                            self.entries@[j],
                        ) implies exists|k: int|
                        0 <= k < self.filtered_indices@.len() && self.filtered_indices@[k]
                            == j by {
                        if j < new_idx {
                            let k = choose|k: int|
                                0 <= k < evicted_state.filtered_indices@.len()
                                    && evicted_state.filtered_indices@[k] == j;
                            assert(self.filtered_indices@[k] == j);
                        }
                    }
                }
            }
        } else {
            self.rebuild_filtered(SelectStrategy::Last);
            self.horiz_offset = 0;
        }
        proof {
            assert(self.wf_core());
            assert(self.filtered_wf());
        }
    }

    /// What opening the field explorer does: on a selected record its
    /// payload is flattened, every node passes the empty filter, the first
    /// node is selected, and field-view mode begins; a no-op when nothing is
    /// selected.
    pub open spec fn enter_field_view_post(pre: App, post: App) -> bool {
        match pre.spec_selected_entry() {
            Some(idx) => if idx < pre.entries@.len() {
                &&& (match post.field_view {
                    Some(fv) => {
                        &&& crate::field_view::fv_views(fv.fields@) == crate::field_view::flatten(
                            pre.entries@[idx as int].raw@,
                            Seq::empty(),
                        )
                        &&& fv.filtered_indices@.len() == fv.fields@.len()
                        &&& (forall|k: int| 0 <= k < fv.filtered_indices@.len()
                            ==> fv.filtered_indices@[k] == k)
                        &&& fv.list_state.selected == Some(0usize)
                        &&& fv.filter@.len() == 0
                    },
                    None => false,
                })
                &&& post == (App {
                    field_view: post.field_view,
                    field_detail_scroll: 0,
                    field_detail_horiz_offset: 0,
                    field_detail_total_lines: 0,
                    last_field_detail_height: 0,
                    last_field_detail_width: 0,
                    field_detail_max_line_width: 0,
                    field_zoom: None,
                    input_mode: InputMode::FieldView,
                    force_redraw: true,
                    ..pre
                })
            } else {
                post == pre
            },
            None => post == pre,
        }
    }

    /// Opens the field explorer on the selected record, as
    /// `enter_field_view_post` says.
    pub fn enter_field_view(&mut self)
        requires
            old(self).wf(),
        ensures
            final(self).wf(),
            Self::enter_field_view_post(*old(self), *final(self)),
    {
        let idx = match self.list_state.selected() {
            Some(i) => i,
            None => {
                return;
            },
        };
        if idx >= self.filtered_indices.len() {
            return;
        }
        let entry_idx = self.filtered_indices[idx];
        if entry_idx >= self.entries.len() {
            return;
        }
        let fields = collect_fields(&self.entries[entry_idx].raw);
        let mut filtered: Vec<usize> = Vec::new();
        let mut i: usize = 0;
        while i < fields.len()
            invariant
                i <= fields@.len(),
                filtered@.len() == i,
                forall|k: int| 0 <= k < i ==> filtered@[k] == k,
            decreases fields@.len() - i,
        {
            filtered.push(i);
            i = i + 1;
        }
        let mut list_state = ListCursor::new();
        list_state.select(Some(0));
        let ghost flen = fields@.len();
        let fv = FieldViewState { fields, filtered_indices: filtered, list_state, filter: String::new() };
        proof {
            assert(fv.filtered_wf()) by {
                assert(fv.filter@.len() == 0);
                assert(fv.filtered_indices@.len() == fv.fields@.len());
                assert(forall|k: int| 0 <= k < fv.filtered_indices@.len()
                    ==> fv.filtered_indices@[k] == k);
                assert forall|j: int|
                    0 <= j < fv.fields@.len() && crate::field_view::label_matches(
                        fv.filter@,
                        fv.fields@[j].path@,
                    ) implies exists|k: int|
                    0 <= k < fv.filtered_indices@.len() && fv.filtered_indices@[k] == j by {
                    assert(fv.filtered_indices@[j] == j);
                }
            }
            assert(fv.filtered_indices@.len() == flen);
        }
        self.field_view = Some(fv);
        self.reset_field_detail_position();
        self.field_detail_total_lines = 0;
        self.last_field_detail_height = 0;
        self.last_field_detail_width = 0;
        self.field_detail_max_line_width = 0;
        self.field_zoom = None;
        self.input_mode = InputMode::FieldView;
        self.force_redraw = true;
        proof {
            lemma_filtered_wf_same(*old(self), *self);
        }
    }

    /// What leaving the field explorer does: its state drops and the normal
    /// mode returns.
    pub open spec fn exit_field_view_post(pre: App, post: App) -> bool {
        post == (App {
            field_view: None,
            field_detail_scroll: 0,
            field_detail_horiz_offset: 0,
            field_detail_total_lines: 0,
            last_field_detail_height: 0,
            last_field_detail_width: 0,
            field_detail_max_line_width: 0,
            field_zoom: None,
            input_mode: InputMode::Normal,
            ..pre
        })
    }

    /// Leaves the field explorer, as `exit_field_view_post` says.
    pub fn exit_field_view(&mut self)
        requires
            old(self).wf(),
        ensures
            final(self).wf(),
            Self::exit_field_view_post(*old(self), *final(self)),
    {
        self.field_view = None;
        self.reset_field_detail_position();
        self.field_detail_total_lines = 0;
        self.last_field_detail_height = 0;
        self.last_field_detail_width = 0;
        self.field_detail_max_line_width = 0;
        self.field_zoom = None;
        self.input_mode = InputMode::Normal;
        proof {
            lemma_filtered_wf_same(*old(self), *self);
        }
    }

    /// What a field-explorer selection move does: the cursor moves by
    /// `delta`, clamped to the filtered rows, and the detail pane resets;
    /// with no prior selection the clamped row is selected afresh; a no-op
    /// without an explorer or rows.
    pub open spec fn move_field_selection_post(pre: App, post: App, delta: int) -> bool {
        match pre.field_view {
            None => post == pre,
            Some(fv) => if fv.filtered_indices@.len() == 0 {
                post == pre
            } else {
                let len = fv.filtered_indices@.len();
                let cur = (match fv.list_state.selected {
                    Some(c) => if c < len {
                        c as int
                    } else {
                        len - 1
                    },
                    None => 0int,
                });
                let target = Self::spec_clamp(cur + delta, 0, len - 1);
                if fv.list_state.selected is None {
                    post == (App {
                        field_view: Some(
                            FieldViewState {
                                list_state: ListCursor {
                                    selected: Some(target as usize),
                                    offset: fv.list_state.offset,
                                },
                                ..fv
                            },
                        ),
                        field_detail_scroll: 0,
                        force_redraw: true,
                        ..pre
                    })
                } else if target == cur {
                    post == pre
                } else {
                    post == (App {
                        field_view: Some(
                            FieldViewState {
                                list_state: ListCursor {
                                    selected: Some(target as usize),
                                    offset: fv.list_state.offset,
                                },
                                ..fv
                            },
                        ),
                        field_detail_scroll: 0,
                        field_detail_horiz_offset: 0,
                        force_redraw: true,
                        ..pre
                    })
                }
            },
        }
    }

    /// Moves the field explorer's selection by `delta`, as
    /// `move_field_selection_post` says.
    pub(crate) fn move_field_selection(&mut self, delta: isize)
        requires
            old(self).wf(),
        ensures
            final(self).wf(),
            Self::move_field_selection_post(*old(self), *final(self), delta as int),
    {
        let ghost pre = *old(self);
        let len: usize;
        let current_is_none: bool;
        let current: usize;
        match &self.field_view {
            Some(fv) => {
                if fv.filtered_indices.len() == 0 {
                    return;
                }
                len = fv.filtered_indices.len();
                match fv.list_state.selected() {
                    Some(c) => {
                        current_is_none = false;
                        current = if c < len {
                            c
                        } else {
                            len - 1
                        };
                    },
                    None => {
                        current_is_none = true;
                        current = 0;
                    },
                }
            },
            None => {
                return;
            },
        }
        let target: usize = if delta >= 0 {
            let d = delta as usize;
            if d <= len - 1 - current {
                current + d
            } else {
                len - 1
            }
        } else {
            let d = (-(delta + 1)) as usize + 1;
            if d <= current {
                current - d
            } else {
                0
            }
        };
        if current_is_none {
            match &mut self.field_view {
                Some(fv) => fv.list_state.select(Some(target)),
                None => {},
            }
            self.field_detail_scroll = 0;
            self.force_redraw = true;
            proof {
                lemma_filtered_wf_same(pre, *self);
            }
            return;
        }
        if target == current {
            return;
        }
        match &mut self.field_view {
            Some(fv) => fv.list_state.select(Some(target)),
            None => {},
        }
        self.reset_field_detail_position();
        self.force_redraw = true;
        proof {
            lemma_filtered_wf_same(pre, *self);
        }
    }

    /// The field explorer's page step: half its last seen height, at least
    /// one row.
    pub open spec fn spec_field_half_page(self) -> int {
        let h = if self.last_field_list_height >= 1 {
            self.last_field_list_height as int
        } else {
            1int
        };
        if h / 2 >= 1 {
            h / 2
        } else {
            1int
        }
    }

    /// Moves the field explorer's selection half a page down or up.
    pub(crate) fn move_field_half_page(&mut self, down: bool)
        requires
            old(self).wf(),
        ensures
            final(self).wf(),
            Self::move_field_selection_post(
                *old(self),
                *final(self),
                if down {
                    old(self).spec_field_half_page()
                } else {
                    -old(self).spec_field_half_page()
                },
            ),
    {
        let h = if self.last_field_list_height >= 1 {
            self.last_field_list_height
        } else {
            1
        };
        let step = if h / 2 >= 1 {
            h / 2
        } else {
            1
        };
        let step_i: isize = if step > (isize::MAX as usize) {
            isize::MAX
        } else {
            step as isize
        };
        if down {
            self.move_field_selection(step_i);
        } else {
            self.move_field_selection(-step_i);
        }
    }

    /// Flips the field explorer between its split layout and a zoomed detail
    /// pane.
    pub(crate) fn cycle_field_zoom(&mut self)
        ensures
            *final(self) == (App {
                field_zoom: (match old(self).field_zoom {
                    None => Some(FieldZoom::Detail),
                    Some(_) => None::<FieldZoom>,
                }),
                ..*old(self)
            }),
    {
        self.field_zoom = match self.field_zoom {
            None => Some(FieldZoom::Detail),
            Some(FieldZoom::Detail) => None,
        };
    }

    /// What promoting a node's text to the main filter does: its
    /// regex-escaped literal fills the edit buffer, the explorer closes, and
    /// filter entry begins; the operator still has to confirm it.
    pub open spec fn promote_post(pre: App, post: App, text: Seq<char>) -> bool {
        &&& post.filter_buffer@ == crate::pattern::regex_escaped(text)
        &&& post == (App {
            filter_buffer: post.filter_buffer,
            filter_error: None,
            input_mode: InputMode::FilterInput,
            focus: Focus::List,
            field_view: None,
            field_detail_scroll: 0,
            field_detail_horiz_offset: 0,
            field_detail_total_lines: 0,
            last_field_detail_height: 0,
            last_field_detail_width: 0,
            field_detail_max_line_width: 0,
            field_zoom: None,
            ..pre
        })
    }

    /// Takes a node's literal text as a pre-filled main filter, as
    /// `promote_post` says.
    pub fn move_field_value_to_filter(&mut self, entry: &crate::field_view::FieldEntry)
        requires
            old(self).wf(),
        ensures
            final(self).wf(),
            Self::promote_post(
                *old(self),
                *final(self),
                crate::field_view::spec_field_value(entry.value@),
            ),
    {
        let ghost pre = *old(self);
        let text = crate::field_view::field_value_for_filter(entry);
        let literal = crate::pattern::regex_escape(text.as_str());
        self.exit_field_view();
        self.focus = Focus::List;
        self.filter_buffer = literal;
        self.filter_error = None;
        self.input_mode = InputMode::FilterInput;
        proof {
            lemma_filtered_wf_same(pre, *self);
        }
    }

    /// Flips whether newly arriving records are discarded.
    pub fn toggle_input_pause(&mut self)
        ensures
            *final(self) == (App {
                input_paused: !old(self).input_paused,
                force_redraw: true,
                ..*old(self)
            }),
    {
        self.input_paused = !self.input_paused;
        self.force_redraw = true;
    }
}

} // verus!
