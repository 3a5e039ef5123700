//! The operator's keyboard dispatch: one normalized key press moves the
//! engine between its modes and drives the mutators.

use vstd::prelude::*;
use vstd::string::*;

use crate::columns::{col_view, cols_view, paths_distinct, ColumnDef};
use crate::cursor::ListCursor;
use crate::editor::{entry_editor_payload, value_editor_payload, EditorRequest};
use crate::state::{App, Focus, InputMode};
use crate::text::{pop_char, push_char};

verus! {

/// One normalized key press: a plain character, a control chord, or a
/// special key.
#[derive(Clone, Copy, PartialEq, Eq, Structural)]
pub enum KeyInput {
    Char(char),
    Ctrl(char),
    Enter,
    Esc,
    Backspace,
    Tab,
    Up,
    Down,
    Left,
    Right,
}

/// What the caller must do after a key press: nothing, stop the program, or
/// hand a prepared text to the editor collaborator.
pub enum KeyAction {
    Idle,
    Quit,
    OpenEditor(EditorRequest),
}

impl App {
    /// What toggling the column under the selector cursor does: that
    /// column's visibility flips, nothing else moves.
    pub open spec fn toggle_column_post(pre: App, post: App) -> bool {
        match pre.column_select_state.selected {
            Some(i) => if i < pre.columns@.len() {
                &&& cols_view(post.columns@) == cols_view(pre.columns@).update(
                    i as int,
                    (
                        pre.columns@[i as int].name@,
                        pre.columns@[i as int].path.deep_view(),
                        !pre.columns@[i as int].enabled,
                    ),
                )
                &&& post == (App { columns: post.columns, ..pre })
            } else {
                post == pre
            },
            None => post == pre,
        }
    }

    /// Flips whether the column under the selector cursor is shown, as
    /// `toggle_column_post` says.
    pub fn toggle_column(&mut self)
        requires
            old(self).wf(),
        ensures
            final(self).wf(),
            Self::toggle_column_post(*old(self), *final(self)),
    {
        let ghost pre = *old(self);
        let idx = match self.column_select_state.selected() {
            Some(i) => i,
            None => {
                return;
            },
        };
        if idx >= self.columns.len() {
            return;
        }
        let flipped = flipped_column(&self.columns[idx]);
        self.columns[idx] = flipped;
        proof {
            assert(cols_view(self.columns@) =~= cols_view(pre.columns@).update(
                idx as int,
                (
                    pre.columns@[idx as int].name@,
                    pre.columns@[idx as int].path.deep_view(),
                    !pre.columns@[idx as int].enabled,
                ),
            ));
            assert(paths_distinct(cols_view(self.columns@))) by {
                let a = cols_view(pre.columns@);
                let b = cols_view(self.columns@);
                assert(forall|k: int| 0 <= k < b.len() ==> b[k].1 == a[k].1);
            }
            crate::state::lemma_filtered_wf_same(pre, *self);
        }
    }

    /// What moving the selector cursor one row down does: it clamps at the
    /// last column, and rests on the first when it was nowhere.
    pub open spec fn colsel_down_post(pre: App, post: App) -> bool {
        post == (App {
            column_select_state: ListCursor {
                selected: (match pre.column_select_state.selected {
                    Some(i) => if i + 1 < pre.columns@.len() {
                        Some((i + 1) as usize)
                    } else {
                        Some(
                            (if pre.columns@.len() >= 1 {
                                pre.columns@.len() - 1
                            } else {
                                0int
                            }) as usize,
                        )
                    },
                    None => Some(0usize),
                }),
                offset: pre.column_select_state.offset,
            },
            ..pre
        })
    }

    /// Moves the column selector cursor one row down, as `colsel_down_post`
    /// says.
    fn column_cursor_down(&mut self)
        requires
            old(self).wf(),
        ensures
            final(self).wf(),
            Self::colsel_down_post(*old(self), *final(self)),
    {
        let ghost pre = *old(self);
        let len = self.columns.len();
        let next = match self.column_select_state.selected() {
            Some(i) => {
                let last = if len >= 1 {
                    len - 1
                } else {
                    0
                };
                if i < last {
                    i + 1
                } else {
                    last
                }
            },
            None => 0,
        };
        self.column_select_state.select(Some(next));
        proof {
            crate::state::lemma_filtered_wf_same(pre, *self);
        }
    }

    /// What moving the selector cursor one row up does: it floors at the
    /// first column, and rests there when it was nowhere.
    pub open spec fn colsel_up_post(pre: App, post: App) -> bool {
        post == (App {
            column_select_state: ListCursor {
                selected: (match pre.column_select_state.selected {
                    Some(i) => Some(
                        (if i >= 1 {
                            i - 1
                        } else {
                            0int
                        }) as usize,
                    ),
                    None => Some(0usize),
                }),
                offset: pre.column_select_state.offset,
            },
            ..pre
        })
    }

    /// Moves the column selector cursor one row up, as `colsel_up_post`
    /// says.
    fn column_cursor_up(&mut self)
        requires
            old(self).wf(),
        ensures
            final(self).wf(),
            Self::colsel_up_post(*old(self), *final(self)),
    {
        let ghost pre = *old(self);
        let prev = match self.column_select_state.selected() {
            Some(i) => if i >= 1 {
                i - 1
            } else {
                0
            },
            None => 0,
        };
        self.column_select_state.select(Some(prev));
        proof {
            crate::state::lemma_filtered_wf_same(pre, *self);
        }
    }

    /// What opening the column selector does: the mode changes, and a
    /// missing cursor rests on the first column (when there is one).
    pub open spec fn open_column_select_post(pre: App, post: App) -> bool {
        post == (App {
            input_mode: InputMode::ColumnSelect,
            column_select_state: ListCursor {
                selected: (match pre.column_select_state.selected {
                    Some(i) => Some(i),
                    None => if pre.columns@.len() > 0 {
                        Some(0usize)
                    } else {
                        None
                    },
                }),
                offset: pre.column_select_state.offset,
            },
            ..pre
        })
    }

    /// Opens the column selector, as `open_column_select_post` says.
    fn open_column_select(&mut self)
        requires
            old(self).wf(),
        ensures
            final(self).wf(),
            Self::open_column_select_post(*old(self), *final(self)),
    {
        let ghost pre = *old(self);
        self.input_mode = InputMode::ColumnSelect;
        if self.column_select_state.selected().is_none() && self.columns.len() > 0 {
            self.column_select_state.select(Some(0));
        }
        proof {
            crate::state::lemma_filtered_wf_same(pre, *self);
        }
    }

    /// What beginning filter entry does: the mode changes, the active query
    /// fills the edit buffer, and any stale error clears.
    pub open spec fn open_filter_input_post(pre: App, post: App) -> bool {
        &&& post == (App {
            input_mode: InputMode::FilterInput,
            filter_buffer: post.filter_buffer,
            filter_error: None,
            ..pre
        })
        &&& post.filter_buffer@ == pre.filter_query@
    }

    /// Begins filter entry, as `open_filter_input_post` says.
    fn open_filter_input(&mut self)
        requires
            old(self).wf(),
        ensures
            final(self).wf(),
            Self::open_filter_input_post(*old(self), *final(self)),
    {
        let ghost pre = *old(self);
        self.input_mode = InputMode::FilterInput;
        self.filter_buffer = self.filter_query.clone();
        self.filter_error = None;
        proof {
            crate::state::lemma_filtered_wf_same(pre, *self);
        }
    }

    /// What one key press does in field-explorer mode (after the global
    /// chords): leave, promote the selected node's text, edit the explorer's
    /// filter, move its selection, or scroll and pan its detail pane.
    pub open spec fn field_view_key_post(pre: App, post: App, key: KeyInput) -> bool {
        if key == KeyInput::Esc {
            Self::exit_field_view_post(pre, post)
        } else if key == KeyInput::Char('/') {
            match pre.spec_selected_field() {
                Some(f) => Self::promote_post(
                    pre,
                    post,
                    crate::field_view::spec_field_value(f.value@),
                ),
                None => post == pre,
            }
        } else if pre.field_view is None {
            post == pre
        } else {
            match key {
                KeyInput::Char('w') => post == (App {
                    field_detail_wrap: !pre.field_detail_wrap,
                    field_detail_scroll: 0,
                    field_detail_horiz_offset: 0,
                    force_redraw: true,
                    ..pre
                }),
                KeyInput::Char('h') => if pre.field_detail_wrap {
                    post == pre
                } else {
                    let step = Self::pan_step(pre.last_field_detail_width as int);
                    let x = if pre.field_detail_horiz_offset as int >= step {
                        pre.field_detail_horiz_offset as int - step
                    } else {
                        0int
                    };
                    post == (App {
                        field_detail_horiz_offset: Self::clamped_field_offset(pre, x) as usize,
                        ..pre
                    })
                },
                KeyInput::Char('l') => if pre.field_detail_wrap {
                    post == pre
                } else {
                    let step = Self::pan_step(pre.last_field_detail_width as int);
                    let raw = pre.field_detail_horiz_offset as int + step;
                    let x = if raw <= usize::MAX as int {
                        raw
                    } else {
                        usize::MAX as int
                    };
                    post == (App {
                        field_detail_horiz_offset: Self::clamped_field_offset(pre, x) as usize,
                        ..pre
                    })
                },
                KeyInput::Char('0') => if pre.field_detail_wrap {
                    post == pre
                } else {
                    post == (App { field_detail_horiz_offset: 0, ..pre })
                },
                KeyInput::Char('$') => if !pre.field_detail_wrap
                    && pre.field_detail_max_line_width > pre.last_field_detail_width {
                    post == (App {
                        field_detail_horiz_offset: Self::clamped_field_offset(
                            pre,
                            pre.field_detail_max_line_width as int
                                - pre.last_field_detail_width as int,
                        ) as usize,
                        ..pre
                    })
                } else {
                    post == pre
                },
                KeyInput::Backspace => Self::field_backspace_post(pre, post),
                KeyInput::Ctrl('u') => Self::field_clear_post(pre, post),
                KeyInput::Char(c) => Self::field_push_post(pre, post, c),
                KeyInput::Down => Self::move_field_selection_post(pre, post, 1),
                KeyInput::Up => Self::move_field_selection_post(pre, post, -1),
                KeyInput::Ctrl('d') => if pre.field_zoom is Some {
                    Self::field_half_down_post(pre, post)
                } else {
                    Self::move_field_selection_post(pre, post, pre.spec_field_half_page())
                },
                _ => post == pre,
            }
        }
    }

    /// What one key press does in filter-entry mode: leave, apply the
    /// buffer, or edit it.
    pub open spec fn filter_input_key_post(pre: App, post: App, key: KeyInput) -> bool {
        match key {
            KeyInput::Esc => {
                &&& post == (App {
                    input_mode: InputMode::Normal,
                    filter_buffer: post.filter_buffer,
                    filter_error: None,
                    ..pre
                })
                &&& post.filter_buffer@.len() == 0
            },
            KeyInput::Enter => App::apply_filter_post(
                App { input_mode: InputMode::Normal, ..pre },
                post,
                pre.filter_buffer@,
            ),
            KeyInput::Backspace => {
                &&& post == (App { filter_buffer: post.filter_buffer, ..pre })
                &&& post.filter_buffer@ == (if pre.filter_buffer@.len() == 0 {
                    pre.filter_buffer@
                } else {
                    pre.filter_buffer@.drop_last()
                })
            },
            KeyInput::Ctrl('u') => {
                &&& post == (App { filter_buffer: post.filter_buffer, ..pre })
                &&& post.filter_buffer@.len() == 0
            },
            KeyInput::Char(c) => {
                &&& post == (App { filter_buffer: post.filter_buffer, ..pre })
                &&& post.filter_buffer@ == pre.filter_buffer@.push(c)
            },
            _ => post == pre,
        }
    }

    /// What one key press does in the column selector: leave, toggle or move
    /// the column under the cursor, or move the cursor.
    pub open spec fn column_select_key_post(pre: App, post: App, key: KeyInput) -> bool {
        match key {
            KeyInput::Esc | KeyInput::Char('c') => post == (App {
                input_mode: InputMode::Normal,
                ..pre
            }),
            KeyInput::Char(' ') | KeyInput::Enter => Self::toggle_column_post(pre, post),
            KeyInput::Char('J') => Self::move_column_post(pre, post, 1),
            KeyInput::Char('K') => Self::move_column_post(pre, post, -1),
            KeyInput::Down | KeyInput::Char('j') => Self::colsel_down_post(pre, post),
            KeyInput::Up | KeyInput::Char('k') => Self::colsel_up_post(pre, post),
            KeyInput::Char('g') => post == (App {
                column_select_state: ListCursor {
                    selected: Some(0usize),
                    offset: pre.column_select_state.offset,
                },
                ..pre
            }),
            KeyInput::Char('G') => if pre.columns@.len() > 0 {
                post == (App {
                    column_select_state: ListCursor {
                        selected: Some((pre.columns@.len() - 1) as usize),
                        offset: pre.column_select_state.offset,
                    },
                    ..pre
                })
            } else {
                post == pre
            },
            _ => post == pre,
        }
    }

    /// What one key press does while the list pane has focus: move the
    /// selection, pan the rows, or switch mode, filter, follow-latest or
    /// focus.
    pub open spec fn list_key_post(pre: App, post: App, key: KeyInput) -> bool {
        match key {
            KeyInput::Ctrl('l') => post == (App { force_redraw: true, ..pre }),
            KeyInput::Char('j') | KeyInput::Down => Self::step_post(pre, pre.next_target(), post),
            KeyInput::Char('k') | KeyInput::Up => Self::step_post(pre, pre.prev_target(), post),
            KeyInput::Char('h') => ({
                let step = Self::pan_step(pre.last_list_width as int);
                let x = if pre.horiz_offset as int >= step {
                    pre.horiz_offset as int - step
                } else {
                    0int
                };
                post == (App { horiz_offset: Self::clamped_list_offset(pre, x) as usize, ..pre })
            }),
            KeyInput::Char('l') => ({
                let step = Self::pan_step(pre.last_list_width as int);
                let raw = pre.horiz_offset as int + step;
                let x = if raw <= usize::MAX as int {
                    raw
                } else {
                    usize::MAX as int
                };
                post == (App { horiz_offset: Self::clamped_list_offset(pre, x) as usize, ..pre })
            }),
            KeyInput::Char('0') => post == (App { horiz_offset: 0, ..pre }),
            KeyInput::Char('$') => ({
                let x = if pre.max_row_width > pre.last_list_width {
                    pre.max_row_width as int - pre.last_list_width as int
                } else {
                    0int
                };
                post == (App { horiz_offset: Self::clamped_list_offset(pre, x) as usize, ..pre })
            }),
            KeyInput::Char('c') => Self::open_column_select_post(pre, post),
            KeyInput::Char('a') => Self::toggle_autoscroll_post(pre, post),
            KeyInput::Char('/') => Self::open_filter_input_post(pre, post),
            KeyInput::Char('w') => post == (App {
                detail_wrap: !pre.detail_wrap,
                detail_scroll: 0,
                detail_horiz_offset: 0,
                force_redraw: true,
                ..pre
            }),
            KeyInput::Char('g') => Self::moved_post(pre, pre.first_target(), post),
            KeyInput::Char('G') => Self::moved_post(pre, pre.last_target(), post),
            KeyInput::Ctrl('d') => Self::step_post(pre, pre.page_down_target(), post),
            KeyInput::Ctrl('u') => Self::step_post(pre, pre.page_up_target(), post),
            KeyInput::Enter | KeyInput::Tab | KeyInput::Right => post == (App {
                focus: Focus::Detail,
                ..pre
            }),
            _ => post == pre,
        }
    }

    /// What one key press does while the detail pane has focus: scroll or
    /// pan the pane, or switch mode, filter or focus.
    pub open spec fn detail_key_post(pre: App, post: App, key: KeyInput) -> bool {
        match key {
            KeyInput::Ctrl('l') => post == (App { force_redraw: true, ..pre }),
            KeyInput::Char('h') => ({
                let step = Self::pan_step(pre.last_detail_width as int);
                let x = if pre.detail_horiz_offset as int >= step {
                    pre.detail_horiz_offset as int - step
                } else {
                    0int
                };
                post == (App {
                    detail_horiz_offset: Self::clamped_detail_offset(pre, x) as usize,
                    ..pre
                })
            }),
            KeyInput::Char('l') => ({
                let step = Self::pan_step(pre.last_detail_width as int);
                let raw = pre.detail_horiz_offset as int + step;
                let x = if raw <= usize::MAX as int {
                    raw
                } else {
                    usize::MAX as int
                };
                post == (App {
                    detail_horiz_offset: Self::clamped_detail_offset(pre, x) as usize,
                    ..pre
                })
            }),
            KeyInput::Char('0') => post == (App { detail_horiz_offset: 0, ..pre }),
            KeyInput::Char('$') => if pre.detail_max_line_width > pre.last_detail_width {
                post == (App {
                    detail_horiz_offset: Self::clamped_detail_offset(
                        pre,
                        pre.detail_max_line_width as int - pre.last_detail_width as int,
                    ) as usize,
                    ..pre
                })
            } else {
                post == (App { detail_horiz_offset: 0, ..pre })
            },
            KeyInput::Char('c') => Self::open_column_select_post(pre, post),
            KeyInput::Char('j') | KeyInput::Down => Self::detail_down_post(pre, post, 1),
            KeyInput::Char('k') | KeyInput::Up => Self::detail_up_post(pre, post, 1),
            KeyInput::Char('/') => Self::open_filter_input_post(pre, post),
            KeyInput::Ctrl('d') => Self::detail_down_post(pre, post, pre.spec_detail_half()),
            KeyInput::Ctrl('u') => Self::detail_up_post(pre, post, pre.spec_detail_half()),
            KeyInput::Char('w') => post == (App {
                detail_wrap: !pre.detail_wrap,
                detail_scroll: 0,
                detail_horiz_offset: 0,
                force_redraw: true,
                ..pre
            }),
            KeyInput::Char('g') => post == (App {
                detail_scroll: 0,
                detail_horiz_offset: 0,
                ..pre
            }),
            KeyInput::Char('G') => Self::detail_bottom_post(pre, post),
            KeyInput::Tab | KeyInput::Esc | KeyInput::Left => post == (App {
                focus: Focus::List,
                ..pre
            }),
            _ => post == pre,
        }
    }

    /// What one key press does to the whole engine: quitting and the editor
    /// chord leave the state alone, the global chords move the selection or
    /// the modes, and everything else falls to the mode the operator is in.
    pub open spec fn handle_key_post(pre: App, post: App, key: KeyInput) -> bool {
        let infv = pre.input_mode is FieldView;
        if key == KeyInput::Char('q') || key == KeyInput::Ctrl('c') {
            post == pre
        } else if infv && (key == KeyInput::Ctrl('j') || key == KeyInput::Ctrl('n')) {
            Self::move_field_selection_post(pre, post, 1)
        } else if infv && (key == KeyInput::Ctrl('k') || key == KeyInput::Ctrl('p')) {
            Self::move_field_selection_post(pre, post, -1)
        } else if key == KeyInput::Ctrl('n') {
            Self::step_post(pre, pre.next_target(), post)
        } else if key == KeyInput::Ctrl('p') {
            Self::step_post(pre, pre.prev_target(), post)
        } else if key == KeyInput::Ctrl('t') {
            Self::enter_field_view_post(pre, post)
        } else if key == KeyInput::Ctrl('z') {
            if infv {
                post == (App {
                    field_zoom: (match pre.field_zoom {
                        None => Some(crate::field_view::FieldZoom::Detail),
                        Some(_) => None::<crate::field_view::FieldZoom>,
                    }),
                    ..pre
                })
            } else {
                post == (App {
                    zoom: (match pre.zoom {
                        Some(Focus::List) => None::<Focus>,
                        _ => Some(pre.focus),
                    }),
                    ..pre
                })
            }
        } else if key == KeyInput::Ctrl('e') {
            post == pre
        } else if !infv && key == KeyInput::Char('z') {
            post == (App {
                zoom: (match pre.zoom {
                    Some(Focus::List) => if pre.focus is List {
                        None::<Focus>
                    } else {
                        Some(pre.focus)
                    },
                    Some(Focus::Detail) => if pre.focus is Detail {
                        None::<Focus>
                    } else {
                        Some(pre.focus)
                    },
                    None => Some(pre.focus),
                }),
                ..pre
            })
        } else if infv {
            Self::field_view_key_post(pre, post, key)
        } else if pre.input_mode is FilterInput {
            Self::filter_input_key_post(pre, post, key)
        } else if key == KeyInput::Char('?') {
            post == (App { show_help: !pre.show_help, ..pre })
        } else if pre.show_help {
            if key == KeyInput::Esc {
                post == (App { show_help: false, ..pre })
            } else {
                post == pre
            }
        } else if pre.input_mode is ColumnSelect {
            Self::column_select_key_post(pre, post, key)
        } else {
            match pre.focus {
                Focus::List => Self::list_key_post(pre, post, key),
                Focus::Detail => Self::detail_key_post(pre, post, key),
            }
        }
    }

    /// Dispatches one key press in field-explorer mode (after the global
    /// chords have been handled).
    fn handle_field_view_key(&mut self, key: KeyInput) -> (r: KeyAction)
        requires
            old(self).wf(),
            old(self).input_mode == InputMode::FieldView,
        ensures
            final(self).wf(),
            !(r is Quit),
            !(r is OpenEditor),
            Self::field_view_key_post(*old(self), *final(self), key),
    {
        let ghost pre = *old(self);
        if matches!(key, KeyInput::Esc) {
            self.exit_field_view();
            return KeyAction::Idle;
        }
        if matches!(key, KeyInput::Char('/')) {
            let selected = match &self.field_view {
                Some(fv) => match fv.selected_field() {
                    Some(f) => Some(f.clone()),
                    None => None,
                },
                None => None,
            };
            if let Some(field) = selected {
                self.move_field_value_to_filter(&field);
            }
            return KeyAction::Idle;
        }
        if self.field_view.is_none() {
            return KeyAction::Idle;
        }
        match key {
            KeyInput::Char('w') => {
                self.field_detail_wrap = !self.field_detail_wrap;
                self.reset_field_detail_position();
                self.force_redraw = true;
                proof {
                    crate::state::lemma_filtered_wf_same(pre, *self);
                }
            },
            KeyInput::Char('h') => {
                if !self.field_detail_wrap {
                    let step = if self.last_field_detail_width / 4 >= 4 {
                        self.last_field_detail_width / 4
                    } else {
                        4
                    };
                    self.field_detail_horiz_offset = self.field_detail_horiz_offset.saturating_sub(
                        step,
                    );
                    self.clamp_field_detail_horiz_offset();
                    proof {
                        crate::state::lemma_filtered_wf_same(pre, *self);
                    }
                }
            },
            KeyInput::Char('l') => {
                if !self.field_detail_wrap {
                    let step = if self.last_field_detail_width / 4 >= 4 {
                        self.last_field_detail_width / 4
                    } else {
                        4
                    };
                    self.field_detail_horiz_offset = self.field_detail_horiz_offset.saturating_add(
                        step,
                    );
                    self.clamp_field_detail_horiz_offset();
                    proof {
                        crate::state::lemma_filtered_wf_same(pre, *self);
                    }
                }
            },
            KeyInput::Char('0') => {
                if !self.field_detail_wrap {
                    self.field_detail_horiz_offset = 0;
                    proof {
                        crate::state::lemma_filtered_wf_same(pre, *self);
                    }
                }
            },
            KeyInput::Char('$') => {
                if !self.field_detail_wrap && self.field_detail_max_line_width
                    > self.last_field_detail_width {
                    self.field_detail_horiz_offset = self.field_detail_max_line_width
                        - self.last_field_detail_width;
                    self.clamp_field_detail_horiz_offset();
                    proof {
                        crate::state::lemma_filtered_wf_same(pre, *self);
                    }
                }
            },
            KeyInput::Backspace => {
                self.field_filter_backspace();
            },
            KeyInput::Ctrl('u') => {
                self.field_filter_clear();
            },
            KeyInput::Char(c) => {
                self.field_filter_push(c);
            },
            KeyInput::Down => {
                self.move_field_selection(1);
            },
            KeyInput::Up => {
                self.move_field_selection(-1);
            },
            KeyInput::Ctrl('d') => {
                if matches!(self.field_zoom, Some(_)) {
                    self.field_detail_half_down();
                } else {
                    self.move_field_half_page(true);
                }
            },
            _ => {},
        }
        KeyAction::Idle
    }

    /// What an explorer filter edit does once the new text is fixed: the
    /// rows are refiltered (node-keeping), and a moved cursor resets the
    /// explorer's detail pane and forces a redraw.
    pub open spec fn field_refilter_core(
        pre: App,
        post: App,
        fv: crate::field_view::FieldViewState,
        new_filter: Seq<char>,
    ) -> bool {
        match post.field_view {
            Some(fv2) => {
                &&& fv2.filter@ == new_filter
                &&& crate::field_view::FieldViewState::rebuild_post(
                    crate::field_view::FieldViewState { filter: fv2.filter, ..fv },
                    fv2,
                )
                &&& (if fv.list_state.selected != fv2.list_state.selected {
                    post == (App {
                        field_view: post.field_view,
                        field_detail_scroll: 0,
                        field_detail_horiz_offset: 0,
                        force_redraw: true,
                        ..pre
                    })
                } else {
                    post == (App { field_view: post.field_view, ..pre })
                })
            },
            None => false,
        }
    }

    /// What removing the last filter character does: nothing on an empty
    /// filter or without an explorer, else a refiltering under the shortened
    /// text.
    pub open spec fn field_backspace_post(pre: App, post: App) -> bool {
        match pre.field_view {
            Some(fv) => if fv.filter@.len() == 0 {
                post == pre
            } else {
                Self::field_refilter_core(pre, post, fv, fv.filter@.drop_last())
            },
            None => post == pre,
        }
    }

    /// What clearing the filter does: nothing on an empty filter or without
    /// an explorer, else a refiltering under the empty text.
    pub open spec fn field_clear_post(pre: App, post: App) -> bool {
        match pre.field_view {
            Some(fv) => if fv.filter@.len() == 0 {
                post == pre
            } else {
                Self::field_refilter_core(pre, post, fv, Seq::empty())
            },
            None => post == pre,
        }
    }

    /// What typing one filter character does: nothing without an explorer,
    /// else a refiltering under the extended text.
    pub open spec fn field_push_post(pre: App, post: App, c: char) -> bool {
        match pre.field_view {
            Some(fv) => Self::field_refilter_core(pre, post, fv, fv.filter@.push(c)),
            None => post == pre,
        }
    }

    /// Removes the last character of the explorer's filter, as
    /// `field_backspace_post` says.
    fn field_filter_backspace(&mut self)
        requires
            old(self).wf(),
        ensures
            final(self).wf(),
            Self::field_backspace_post(*old(self), *final(self)),
    {
        let ghost pre = *old(self);
        let mut changed = false;
        match &mut self.field_view {
            Some(fv) => {
                if fv.filter.as_str().unicode_len() > 0 {
                    pop_char(&mut fv.filter);
                    changed = fv.rebuild_filter();
                }
            },
            None => {},
        }
        if changed {
            self.reset_field_detail_position();
            self.force_redraw = true;
        }
        proof {
            crate::state::lemma_filtered_wf_same(pre, *self);
        }
    }

    /// Clears the explorer's filter, as `field_clear_post` says.
    fn field_filter_clear(&mut self)
        requires
            old(self).wf(),
        ensures
            final(self).wf(),
            Self::field_clear_post(*old(self), *final(self)),
    {
        let ghost pre = *old(self);
        let mut changed = false;
        match &mut self.field_view {
            Some(fv) => {
                if fv.filter.as_str().unicode_len() > 0 {
                    fv.filter = String::new();
                    changed = fv.rebuild_filter();
                }
            },
            None => {},
        }
        if changed {
            self.reset_field_detail_position();
            self.force_redraw = true;
        }
        proof {
            crate::state::lemma_filtered_wf_same(pre, *self);
        }
    }

    /// Appends one character to the explorer's filter, as `field_push_post`
    /// says.
    fn field_filter_push(&mut self, c: char)
        requires
            old(self).wf(),
        ensures
            final(self).wf(),
            Self::field_push_post(*old(self), *final(self), c),
    {
        let ghost pre = *old(self);
        let mut changed = false;
        match &mut self.field_view {
            Some(fv) => {
                push_char(&mut fv.filter, c);
                changed = fv.rebuild_filter();
            },
            None => {},
        }
        if changed {
            self.reset_field_detail_position();
            self.force_redraw = true;
        }
        proof {
            crate::state::lemma_filtered_wf_same(pre, *self);
        }
    }

    /// The field detail pane's half-page step: half its last seen height, at
    /// least one line.
    pub open spec fn spec_field_detail_half(self) -> int {
        let h = if self.last_field_detail_height >= 1 {
            self.last_field_detail_height as int
        } else {
            1int
        };
        if h / 2 >= 1 {
            h / 2
        } else {
            1int
        }
    }

    /// What scrolling the zoomed field detail pane half a page down does: it
    /// stops at the last window (and at the pane counter's own ceiling).
    pub open spec fn field_half_down_post(pre: App, post: App) -> bool {
        let cap = {
            let m = Self::spec_detail_max(
                pre.field_detail_total_lines as int,
                pre.last_field_detail_height as int,
            );
            if m <= u16::MAX as int {
                m
            } else {
                u16::MAX as int
            }
        };
        let target = if pre.field_detail_scroll as int + pre.spec_field_detail_half() <= cap {
            pre.field_detail_scroll as int + pre.spec_field_detail_half()
        } else {
            cap
        };
        post == (App { field_detail_scroll: target as u16, ..pre })
    }

    /// Scrolls the zoomed field detail pane half a page down, as
    /// `field_half_down_post` says.
    fn field_detail_half_down(&mut self)
        requires
            old(self).wf(),
        ensures
            final(self).wf(),
            Self::field_half_down_post(*old(self), *final(self)),
    {
        let ghost pre = *old(self);
        let h = if self.last_field_detail_height >= 1 {
            self.last_field_detail_height
        } else {
            1
        };
        let half = if h / 2 >= 1 {
            h / 2
        } else {
            1
        };
        let max_offset = if self.field_detail_total_lines >= h {
            self.field_detail_total_lines - h
        } else {
            0
        };
        let cap: u16 = if max_offset <= u16::MAX as usize {
            max_offset as u16
        } else {
            u16::MAX
        };
        let base = self.field_detail_scroll as usize;
        self.field_detail_scroll = if half <= cap as usize && base + half <= cap as usize {
            (base + half) as u16
        } else {
            cap
        };
        proof {
            crate::state::lemma_filtered_wf_same(pre, *self);
        }
    }

    /// Dispatches one key press in filter-entry mode.
    fn handle_filter_input_key(&mut self, key: KeyInput)
        requires
            old(self).wf(),
            old(self).input_mode == InputMode::FilterInput,
        ensures
            final(self).wf(),
            Self::filter_input_key_post(*old(self), *final(self), key),
    {
        let ghost pre = *old(self);
        match key {
            KeyInput::Esc => {
                self.input_mode = InputMode::Normal;
                self.filter_buffer = String::new();
                self.filter_error = None;
                proof {
                    crate::state::lemma_filtered_wf_same(pre, *self);
                }
            },
            KeyInput::Enter => {
                let pattern = self.filter_buffer.clone();
                self.input_mode = InputMode::Normal;
                proof {
                    crate::state::lemma_filtered_wf_same(pre, *self);
                }
                self.apply_filter(pattern.as_str());
            },
            KeyInput::Backspace => {
                pop_char(&mut self.filter_buffer);
                proof {
                    crate::state::lemma_filtered_wf_same(pre, *self);
                }
            },
            KeyInput::Ctrl('u') => {
                self.filter_buffer = String::new();
                proof {
                    crate::state::lemma_filtered_wf_same(pre, *self);
                }
            },
            KeyInput::Char(c) => {
                push_char(&mut self.filter_buffer, c);
                proof {
                    crate::state::lemma_filtered_wf_same(pre, *self);
                }
            },
            _ => {},
        }
    }

    /// Dispatches one key press in the column selector.
    fn handle_column_select_key(&mut self, key: KeyInput)
        requires
            old(self).wf(),
            old(self).input_mode == InputMode::ColumnSelect,
        ensures
            final(self).wf(),
            Self::column_select_key_post(*old(self), *final(self), key),
    {
        let ghost pre = *old(self);
        match key {
            KeyInput::Esc | KeyInput::Char('c') => {
                self.input_mode = InputMode::Normal;
                proof {
                    crate::state::lemma_filtered_wf_same(pre, *self);
                }
            },
            KeyInput::Char(' ') | KeyInput::Enter => {
                self.toggle_column();
            },
            KeyInput::Char('J') => {
                self.move_column(1);
            },
            KeyInput::Char('K') => {
                self.move_column(-1);
            },
            KeyInput::Down | KeyInput::Char('j') => {
                self.column_cursor_down();
            },
            KeyInput::Up | KeyInput::Char('k') => {
                self.column_cursor_up();
            },
            KeyInput::Char('g') => {
                self.column_select_state.select(Some(0));
                proof {
                    crate::state::lemma_filtered_wf_same(pre, *self);
                }
            },
            KeyInput::Char('G') => {
                if self.columns.len() > 0 {
                    let last = self.columns.len() - 1;
                    self.column_select_state.select(Some(last));
                }
                proof {
                    crate::state::lemma_filtered_wf_same(pre, *self);
                }
            },
            _ => {},
        }
    }

    /// Dispatches one key press while the list pane has focus.
    #[verifier::rlimit(100)]
    #[verifier::spinoff_prover]
    fn handle_list_key(&mut self, key: KeyInput)
        requires
            old(self).wf(),
        ensures
            final(self).wf(),
            Self::list_key_post(*old(self), *final(self), key),
    {
        let ghost pre = *old(self);
        match key {
            KeyInput::Ctrl('l') => {
                self.force_redraw = true;
                proof {
                    crate::state::lemma_filtered_wf_same(pre, *self);
                }
            },
            KeyInput::Char('j') | KeyInput::Down => {
                self.next();
            },
            KeyInput::Char('k') | KeyInput::Up => {
                self.previous();
            },
            KeyInput::Char('h') => {
                let step = if self.last_list_width / 4 >= 4 {
                    self.last_list_width / 4
                } else {
                    4
                };
                self.horiz_offset = self.horiz_offset.saturating_sub(step);
                self.clamp_offset();
                proof {
                    crate::state::lemma_filtered_wf_same(pre, *self);
                }
            },
            KeyInput::Char('l') => {
                let step = if self.last_list_width / 4 >= 4 {
                    self.last_list_width / 4
                } else {
                    4
                };
                self.horiz_offset = self.horiz_offset.saturating_add(step);
                self.clamp_offset();
                proof {
                    crate::state::lemma_filtered_wf_same(pre, *self);
                }
            },
            KeyInput::Char('0') => {
                self.horiz_offset = 0;
                proof {
                    crate::state::lemma_filtered_wf_same(pre, *self);
                }
            },
            KeyInput::Char('$') => {
                if self.max_row_width > self.last_list_width {
                    self.horiz_offset = self.max_row_width - self.last_list_width;
                } else {
                    self.horiz_offset = 0;
                }
                self.clamp_offset();
                proof {
                    crate::state::lemma_filtered_wf_same(pre, *self);
                }
            },
            KeyInput::Char('c') => {
                self.open_column_select();
            },
            KeyInput::Char('a') => {
                self.toggle_autoscroll();
            },
            KeyInput::Char('/') => {
                self.open_filter_input();
            },
            KeyInput::Char('w') => {
                self.detail_wrap = !self.detail_wrap;
                self.reset_detail_position();
                self.force_redraw = true;
                proof {
                    crate::state::lemma_filtered_wf_same(pre, *self);
                }
            },
            KeyInput::Char('g') => {
                self.select_first();
            },
            KeyInput::Char('G') => {
                self.select_last();
            },
            KeyInput::Ctrl('d') => {
                self.page_down();
            },
            KeyInput::Ctrl('u') => {
                self.page_up();
            },
            KeyInput::Enter | KeyInput::Tab | KeyInput::Right => {
                self.focus = Focus::Detail;
                proof {
                    crate::state::lemma_filtered_wf_same(pre, *self);
                }
            },
            _ => {},
        }
    }

    /// Dispatches one key press while the detail pane has focus.
    #[verifier::rlimit(100)]
    #[verifier::spinoff_prover]
    fn handle_detail_key(&mut self, key: KeyInput)
        requires
            old(self).wf(),
        ensures
            final(self).wf(),
            Self::detail_key_post(*old(self), *final(self), key),
    {
        let ghost pre = *old(self);
        match key {
            KeyInput::Ctrl('l') => {
                self.force_redraw = true;
                proof {
                    crate::state::lemma_filtered_wf_same(pre, *self);
                }
            },
            KeyInput::Char('h') => {
                let step = if self.last_detail_width / 4 >= 4 {
                    self.last_detail_width / 4
                } else {
                    4
                };
                self.detail_horiz_offset = self.detail_horiz_offset.saturating_sub(step);
                self.clamp_detail_horiz_offset();
                proof {
                    crate::state::lemma_filtered_wf_same(pre, *self);
                }
            },
            KeyInput::Char('l') => {
                let step = if self.last_detail_width / 4 >= 4 {
                    self.last_detail_width / 4
                } else {
                    4
                };
                self.detail_horiz_offset = self.detail_horiz_offset.saturating_add(step);
                self.clamp_detail_horiz_offset();
                proof {
                    crate::state::lemma_filtered_wf_same(pre, *self);
                }
            },
            KeyInput::Char('0') => {
                self.detail_horiz_offset = 0;
                proof {
                    crate::state::lemma_filtered_wf_same(pre, *self);
                }
            },
            KeyInput::Char('$') => {
                if self.detail_max_line_width > self.last_detail_width {
                    self.detail_horiz_offset = self.detail_max_line_width
                        - self.last_detail_width;
                    self.clamp_detail_horiz_offset();
                } else {
                    self.detail_horiz_offset = 0;
                }
                proof {
                    crate::state::lemma_filtered_wf_same(pre, *self);
                }
            },
            KeyInput::Char('c') => {
                self.open_column_select();
            },
            KeyInput::Char('j') | KeyInput::Down => {
                self.detail_down(1);
                proof {
                    crate::state::lemma_filtered_wf_same(pre, *self);
                }
            },
            KeyInput::Char('k') | KeyInput::Up => {
                self.detail_up(1);
                proof {
                    crate::state::lemma_filtered_wf_same(pre, *self);
                }
            },
            KeyInput::Char('/') => {
                self.open_filter_input();
            },
            KeyInput::Ctrl('d') => {
                let h = if self.last_detail_height >= 1 {
                    self.last_detail_height
                } else {
                    1
                };
                let half = if h / 2 >= 1 {
                    h / 2
                } else {
                    1
                };
                self.detail_down(half);
                proof {
                    crate::state::lemma_filtered_wf_same(pre, *self);
                }
            },
            KeyInput::Ctrl('u') => {
                let h = if self.last_detail_height >= 1 {
                    self.last_detail_height
                } else {
                    1
                };
                let half = if h / 2 >= 1 {
                    h / 2
                } else {
                    1
                };
                self.detail_up(half);
                proof {
                    crate::state::lemma_filtered_wf_same(pre, *self);
                }
            },
            KeyInput::Char('w') => {
                self.detail_wrap = !self.detail_wrap;
                self.reset_detail_position();
                self.force_redraw = true;
                proof {
                    crate::state::lemma_filtered_wf_same(pre, *self);
                }
            },
            KeyInput::Char('g') => {
                self.detail_top();
                proof {
                    crate::state::lemma_filtered_wf_same(pre, *self);
                }
            },
            KeyInput::Char('G') => {
                self.detail_bottom();
                proof {
                    crate::state::lemma_filtered_wf_same(pre, *self);
                }
            },
            KeyInput::Tab | KeyInput::Esc | KeyInput::Left => {
                self.focus = Focus::List;
                proof {
                    crate::state::lemma_filtered_wf_same(pre, *self);
                }
            },
            _ => {},
        }
    }

    /// Dispatches one key press: quitting, the global control chords, then
    /// the mode the operator is in.
    pub fn handle_key(&mut self, key: KeyInput) -> (r: KeyAction)
        requires
            old(self).wf(),
        ensures
            final(self).wf(),
            (r is Quit) <==> (key == KeyInput::Char('q') || key == KeyInput::Ctrl('c')),
            r is OpenEditor ==> key == KeyInput::Ctrl('e'),
            Self::handle_key_post(*old(self), *final(self), key),
            (key == KeyInput::Ctrl('e') && !(key == KeyInput::Char('q') || key
                == KeyInput::Ctrl('c'))) ==> (match r {
                KeyAction::OpenEditor(req) => if old(self).input_mode is FieldView {
                    match old(self).spec_selected_field() {
                        Some(f) => {
                            &&& req.content@ == crate::editor::spec_field_export(f.value@)
                            &&& (crate::editor::sanitized(f.path@).len() == 0 ==> req.filename@
                                == crate::editor::field_stem() + seq!['.', 't', 'x', 't'])
                            &&& (crate::editor::sanitized(f.path@).len() > 0 ==> req.filename@
                                == crate::editor::field_stem() + seq!['-']
                                + crate::editor::sanitized(f.path@) + seq!['.', 't', 'x', 't'])
                        },
                        None => false,
                    }
                } else {
                    match old(self).spec_selected_entry() {
                        Some(idx) => {
                            &&& idx < old(self).entries@.len()
                            &&& req.content@ == crate::json::json_pretty(
                                old(self).entries@[idx as int].raw@,
                                0,
                            )
                            &&& req.filename@ == crate::editor::entry_stem()
                                + crate::editor::sanitized(old(self).entries@[idx as int].timestamp@)
                                + seq!['.', 'j', 's', 'o', 'n']
                        },
                        None => false,
                    }
                },
                KeyAction::Idle => if old(self).input_mode is FieldView {
                    old(self).spec_selected_field() is None
                } else {
                    match old(self).spec_selected_entry() {
                        Some(idx) => idx >= old(self).entries@.len(),
                        None => true,
                    }
                },
                KeyAction::Quit => false,
            }),
    {
        let ghost pre = *old(self);
        if matches!(key, KeyInput::Char('q')) || matches!(key, KeyInput::Ctrl('c')) {
            return KeyAction::Quit;
        }
        let in_field_view = matches!(self.input_mode, InputMode::FieldView);
        match key {
            KeyInput::Ctrl('j') => {
                if in_field_view {
                    self.move_field_selection(1);
                    return KeyAction::Idle;
                }
            },
            KeyInput::Ctrl('k') => {
                if in_field_view {
                    self.move_field_selection(-1);
                    return KeyAction::Idle;
                }
            },
            KeyInput::Ctrl('n') => {
                if in_field_view {
                    self.move_field_selection(1);
                } else {
                    self.next();
                }
                return KeyAction::Idle;
            },
            KeyInput::Ctrl('p') => {
                if in_field_view {
                    self.move_field_selection(-1);
                } else {
                    self.previous();
                }
                return KeyAction::Idle;
            },
            KeyInput::Ctrl('t') => {
                self.enter_field_view();
                return KeyAction::Idle;
            },
            KeyInput::Ctrl('z') => {
                if in_field_view {
                    self.cycle_field_zoom();
                } else {
                    self.zoom = match self.zoom {
                        Some(Focus::List) => None,
                        _ => Some(self.focus),
                    };
                }
                proof {
                    crate::state::lemma_filtered_wf_same(pre, *self);
                }
                return KeyAction::Idle;
            },
            KeyInput::Ctrl('e') => {
                if in_field_view {
                    let selected = match &self.field_view {
                        Some(fv) => match fv.selected_field() {
                            Some(f) => Some(f.clone()),
                            None => None,
                        },
                        None => None,
                    };
                    if let Some(field) = selected {
                        return KeyAction::OpenEditor(value_editor_payload(&field));
                    }
                } else {
                    match self.current_entry() {
                        Some(entry) => {
                            return KeyAction::OpenEditor(entry_editor_payload(entry));
                        },
                        None => {},
                    }
                }
                return KeyAction::Idle;
            },
            _ => {},
        }
        if matches!(key, KeyInput::Char('z')) && !in_field_view {
            self.zoom = match self.zoom {
                Some(Focus::List) => if matches!(self.focus, Focus::List) {
                    None
                } else {
                    Some(self.focus)
                },
                Some(Focus::Detail) => if matches!(self.focus, Focus::Detail) {
                    None
                } else {
                    Some(self.focus)
                },
                None => Some(self.focus),
            };
            proof {
                crate::state::lemma_filtered_wf_same(pre, *self);
            }
            return KeyAction::Idle;
        }
        if in_field_view {
            return self.handle_field_view_key(key);
        }
        if matches!(self.input_mode, InputMode::FilterInput) {
            self.handle_filter_input_key(key);
            return KeyAction::Idle;
        }
        if matches!(key, KeyInput::Char('?')) {
            self.show_help = !self.show_help;
            proof {
                crate::state::lemma_filtered_wf_same(pre, *self);
            }
            return KeyAction::Idle;
        }
        if self.show_help {
            match key {
                KeyInput::Esc => {
                    self.show_help = false;
                    proof {
                        crate::state::lemma_filtered_wf_same(pre, *self);
                    }
                },
                _ => {},
            }
            return KeyAction::Idle;
        }
        if matches!(self.input_mode, InputMode::ColumnSelect) {
            self.handle_column_select_key(key);
            return KeyAction::Idle;
        }
        match self.focus {
            Focus::List => {
                self.handle_list_key(key);
            },
            Focus::Detail => {
                self.handle_detail_key(key);
            },
        }
        KeyAction::Idle
    }
}

/// The same column with its visibility flipped.
fn flipped_column(c: &ColumnDef) -> (r: ColumnDef)
    ensures
        col_view(r) == (c.name@, c.path.deep_view(), !c.enabled),
{
    let r = ColumnDef { name: c.name.clone(), path: c.path.clone(), enabled: !c.enabled };
    proof {
        assert(r.path.deep_view() =~= c.path.deep_view());
    }
    r
}

} // verus!
