//! The query page's navigation state machine: focus, query-buffer editing
//! at a character-addressed cursor, result browsing with clamped cursors,
//! and explorer browsing over the flattened schema tree.
//!
//! Every key event goes through one transition function, `handle_event`,
//! whose contract equates the new state with the mathematical `step`
//! function over the page's model.

use vstd::prelude::*;
use vstd::string::*;
use crate::grid::ResultGrid;
use crate::schema::{
    after_expansion, flat_count, flat_count_checked, finish_expansion, collapse_node,
    expand_cached, spec_toggle_step, toggle_step, with_expanded, TableInfo, TableModel, ToggleStep,
};
use crate::text::{chars_to_string, is_space, is_space_char, lemma_trim_all_space,
    lemma_trim_nonempty, str_to_chars, trim_spec};

verus! {

/// Which pane of the query page has the focus.
#[derive(Clone, Copy, Debug, PartialEq, Eq, Structural)]
pub enum Focus {
    Query,
    Results,
    Explorer,
}

/// The top-level pages of the client.
#[derive(Clone, Copy, Debug, PartialEq, Eq, Structural)]
pub enum AppState {
    ConnectionList,
    NewConnection,
    QueryPage,
}

/// What the query page asks its caller to do.
#[derive(Clone, Copy, Debug, PartialEq, Eq, Structural)]
pub enum QueryPageAction {
    Back,
    OpenHistory,
}

/// One key event of the query page, already decoded from the terminal.
#[derive(Clone, Copy, Debug, PartialEq, Eq, Structural)]
pub enum PageEvent {
    Escape,
    CycleFocus,
    Execute,
    ClearQuery,
    Up,
    Down,
    Left,
    Right,
    PageUp,
    PageDown,
    Top,
    Bottom,
    Char(char),
    Backspace,
    Delete,
    Enter,
    FocusQuery,
    FocusExplorer,
}

/// What the caller must do after a transition: nothing, leave the page,
/// run the submitted query, or fetch the columns of one table.
#[derive(Clone, Copy, Debug, PartialEq, Eq, Structural)]
pub enum PageCommand {
    Nothing,
    Back,
    RunQuery,
    LoadColumns(usize),
}

/// The query page's state: the query buffer and its cursor, the current
/// result grid, the error line, the focus, the result cursors and row cap,
/// the row-cap input overlay, and the schema tree with its selection.
pub struct QueryPage {
    pub query: Vec<char>,
    pub cursor_position: usize,
    pub headers: Vec<String>,
    pub results: Vec<Vec<String>>,
    pub error: Option<String>,
    pub focus: Focus,
    pub query_scroll: u16,
    pub selected_row: usize,
    pub horizontal_scroll: usize,
    pub max_results: u32,
    pub input_buffer: Vec<char>,
    pub show_input_overlay: bool,
    pub tables: Vec<TableInfo>,
    pub explorer_selected: usize,
}

/// The mathematical state of the query page.
#[verifier::ext_equal]
pub struct PageModel {
    pub query: Seq<char>,
    pub cursor: int,
    pub headers: Seq<Seq<char>>,
    pub results: Seq<Seq<Seq<char>>>,
    pub error: Option<Seq<char>>,
    pub focus: Focus,
    pub query_scroll: int,
    pub selected_row: int,
    pub horizontal_scroll: int,
    pub max_results: int,
    pub input_buffer: Seq<char>,
    pub show_input_overlay: bool,
    pub tables: Seq<TableModel>,
    pub explorer_selected: int,
}

impl View for QueryPage {
    type V = PageModel;

    open spec fn view(&self) -> PageModel {
        PageModel {
            query: self.query@,
            cursor: self.cursor_position as int,
            headers: self.headers.deep_view(),
            results: self.results.deep_view(),
            error: match self.error {
                Some(e) => Some(e@),
                None => None,
            },
            focus: self.focus,
            query_scroll: self.query_scroll as int,
            selected_row: self.selected_row as int,
            horizontal_scroll: self.horizontal_scroll as int,
            max_results: self.max_results as int,
            input_buffer: self.input_buffer@,
            show_input_overlay: self.show_input_overlay,
            tables: self.tables.deep_view(),
            explorer_selected: self.explorer_selected as int,
        }
    }
}

/// The larger of one and `x`.
pub open spec fn at_least_one(x: int) -> int {
    if x < 1 {
        1
    } else {
        x
    }
}

/// How many result rows are shown: the row cap when one is set and the
/// grid is larger, else the whole grid.
pub open spec fn visible_rows(m: PageModel) -> int {
    if m.max_results > 0 && m.max_results < m.results.len() {
        m.max_results
    } else {
        m.results.len() as int
    }
}

/// The page invariant: the query cursor stays inside the buffer, the
/// result cursor inside the visible rows, and the column offset inside the
/// headers.
pub open spec fn wf_model(m: PageModel) -> bool {
    m.cursor <= m.query.len() && m.selected_row < at_least_one(visible_rows(m))
        && m.horizontal_scroll < at_least_one(m.headers.len() as int)
}

/// One row up, stopping at the top.
pub open spec fn spec_scroll_up(sel: int) -> int {
    if sel > 0 {
        sel - 1
    } else {
        0
    }
}

/// One row down, stopping at the last visible row.
pub open spec fn spec_scroll_down(sel: int, visible: int) -> int {
    if sel < visible - 1 {
        sel + 1
    } else {
        sel
    }
}

/// Ten rows up, stopping at the top.
pub open spec fn spec_page_up(sel: int) -> int {
    if sel >= 10 {
        sel - 10
    } else {
        0
    }
}

/// Ten rows down, stopping at the last visible row.
pub open spec fn spec_page_down(sel: int, visible: int) -> int {
    let floor = if visible - 1 < 0 {
        0int
    } else {
        visible - 1
    };
    if sel + 10 < floor {
        sel + 10
    } else {
        floor
    }
}

/// The flattened explorer size as the machine sees it, saturated at the
/// machine's limit.
pub open spec fn explorer_total(m: PageModel) -> int {
    if flat_count(m.tables) > usize::MAX {
        usize::MAX as int
    } else {
        flat_count(m.tables) as int
    }
}

/// The next page state and command for one key event.
pub open spec fn step(m: PageModel, ev: PageEvent) -> (PageModel, PageCommand) {
    match ev {
        PageEvent::Escape => (m, PageCommand::Back),
        PageEvent::CycleFocus => (
            PageModel {
                focus: match m.focus {
                    Focus::Query => if m.results.len() > 0 {
                        Focus::Results
                    } else {
                        Focus::Query
                    },
                    Focus::Results => Focus::Query,
                    Focus::Explorer => Focus::Query,
                },
                ..m
            },
            PageCommand::Nothing,
        ),
        PageEvent::Execute => if trim_spec(m.query).len() == 0 {
            (
                PageModel {
                    error: Some("Query is empty"@),
                    headers: Seq::empty(),
                    results: Seq::empty(),
                    selected_row: 0,
                    horizontal_scroll: 0,
                    ..m
                },
                PageCommand::Nothing,
            )
        } else {
            (
                PageModel {
                    error: None,
                    headers: Seq::empty(),
                    results: Seq::empty(),
                    selected_row: 0,
                    horizontal_scroll: 0,
                    ..m
                },
                PageCommand::RunQuery,
            )
        },
        PageEvent::ClearQuery => if m.focus is Query {
            (PageModel { query: Seq::empty(), cursor: 0, query_scroll: 0, ..m }, PageCommand::Nothing)
        } else {
            (m, PageCommand::Nothing)
        },
        PageEvent::Up => match m.focus {
            Focus::Results => (
                PageModel { selected_row: spec_scroll_up(m.selected_row), ..m },
                PageCommand::Nothing,
            ),
            Focus::Explorer => (
                PageModel { explorer_selected: spec_scroll_up(m.explorer_selected), ..m },
                PageCommand::Nothing,
            ),
            Focus::Query => (m, PageCommand::Nothing),
        },
        PageEvent::Down => match m.focus {
            Focus::Results => (
                PageModel { selected_row: spec_scroll_down(m.selected_row, visible_rows(m)), ..m },
                PageCommand::Nothing,
            ),
            Focus::Explorer => (
                PageModel {
                    explorer_selected: spec_scroll_down(m.explorer_selected, explorer_total(m)),
                    ..m
                },
                PageCommand::Nothing,
            ),
            Focus::Query => (m, PageCommand::Nothing),
        },
        PageEvent::Left => match m.focus {
            Focus::Results => (
                PageModel { horizontal_scroll: spec_scroll_up(m.horizontal_scroll), ..m },
                PageCommand::Nothing,
            ),
            Focus::Query => (
                PageModel { cursor: spec_scroll_up(m.cursor), ..m },
                PageCommand::Nothing,
            ),
            Focus::Explorer => (m, PageCommand::Nothing),
        },
        PageEvent::Right => match m.focus {
            Focus::Results => (
                PageModel {
                    horizontal_scroll: if m.horizontal_scroll + 1 < m.headers.len() {
                        m.horizontal_scroll + 1
                    } else {
                        m.horizontal_scroll
                    },
                    ..m
                },
                PageCommand::Nothing,
            ),
            Focus::Query => (
                PageModel {
                    cursor: if m.cursor < m.query.len() {
                        m.cursor + 1
                    } else {
                        m.cursor
                    },
                    ..m
                },
                PageCommand::Nothing,
            ),
            Focus::Explorer => (m, PageCommand::Nothing),
        },
        PageEvent::PageUp => match m.focus {
            Focus::Results => (
                PageModel { selected_row: spec_page_up(m.selected_row), ..m },
                PageCommand::Nothing,
            ),
            Focus::Query => (PageModel { cursor: 0, ..m }, PageCommand::Nothing),
            Focus::Explorer => (m, PageCommand::Nothing),
        },
        PageEvent::PageDown => match m.focus {
            Focus::Results => (
                PageModel { selected_row: spec_page_down(m.selected_row, visible_rows(m)), ..m },
                PageCommand::Nothing,
            ),
            Focus::Query => (
                PageModel { cursor: m.query.len() as int, ..m },
                PageCommand::Nothing,
            ),
            Focus::Explorer => (m, PageCommand::Nothing),
        },
        PageEvent::Top => if m.focus is Results {
            (PageModel { selected_row: 0, ..m }, PageCommand::Nothing)
        } else {
            (m, PageCommand::Nothing)
        },
        PageEvent::Bottom => if m.focus is Results {
            (
                PageModel {
                    selected_row: if visible_rows(m) - 1 < 0 {
                        0int
                    } else {
                        visible_rows(m) - 1
                    },
                    ..m
                },
                PageCommand::Nothing,
            )
        } else {
            (m, PageCommand::Nothing)
        },
        PageEvent::Char(c) => if m.focus is Query {
            (
                PageModel { query: m.query.insert(m.cursor, c), cursor: m.cursor + 1, ..m },
                PageCommand::Nothing,
            )
        } else {
            (m, PageCommand::Nothing)
        },
        PageEvent::Backspace => if m.focus is Query && m.cursor > 0 {
            (
                PageModel { query: m.query.remove(m.cursor - 1), cursor: m.cursor - 1, ..m },
                PageCommand::Nothing,
            )
        } else {
            (m, PageCommand::Nothing)
        },
        PageEvent::Delete => if m.focus is Query && m.cursor < m.query.len() {
            (PageModel { query: m.query.remove(m.cursor), ..m }, PageCommand::Nothing)
        } else {
            (m, PageCommand::Nothing)
        },
        PageEvent::Enter => match m.focus {
            Focus::Query => (
                PageModel { query: m.query.insert(m.cursor, '\n'), cursor: m.cursor + 1, ..m },
                PageCommand::Nothing,
            ),
            Focus::Explorer => match spec_toggle_step(m.tables, m.explorer_selected) {
                ToggleStep::NoNode => (m, PageCommand::Nothing),
                ToggleStep::Collapse(k) => (
                    PageModel {
                        tables: m.tables.update(
                            k as int,
                            with_expanded(m.tables[k as int], false),
                        ),
                        ..m
                    },
                    PageCommand::Nothing,
                ),
                ToggleStep::ExpandCached(k) => (
                    PageModel {
                        tables: m.tables.update(k as int, with_expanded(m.tables[k as int], true)),
                        ..m
                    },
                    PageCommand::Nothing,
                ),
                ToggleStep::NeedColumns(k) => (m, PageCommand::LoadColumns(k)),
            },
            Focus::Results => (m, PageCommand::Nothing),
        },
        PageEvent::FocusQuery => (PageModel { focus: Focus::Query, ..m }, PageCommand::Nothing),
        PageEvent::FocusExplorer => (
            PageModel { focus: Focus::Explorer, ..m },
            PageCommand::Nothing,
        ),
    }
}

/// Every transition keeps the page invariant.
pub proof fn lemma_step_preserves_wf(m: PageModel, ev: PageEvent)
    requires
        wf_model(m),
    ensures
        wf_model(step(m, ev).0),
{
}

/// The fresh page: empty query, no results, no error, focus on the query
/// buffer, no row cap, no tables.
pub open spec fn init_model() -> PageModel {
    PageModel {
        query: Seq::empty(),
        cursor: 0,
        headers: Seq::empty(),
        results: Seq::empty(),
        error: None,
        focus: Focus::Query,
        query_scroll: 0,
        selected_row: 0,
        horizontal_scroll: 0,
        max_results: 0,
        input_buffer: Seq::empty(),
        show_input_overlay: false,
        tables: Seq::empty(),
        explorer_selected: 0,
    }
}

impl QueryPage {
    /// A fresh query page.
    pub fn new() -> (p: QueryPage)
        ensures
            p@ == init_model(),
            wf_model(p@),
    {
        let p = QueryPage {
            query: Vec::new(),
            cursor_position: 0,
            headers: Vec::new(),
            results: Vec::new(),
            error: None,
            focus: Focus::Query,
            query_scroll: 0,
            selected_row: 0,
            horizontal_scroll: 0,
            max_results: 0,
            input_buffer: Vec::new(),
            show_input_overlay: false,
            tables: Vec::new(),
            explorer_selected: 0,
        };
        proof {
            assert(p.headers.deep_view() =~= Seq::<Seq<char>>::empty());
            assert(p.results.deep_view() =~= Seq::<Seq<Seq<char>>>::empty());
            assert(p.tables.deep_view() =~= Seq::<TableModel>::empty());
            assert(p@ =~~= init_model());
        }
        p
    }

    /// Applies one key event and reports what the caller must do next.
    pub fn handle_event(&mut self, ev: PageEvent) -> (cmd: PageCommand)
        requires
            wf_model(old(self)@),
        ensures
            final(self)@ == step(old(self)@, ev).0,
            cmd == step(old(self)@, ev).1,
            wf_model(final(self)@),
    {
        proof {
            lemma_step_preserves_wf(old(self)@, ev);
        }
        match ev {
            PageEvent::Escape => {
                return PageCommand::Back;
            },
            PageEvent::CycleFocus => {
                self.focus = match self.focus {
                    Focus::Query => if self.results.len() > 0 {
                        Focus::Results
                    } else {
                        Focus::Query
                    },
                    Focus::Results => Focus::Query,
                    Focus::Explorer => Focus::Query,
                };
                proof {
                    assert(self@ =~~= step(old(self)@, ev).0);
                }
                return PageCommand::Nothing;
            },
            PageEvent::Execute => {
                self.error = None;
                self.headers = Vec::new();
                self.results = Vec::new();
                self.selected_row = 0;
                self.horizontal_scroll = 0;
                let blank = self.query_is_blank();
                proof {
                    assert(self.headers.deep_view() =~= Seq::<Seq<char>>::empty());
                    assert(self.results.deep_view() =~= Seq::<Seq<Seq<char>>>::empty());
                }
                if blank {
                    self.error = Some(String::new().concat("Query is empty"));
                    proof {
                        assert(Seq::<char>::empty() + "Query is empty"@ =~= "Query is empty"@);
                        assert(self@ =~~= step(old(self)@, ev).0);
                    }
                    return PageCommand::Nothing;
                } else {
                    proof {
                        assert(self@ =~~= step(old(self)@, ev).0);
                    }
                    return PageCommand::RunQuery;
                }
            },
            PageEvent::ClearQuery => {
                if let Focus::Query = self.focus {
                    self.query = Vec::new();
                    self.cursor_position = 0;
                    self.query_scroll = 0;
                }
                proof {
                    assert(self@ =~~= step(old(self)@, ev).0);
                }
                return PageCommand::Nothing;
            },
            PageEvent::Up => {
                match self.focus {
                    Focus::Results => {
                        if self.selected_row > 0 {
                            self.selected_row = self.selected_row - 1;
                        }
                    },
                    Focus::Explorer => {
                        if self.explorer_selected > 0 {
                            self.explorer_selected = self.explorer_selected - 1;
                        }
                    },
                    Focus::Query => {},
                }
                proof {
                    assert(self@ =~~= step(old(self)@, ev).0);
                }
                return PageCommand::Nothing;
            },
            PageEvent::Down => {
                match self.focus {
                    Focus::Results => {
                        let visible = self.visible_row_count();
                        if self.selected_row + 1 < visible {
                            self.selected_row = self.selected_row + 1;
                        }
                        proof {
                            assert(self.selected_row as int == spec_scroll_down(
                                old(self)@.selected_row,
                                visible_rows(old(self)@),
                            ));
                        }
                    },
                    Focus::Explorer => {
                        let total: usize = match flat_count_checked(&self.tables) {
                            Some(n) => n,
                            None => usize::MAX,
                        };
                        if total > 0 && self.explorer_selected < total - 1 {
                            self.explorer_selected = self.explorer_selected + 1;
                        }
                        proof {
                            assert(self.explorer_selected as int == spec_scroll_down(
                                old(self)@.explorer_selected,
                                explorer_total(old(self)@),
                            ));
                        }
                    },
                    Focus::Query => {},
                }
                proof {
                    assert(self@ =~~= step(old(self)@, ev).0);
                }
                return PageCommand::Nothing;
            },
            PageEvent::Left => {
                match self.focus {
                    Focus::Results => {
                        if self.horizontal_scroll > 0 {
                            self.horizontal_scroll = self.horizontal_scroll - 1;
                        }
                    },
                    Focus::Query => {
                        if self.cursor_position > 0 {
                            self.cursor_position = self.cursor_position - 1;
                        }
                    },
                    Focus::Explorer => {},
                }
                proof {
                    assert(self@ =~~= step(old(self)@, ev).0);
                }
                return PageCommand::Nothing;
            },
            PageEvent::Right => {
                match self.focus {
                    Focus::Results => {
                        let len = self.headers.len();
                        if len > 0 && self.horizontal_scroll < len - 1 {
                            self.horizontal_scroll = self.horizontal_scroll + 1;
                        }
                    },
                    Focus::Query => {
                        if self.cursor_position < self.query.len() {
                            self.cursor_position = self.cursor_position + 1;
                        }
                    },
                    Focus::Explorer => {},
                }
                proof {
                    assert(self@ =~~= step(old(self)@, ev).0);
                }
                return PageCommand::Nothing;
            },
            PageEvent::PageUp => {
                match self.focus {
                    Focus::Results => {
                        if self.selected_row >= 10 {
                            self.selected_row = self.selected_row - 10;
                        } else {
                            self.selected_row = 0;
                        }
                    },
                    Focus::Query => {
                        self.cursor_position = 0;
                    },
                    Focus::Explorer => {},
                }
                proof {
                    assert(self@ =~~= step(old(self)@, ev).0);
                }
                return PageCommand::Nothing;
            },
            PageEvent::PageDown => {
                match self.focus {
                    Focus::Results => {
                        let visible = self.visible_row_count();
                        let floor: usize = if visible > 0 {
                            visible - 1
                        } else {
                            0
                        };
                        if self.selected_row < floor && floor - self.selected_row > 10 {
                            self.selected_row = self.selected_row + 10;
                        } else {
                            self.selected_row = floor;
                        }
                        proof {
                            assert(self.selected_row as int == spec_page_down(
                                old(self)@.selected_row,
                                visible_rows(old(self)@),
                            ));
                        }
                    },
                    Focus::Query => {
                        self.cursor_position = self.query.len();
                    },
                    Focus::Explorer => {},
                }
                proof {
                    assert(self@ =~~= step(old(self)@, ev).0);
                }
                return PageCommand::Nothing;
            },
            PageEvent::Top => {
                if let Focus::Results = self.focus {
                    self.selected_row = 0;
                }
                proof {
                    assert(self@ =~~= step(old(self)@, ev).0);
                }
                return PageCommand::Nothing;
            },
            PageEvent::Bottom => {
                if let Focus::Results = self.focus {
                    let visible = self.visible_row_count();
                    self.selected_row = if visible > 0 {
                        visible - 1
                    } else {
                        0
                    };
                }
                proof {
                    assert(self@ =~~= step(old(self)@, ev).0);
                }
                return PageCommand::Nothing;
            },
            PageEvent::Char(c) => {
                if let Focus::Query = self.focus {
                    self.query.insert(self.cursor_position, c);
                    let n = self.query.len();
                    assert(self.cursor_position < n);
                    self.cursor_position = self.cursor_position + 1;
                }
                proof {
                    assert(self@ =~~= step(old(self)@, ev).0);
                }
                return PageCommand::Nothing;
            },
            PageEvent::Backspace => {
                if let Focus::Query = self.focus {
                    if self.cursor_position > 0 {
                        self.query.remove(self.cursor_position - 1);
                        self.cursor_position = self.cursor_position - 1;
                    }
                }
                proof {
                    assert(self@ =~~= step(old(self)@, ev).0);
                }
                return PageCommand::Nothing;
            },
            PageEvent::Delete => {
                if let Focus::Query = self.focus {
                    if self.cursor_position < self.query.len() {
                        self.query.remove(self.cursor_position);
                    }
                }
                proof {
                    assert(self@ =~~= step(old(self)@, ev).0);
                }
                return PageCommand::Nothing;
            },
            PageEvent::Enter => {
                match self.focus {
                    Focus::Query => {
                        self.query.insert(self.cursor_position, '\n');
                        let n = self.query.len();
                        assert(self.cursor_position < n);
                        self.cursor_position = self.cursor_position + 1;
                        proof {
                            assert(self@ =~~= step(old(self)@, ev).0);
                        }
                        return PageCommand::Nothing;
                    },
                    Focus::Explorer => {
                        match toggle_step(&self.tables, self.explorer_selected) {
                            ToggleStep::NoNode => {
                                proof {
                                    assert(self@ =~~= step(old(self)@, ev).0);
                                }
                                return PageCommand::Nothing;
                            },
                            ToggleStep::Collapse(k) => {
                                proof {
                                    crate::schema::lemma_resolve_in_range(
                                        old(self)@.tables,
                                        old(self)@.explorer_selected,
                                    );
                                }
                                collapse_node(&mut self.tables, k);
                                proof {
                                    assert(self@ =~~= step(old(self)@, ev).0);
                                }
                                return PageCommand::Nothing;
                            },
                            ToggleStep::ExpandCached(k) => {
                                proof {
                                    crate::schema::lemma_resolve_in_range(
                                        old(self)@.tables,
                                        old(self)@.explorer_selected,
                                    );
                                }
                                expand_cached(&mut self.tables, k);
                                proof {
                                    assert(self@ =~~= step(old(self)@, ev).0);
                                }
                                return PageCommand::Nothing;
                            },
                            ToggleStep::NeedColumns(k) => {
                                proof {
                                    assert(self@ =~~= step(old(self)@, ev).0);
                                }
                                return PageCommand::LoadColumns(k);
                            },
                        }
                    },
                    Focus::Results => {
                        proof {
                            assert(self@ =~~= step(old(self)@, ev).0);
                        }
                        return PageCommand::Nothing;
                    },
                }
            },
            PageEvent::FocusQuery => {
                self.focus = Focus::Query;
                proof {
                    assert(self@ =~~= step(old(self)@, ev).0);
                }
                return PageCommand::Nothing;
            },
            PageEvent::FocusExplorer => {
                self.focus = Focus::Explorer;
                proof {
                    assert(self@ =~~= step(old(self)@, ev).0);
                }
                return PageCommand::Nothing;
            },
        }
    }

    /// Whether the query buffer holds only whitespace.
    fn query_is_blank(&self) -> (r: bool)
        ensures
            r == (trim_spec(self@.query).len() == 0),
    {
        let mut i: usize = 0;
        while i < self.query.len()
            invariant
                i <= self.query@.len(),
                forall|j: int| 0 <= j < i ==> is_space_char(self.query@[j]),
            decreases self.query@.len() - i,
        {
            if !is_space(self.query[i]) {
                proof {
                    lemma_trim_nonempty(self.query@);
                }
                return false;
            }
            i += 1;
        }
        proof {
            lemma_trim_all_space(self.query@);
        }
        true
    }

    /// How many result rows are shown: the row cap if one is set and the
    /// grid is larger, else all rows.
    pub fn visible_row_count(&self) -> (r: usize)
        ensures
            r as int == visible_rows(self@),
    {
        if self.max_results > 0 && (self.max_results as usize) < self.results.len() {
            self.max_results as usize
        } else {
            self.results.len()
        }
    }

    /// The query buffer as one string.
    pub fn query_text(&self) -> (r: String)
        ensures
            r@ == self@.query,
    {
        chars_to_string(&self.query)
    }

    /// The query buffer with the cursor marker inserted, for the focused
    /// editor view.
    pub fn query_with_cursor(&self) -> (r: String)
        requires
            wf_model(self@),
        ensures
            r@ == self@.query.insert(self@.cursor, '|'),
    {
        let mut chars: Vec<char> = Vec::new();
        let mut i: usize = 0;
        while i < self.query.len()
            invariant
                i <= self.query@.len(),
                chars@ == self.query@.subrange(0, i as int),
            decreases self.query@.len() - i,
        {
            chars.push(self.query[i]);
            i += 1;
            assert(chars@ =~= self.query@.subrange(0, i as int));
        }
        assert(chars@ =~= self.query@);
        chars.insert(self.cursor_position, '|');
        let r = chars_to_string(&chars);
        proof {
            assert(r@ =~= self@.query.insert(self@.cursor, '|'));
        }
        r
    }

    /// Replaces the query buffer, puts the cursor at its end, and focuses
    /// the editor.
    pub fn set_query(&mut self, query: String)
        requires
            wf_model(old(self)@),
        ensures
            final(self)@ == (PageModel {
                query: query@,
                cursor: query@.len() as int,
                focus: Focus::Query,
                ..old(self)@
            }),
            wf_model(final(self)@),
    {
        let chars = str_to_chars(query.as_str());
        self.cursor_position = chars.len();
        self.query = chars;
        self.focus = Focus::Query;
        proof {
            assert(self@ =~~= (PageModel {
                query: query@,
                cursor: query@.len() as int,
                focus: Focus::Query,
                ..old(self)@
            }));
        }
    }

    /// Stores the outcome of running the submitted query: a grid selects
    /// its first row, an error message replaces the grid.
    pub fn finish_execute(&mut self, outcome: Result<ResultGrid, String>)
        requires
            wf_model(old(self)@),
            outcome matches Ok(g) ==> g.wf(),
        ensures
            final(self)@ == (match outcome {
                Ok(g) => PageModel {
                    headers: g.headers.deep_view(),
                    results: g.rows.deep_view(),
                    error: None,
                    selected_row: 0,
                    horizontal_scroll: 0,
                    ..old(self)@
                },
                Err(m) => PageModel {
                    headers: Seq::empty(),
                    results: Seq::empty(),
                    error: Some("Query error: "@ + m@),
                    selected_row: 0,
                    horizontal_scroll: 0,
                    ..old(self)@
                },
            }),
            wf_model(final(self)@),
    {
        self.selected_row = 0;
        self.horizontal_scroll = 0;
        match outcome {
            Ok(g) => {
                let ResultGrid { headers, rows } = g;
                self.headers = headers;
                self.results = rows;
                self.error = None;
                proof {
                    assert(self@ =~~= (match outcome {
                        Ok(g) => PageModel {
                            headers: g.headers.deep_view(),
                            results: g.rows.deep_view(),
                            error: None,
                            selected_row: 0,
                            horizontal_scroll: 0,
                            ..old(self)@
                        },
                        Err(m) => old(self)@,
                    }));
                }
            },
            Err(m) => {
                let mut text = String::new();
                text.append("Query error: ");
                text.append(m.as_str());
                self.error = Some(text);
                self.headers = Vec::new();
                self.results = Vec::new();
                proof {
                    assert(Seq::<char>::empty() + "Query error: "@ + m@ =~= "Query error: "@
                        + m@);
                    assert(self.headers.deep_view() =~= Seq::<Seq<char>>::empty());
                    assert(self.results.deep_view() =~= Seq::<Seq<Seq<char>>>::empty());
                    assert(self@ =~~= (match outcome {
                        Ok(g) => old(self)@,
                        Err(mm) => PageModel {
                            headers: Seq::empty(),
                            results: Seq::empty(),
                            error: Some("Query error: "@ + mm@),
                            selected_row: 0,
                            horizontal_scroll: 0,
                            ..old(self)@
                        },
                    }));
                }
            },
        }
    }

    /// Replaces the schema tree after listing the tables, resetting the
    /// explorer selection.
    pub fn set_tables(&mut self, tables: Vec<TableInfo>)
        requires
            wf_model(old(self)@),
        ensures
            final(self)@ == (PageModel {
                tables: tables.deep_view(),
                explorer_selected: 0,
                ..old(self)@
            }),
            wf_model(final(self)@),
    {
        self.tables = tables;
        self.explorer_selected = 0;
        proof {
            assert(self@ =~~= (PageModel {
                tables: tables.deep_view(),
                explorer_selected: 0,
                ..old(self)@
            }));
        }
    }

    /// Stores the outcome of the column-introspection query requested by
    /// an activation of the explorer.
    pub fn finish_columns(&mut self, k: usize, cols: Option<Vec<String>>)
        requires
            wf_model(old(self)@),
            k < old(self)@.tables.len(),
        ensures
            final(self)@ == (PageModel {
                tables: old(self)@.tables.update(
                    k as int,
                    after_expansion(
                        old(self)@.tables[k as int],
                        match cols {
                            Some(cs) => Some(cs.deep_view()),
                            None => None,
                        },
                    ),
                ),
                ..old(self)@
            }),
            wf_model(final(self)@),
    {
        finish_expansion(&mut self.tables, k, cols);
        proof {
            assert(self@ =~~= (PageModel {
                tables: old(self)@.tables.update(
                    k as int,
                    after_expansion(
                        old(self)@.tables[k as int],
                        match cols {
                            Some(cs) => Some(cs.deep_view()),
                            None => None,
                        },
                    ),
                ),
                ..old(self)@
            }));
        }
    }

    /// Sets the row cap (0 lifts it), pulling the result cursor back into
    /// the visible rows.
    pub fn set_max_results(&mut self, cap: u32)
        requires
            wf_model(old(self)@),
        ensures
            final(self)@.max_results == cap as int,
            final(self)@ == (PageModel {
                max_results: cap as int,
                selected_row: final(self)@.selected_row,
                ..old(self)@
            }),
            final(self)@.selected_row == (if old(self)@.selected_row < at_least_one(
                visible_rows(final(self)@),
            ) {
                old(self)@.selected_row
            } else {
                at_least_one(visible_rows(final(self)@)) - 1
            }),
            wf_model(final(self)@),
    {
        self.max_results = cap;
        let visible = self.visible_row_count();
        let floor: usize = if visible > 0 {
            visible - 1
        } else {
            0
        };
        if self.selected_row > floor {
            self.selected_row = floor;
        }
        proof {
            assert(self@ =~~= (PageModel {
                max_results: cap as int,
                selected_row: self@.selected_row,
                ..old(self)@
            }));
        }
    }

    /// The headers of the columns currently on screen: at most ten,
    /// starting at the horizontal offset.
    pub fn visible_headers(&self) -> (r: Vec<String>)
        requires
            wf_model(self@),
        ensures
            r.deep_view() == visible_header_window(self@),
    {
        let h = self.horizontal_scroll;
        let len = self.headers.len();
        let width: usize = if len == 0 {
            0
        } else if len - h < 10 {
            len - h
        } else {
            10
        };
        let mut out: Vec<String> = Vec::new();
        let mut t: usize = 0;
        while t < width
            invariant
                len == self.headers@.len(),
                width > 0 ==> h + width <= len,
                t <= width,
                out@.len() == t,
                forall|m: int| 0 <= m < t ==> #[trigger] out@[m] == self.headers@[h + m],
            decreases width - t,
        {
            out.push(self.headers[h + t].clone());
            t += 1;
        }
        proof {
            assert forall|m: int| 0 <= m < width implies #[trigger] out.deep_view()[m]
                == visible_header_window(self@)[m] by {
                assert(out@[m] == self.headers@[h + m]);
            }
            assert(out.deep_view() =~= visible_header_window(self@));
        }
        out
    }
}

impl QueryPage {
    /// The cells of one result row that are on screen: the same window as
    /// the visible headers.
    pub fn visible_row_cells(&self, row: usize) -> (r: Vec<String>)
        requires
            wf_model(self@),
            row < self@.results.len(),
        ensures
            r.deep_view() == row_window(self@, row as int),
    {
        let h = self.horizontal_scroll;
        let len = self.headers.len();
        let width: usize = if len == 0 {
            0
        } else if len - h < 10 {
            len - h
        } else {
            10
        };
        let cells = &self.results[row];
        let from: usize = if h < cells.len() {
            h
        } else {
            cells.len()
        };
        let to: usize = if h + width < cells.len() {
            h + width
        } else {
            cells.len()
        };
        let mut out: Vec<String> = Vec::new();
        let mut t: usize = from;
        while t < to
            invariant
                from <= t <= to <= cells@.len(),
                cells == &self.results@[row as int],
                row < self.results@.len(),
                out@.len() == t - from,
                forall|m: int| 0 <= m < t - from ==> #[trigger] out@[m] == cells@[from + m],
            decreases to - t,
        {
            out.push(cells[t].clone());
            t += 1;
        }
        proof {
            assert forall|m: int| 0 <= m < out.deep_view().len() implies #[trigger] out.deep_view()[m]
                == row_window(self@, row as int)[m] by {
                assert(out@[m] == cells@[from + m]);
                assert(self@.results[row as int][from + m] == cells@[from + m]@);
            }
            assert(out.deep_view() =~= row_window(self@, row as int));
        }
        out
    }
}

/// The cells of one result row that sit under the visible headers: the row
/// after skipping the horizontal offset, at most as many cells as headers
/// are shown.
pub open spec fn row_window(m: PageModel, row: int) -> Seq<Seq<char>> {
    let cells = m.results[row];
    let from = if m.horizontal_scroll < cells.len() {
        m.horizontal_scroll
    } else {
        cells.len() as int
    };
    let to = if m.horizontal_scroll + visible_header_window(m).len() < cells.len() {
        m.horizontal_scroll + visible_header_window(m).len() as int
    } else {
        cells.len() as int
    };
    cells.subrange(from, to)
}

/// The header cells on screen: at most ten, starting at the horizontal
/// offset.
pub open spec fn visible_header_window(m: PageModel) -> Seq<Seq<char>> {
    let len = m.headers.len() as int;
    let width = if len == 0 {
        0int
    } else if len - m.horizontal_scroll < 10 {
        len - m.horizontal_scroll
    } else {
        10int
    };
    m.headers.subrange(m.horizontal_scroll, m.horizontal_scroll + width)
}

/// A sequence of single-row moves: true moves down, false moves up.
pub open spec fn apply_moves(sel: int, visible: int, moves: Seq<bool>) -> int
    decreases moves.len(),
{
    if moves.len() == 0 {
        sel
    } else {
        apply_moves(
            if moves[0] {
                spec_scroll_down(sel, visible)
            } else {
                spec_scroll_up(sel)
            },
            visible,
            moves.drop_first(),
        )
    }
}

/// The result cursor stays between 0 and the last visible row under every
/// sequence of single-row up and down moves.
pub proof fn lemma_cursor_moves_stay_in_bounds(sel: int, visible: int, moves: Seq<bool>)
    requires
        0 <= sel < at_least_one(visible),
    ensures
        0 <= apply_moves(sel, visible, moves) < at_least_one(visible),
    decreases moves.len(),
{
    if moves.len() > 0 {
        let next = if moves[0] {
            spec_scroll_down(sel, visible)
        } else {
            spec_scroll_up(sel)
        };
        lemma_cursor_moves_stay_in_bounds(next, visible, moves.drop_first());
    }
}

} // verus!
