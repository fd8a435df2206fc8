//! The application state machine: the single owner of view state.
//!
//! Ticks, keypresses and fetch results are merged outside this crate into
//! one ordered event stream; this module consumes that stream one event at
//! a time and is the only code that mutates view state. Each handler
//! returns an [`Action`] telling the surrounding loop what to do next:
//! keep drawing, quit, forward a request, or start a background load. The
//! transition relation is stated once, over mathematical views, and every
//! handler is proved against it.

use crate::table::{NebTable, TableView};
use vstd::prelude::*;

verus! {

/// Which pane receives navigation keys. Starts at `TableList`; once the
/// dashboard runs, toggling moves between the two panes and never back to
/// `Unset`.
#[derive(Clone, Copy, Debug, PartialEq, Eq, Structural)]
pub enum ActiveView {
    Unset,
    TableList,
    TableData,
}

/// A keypress, reduced to the bindings the dashboard knows.
#[derive(Clone, Copy, Debug, PartialEq, Eq, Structural)]
pub enum KeyInput {
    Quit,
    Down,
    Up,
    Select,
    TogglePane,
    Other,
}

/// One event of the merged input stream: a keypress, or a periodic tick.
#[derive(Clone, Copy, Debug)]
pub enum Event<I> {
    Input(I),
    Tick,
}

/// A message of the dashboard's internal channel: a fresh table-name list,
/// a request to load a table, or a loaded table to display.
#[derive(Debug)]
pub enum UIEvent {
    RefreshDynamoTableList(Vec<String>),
    LoadTable(String),
    DisplayTable(NebTable),
}

/// Mathematical model of a [`UIEvent`].
pub enum UIEventView {
    RefreshDynamoTableList(Seq<Seq<char>>),
    LoadTable(Seq<char>),
    DisplayTable(TableView),
}

pub open spec fn ui_event_view(e: UIEvent) -> UIEventView {
    match e {
        UIEvent::RefreshDynamoTableList(names) => UIEventView::RefreshDynamoTableList(
            Seq::new(names@.len(), |i: int| names@[i]@),
        ),
        UIEvent::LoadTable(name) => UIEventView::LoadTable(name@),
        UIEvent::DisplayTable(t) => UIEventView::DisplayTable(t@),
    }
}

impl View for UIEvent {
    type V = UIEventView;

    open spec fn view(&self) -> UIEventView {
        ui_event_view(*self)
    }
}

/// What the main loop does after an event: keep drawing, quit and restore
/// the terminal, forward a request into the channel, or start a background
/// load of the named table.
#[derive(Debug)]
pub enum Action {
    Redraw,
    Quit,
    Dispatch(UIEvent),
    StartLoad(String),
}

/// Mathematical model of an [`Action`].
pub enum ActionView {
    Redraw,
    Quit,
    Dispatch(UIEventView),
    StartLoad(Seq<char>),
}

pub open spec fn action_view(a: Action) -> ActionView {
    match a {
        Action::Redraw => ActionView::Redraw,
        Action::Quit => ActionView::Quit,
        Action::Dispatch(e) => ActionView::Dispatch(ui_event_view(e)),
        Action::StartLoad(name) => ActionView::StartLoad(name@),
    }
}

/// Mathematical model of the application state.
pub struct AppView {
    pub active: ActiveView,
    pub table_list: Seq<Seq<char>>,
    pub list_cursor: Option<nat>,
    pub table: TableView,
    pub row_cursor: Option<nat>,
}

/// The application state: the active pane, the table-name list with its
/// cursor, and the displayed table with its row cursor. Created once at
/// startup and mutated only by the event handlers below.
#[derive(Debug)]
pub struct App {
    pub active: ActiveView,
    pub table_list: Vec<String>,
    pub list_cursor: Option<usize>,
    pub selected_table: NebTable,
    pub row_cursor: Option<usize>,
}

pub open spec fn cursor_view(c: Option<usize>) -> Option<nat> {
    match c {
        Some(i) => Some(i as nat),
        None => None,
    }
}

impl View for App {
    type V = AppView;

    open spec fn view(&self) -> AppView {
        AppView {
            active: self.active,
            table_list: Seq::new(self.table_list@.len(), |i: int| self.table_list@[i]@),
            list_cursor: cursor_view(self.list_cursor),
            table: self.selected_table@,
            row_cursor: cursor_view(self.row_cursor),
        }
    }
}

/// One "down" step of the list cursor: advance by one; wrap to the top
/// when the cursor would pass the last index. An out-of-range cursor (the
/// list may have shrunk underneath it) wraps to the top as well.
pub open spec fn down_step(c: nat, len: nat) -> nat {
    if c + 1 >= len {
        0
    } else {
        c + 1
    }
}

/// One "down" step of the row cursor: advance by one; wrap to index 1, not
/// 0, when the cursor would pass the last row. The asymmetry against
/// `down_step` is deliberate, kept for parity with the dashboard's
/// established behaviour.
pub open spec fn row_down_step(c: nat, len: nat) -> nat {
    if c + 1 >= len {
        1
    } else {
        c + 1
    }
}

/// One "up" step of either cursor: step back by one; wrap to the last
/// index when at the top. Meaningful only for a non-empty list.
pub open spec fn up_step(c: nat, len: nat) -> nat {
    if c > 0 {
        (c - 1) as nat
    } else {
        (len - 1) as nat
    }
}

/// The "down" transition: moves the cursor of the active pane, guarded by
/// an explicit length check so an empty list is never indexed; everything
/// else is unchanged.
pub open spec fn move_down_spec(s: AppView) -> AppView {
    match s.active {
        ActiveView::TableList => match s.list_cursor {
            Some(c) => if s.table_list.len() > 0 {
                AppView { list_cursor: Some(down_step(c, s.table_list.len())), ..s }
            } else {
                s
            },
            None => s,
        },
        ActiveView::TableData => match s.row_cursor {
            Some(c) => if s.table.rows.len() > 0 {
                AppView { row_cursor: Some(row_down_step(c, s.table.rows.len())), ..s }
            } else {
                s
            },
            None => s,
        },
        ActiveView::Unset => s,
    }
}

/// The "up" transition, the mirror of `move_down_spec`.
pub open spec fn move_up_spec(s: AppView) -> AppView {
    match s.active {
        ActiveView::TableList => match s.list_cursor {
            Some(c) => if s.table_list.len() > 0 {
                AppView { list_cursor: Some(up_step(c, s.table_list.len())), ..s }
            } else {
                s
            },
            None => s,
        },
        ActiveView::TableData => match s.row_cursor {
            Some(c) => if s.table.rows.len() > 0 {
                AppView { row_cursor: Some(up_step(c, s.table.rows.len())), ..s }
            } else {
                s
            },
            None => s,
        },
        ActiveView::Unset => s,
    }
}

/// The pane toggle: swaps between the two panes; entering the data pane
/// for the first time puts its cursor at the first row.
pub open spec fn toggle_spec(s: AppView) -> AppView {
    match s.active {
        ActiveView::TableList => AppView {
            active: ActiveView::TableData,
            row_cursor: if s.row_cursor is None {
                Some(0)
            } else {
                s.row_cursor
            },
            ..s
        },
        ActiveView::TableData => AppView { active: ActiveView::TableList, ..s },
        ActiveView::Unset => AppView { active: ActiveView::TableList, ..s },
    }
}

/// The load request owed for the current selection: the highlighted table
/// name, provided the cursor is in range of the list.
pub open spec fn selected_request(s: AppView) -> Option<Seq<char>> {
    match s.list_cursor {
        Some(c) => if c < s.table_list.len() {
            Some(s.table_list[c as int])
        } else {
            None
        },
        None => None,
    }
}

/// The transition for one keypress: what the state becomes and what the
/// loop does next. Only the select key produces a request, only the quit
/// key ends the loop, and only navigation keys move state.
pub open spec fn key_step(s: AppView, k: KeyInput) -> (AppView, ActionView) {
    match k {
        KeyInput::Quit => (s, ActionView::Quit),
        KeyInput::Down => (move_down_spec(s), ActionView::Redraw),
        KeyInput::Up => (move_up_spec(s), ActionView::Redraw),
        KeyInput::TogglePane => (toggle_spec(s), ActionView::Redraw),
        KeyInput::Select => if s.active == ActiveView::TableList {
            match selected_request(s) {
                Some(name) => (s, ActionView::Dispatch(UIEventView::LoadTable(name))),
                None => (s, ActionView::Redraw),
            }
        } else {
            (s, ActionView::Redraw)
        },
        KeyInput::Other => (s, ActionView::Redraw),
    }
}

/// The transition for one channel message: a fresh name list replaces the
/// list and leaves the cursor alone; a load request is handed back to the
/// loop as a background load to start; a loaded table replaces the
/// displayed table without resetting the row cursor. Results are applied
/// in arrival order, so the last applied one wins.
pub open spec fn ui_step(s: AppView, e: UIEventView) -> (AppView, ActionView) {
    match e {
        UIEventView::RefreshDynamoTableList(names) => (
            AppView { table_list: names, ..s },
            ActionView::Redraw,
        ),
        UIEventView::LoadTable(name) => (s, ActionView::StartLoad(name)),
        UIEventView::DisplayTable(t) => (AppView { table: t, ..s }, ActionView::Redraw),
    }
}

/// The transition for one input-stream event: a keypress steps as
/// `key_step`; a tick changes nothing and only re-renders.
pub open spec fn event_step(s: AppView, e: Event<KeyInput>) -> (AppView, ActionView) {
    match e {
        Event::Input(k) => key_step(s, k),
        Event::Tick => (s, ActionView::Redraw),
    }
}

impl App {
    /// The state at startup: the list pane active, the list cursor on the
    /// first entry, no table loaded yet and its cursor unset.
    pub fn new() -> (s: Self)
        ensures
            s@.active == ActiveView::TableList,
            s@.table_list.len() == 0,
            s@.list_cursor == Some(0nat),
            s@.table.headers.len() == 0,
            s@.table.rows.len() == 0,
            s@.row_cursor is None,
    {
        App {
            active: ActiveView::TableList,
            table_list: Vec::new(),
            list_cursor: Some(0),
            selected_table: NebTable::default(),
            row_cursor: None,
        }
    }

    /// Replace the table-name list; the cursor is deliberately left alone
    /// (it may fall out of range and is corrected on the next navigation).
    pub fn load_tables(&mut self, tables: &[String])
        ensures
            final(self)@ == (AppView {
                table_list: Seq::new(tables@.len(), |i: int| tables@[i]@),
                ..old(self)@
            }),
    {
        let mut list: Vec<String> = Vec::new();
        let mut i: usize = 0;
        while i < tables.len()
            invariant
                0 <= i <= tables@.len(),
                list@.len() == i,
                forall|j: int| 0 <= j < i ==> (#[trigger] list@[j])@ == tables@[j]@,
            decreases tables@.len() - i,
        {
            list.push(tables[i].clone());
            i += 1;
        }
        self.table_list = list;
        proof {
            assert(Seq::new(self.table_list@.len(), |k: int| self.table_list@[k]@) =~= Seq::new(
                tables@.len(),
                |k: int| tables@[k]@,
            ));
        }
    }

    /// Move the active pane's cursor one step down, as `move_down_spec`
    /// says: wrap past the end, never index an empty list.
    pub fn move_down(&mut self)
        ensures
            final(self)@ == move_down_spec(old(self)@),
    {
        match self.active {
            ActiveView::TableList => {
                if let Some(selected) = self.list_cursor {
                    let len = self.table_list.len();
                    if len > 0 {
                        if selected >= len - 1 {
                            self.list_cursor = Some(0);
                        } else {
                            self.list_cursor = Some(selected + 1);
                        }
                    }
                }
            },
            ActiveView::TableData => {
                if let Some(selected) = self.row_cursor {
                    let len = self.selected_table.rows.len();
                    if len > 0 {
                        if selected >= len - 1 {
                            self.row_cursor = Some(1);
                        } else {
                            self.row_cursor = Some(selected + 1);
                        }
                    }
                }
            },
            ActiveView::Unset => {},
        }
    }

    /// Move the active pane's cursor one step up, as `move_up_spec` says:
    /// wrap from the top to the last index, never index an empty list.
    pub fn move_up(&mut self)
        ensures
            final(self)@ == move_up_spec(old(self)@),
    {
        match self.active {
            ActiveView::TableList => {
                if let Some(selected) = self.list_cursor {
                    let len = self.table_list.len();
                    if len > 0 {
                        if selected > 0 {
                            self.list_cursor = Some(selected - 1);
                        } else {
                            self.list_cursor = Some(len - 1);
                        }
                    }
                }
            },
            ActiveView::TableData => {
                if let Some(selected) = self.row_cursor {
                    let len = self.selected_table.rows.len();
                    if len > 0 {
                        if selected > 0 {
                            self.row_cursor = Some(selected - 1);
                        } else {
                            self.row_cursor = Some(len - 1);
                        }
                    }
                }
            },
            ActiveView::Unset => {},
        }
    }

    /// The load request owed for the highlighted table, if the cursor is
    /// in range: exactly one request, and no state change.
    pub fn table_selected(&self) -> (r: Option<UIEvent>)
        ensures
            match r {
                Some(e) => selected_request(self@) is Some && e@ == UIEventView::LoadTable(
                    selected_request(self@).unwrap(),
                ),
                None => selected_request(self@) is None,
            },
    {
        if let Some(selected) = self.list_cursor {
            if selected < self.table_list.len() {
                let name = self.table_list[selected].clone();
                return Some(UIEvent::LoadTable(name));
            }
        }
        None
    }

    /// Replace the displayed table; the row cursor is not reset.
    pub fn select_table(&mut self, table: NebTable)
        ensures
            final(self)@ == (AppView { table: table@, ..old(self)@ }),
    {
        self.selected_table = table;
    }

    /// Toggle the active pane, as `toggle_spec` says.
    pub fn toggle_active_pane(&mut self)
        ensures
            final(self)@ == toggle_spec(old(self)@),
    {
        match self.active {
            ActiveView::TableList => {
                self.active = ActiveView::TableData;
                if self.row_cursor.is_none() {
                    self.row_cursor = Some(0);
                }
            },
            ActiveView::TableData => {
                self.active = ActiveView::TableList;
            },
            ActiveView::Unset => {
                self.active = ActiveView::TableList;
            },
        }
    }

    /// Apply one keypress, as `key_step` says.
    pub fn handle_key(&mut self, k: KeyInput) -> (a: Action)
        ensures
            final(self)@ == key_step(old(self)@, k).0,
            action_view(a) == key_step(old(self)@, k).1,
    {
        match k {
            KeyInput::Quit => Action::Quit,
            KeyInput::Down => {
                self.move_down();
                Action::Redraw
            },
            KeyInput::Up => {
                self.move_up();
                Action::Redraw
            },
            KeyInput::TogglePane => {
                self.toggle_active_pane();
                Action::Redraw
            },
            KeyInput::Select => {
                if self.active == ActiveView::TableList {
                    match self.table_selected() {
                        Some(e) => Action::Dispatch(e),
                        None => Action::Redraw,
                    }
                } else {
                    Action::Redraw
                }
            },
            KeyInput::Other => Action::Redraw,
        }
    }

    /// Apply one channel message, as `ui_step` says.
    pub fn handle_ui_event(&mut self, e: UIEvent) -> (a: Action)
        ensures
            final(self)@ == ui_step(old(self)@, e@).0,
            action_view(a) == ui_step(old(self)@, e@).1,
    {
        match e {
            UIEvent::RefreshDynamoTableList(names) => {
                proof {
                    assert(e@ == UIEventView::RefreshDynamoTableList(
                        Seq::new(names@.len(), |i: int| names@[i]@),
                    ));
                }
                self.load_tables(names.as_slice());
                Action::Redraw
            },
            UIEvent::LoadTable(name) => Action::StartLoad(name),
            UIEvent::DisplayTable(t) => {
                self.select_table(t);
                Action::Redraw
            },
        }
    }

    /// Apply one input-stream event, as `event_step` says: a tick leaves
    /// the state exactly as it was and only asks for a re-render.
    pub fn handle_event(&mut self, e: Event<KeyInput>) -> (a: Action)
        ensures
            final(self)@ == event_step(old(self)@, e).0,
            action_view(a) == event_step(old(self)@, e).1,
    {
        match e {
            Event::Input(k) => self.handle_key(k),
            Event::Tick => Action::Redraw,
        }
    }
}

/// The list cursor after `k` repeated "down" steps.
pub open spec fn down_iter(c: nat, len: nat, k: nat) -> nat
    decreases k,
{
    if k == 0 {
        c
    } else {
        down_iter(down_step(c, len), len, (k - 1) as nat)
    }
}

proof fn lemma_down_iter_mod(c: nat, len: nat, k: nat)
    requires
        len > 0,
        c < len,
    ensures
        down_iter(c, len, k) == ((c + k) as int) % (len as int),
    decreases k,
{
    if k == 0 {
        vstd::arithmetic::div_mod::lemma_small_mod(c, len);
    } else {
        let c2 = down_step(c, len);
        assert(c2 == ((c + 1) as int) % (len as int)) by {
            if c + 1 >= len {
                vstd::arithmetic::div_mod::lemma_mod_self_0(len as int);
            } else {
                vstd::arithmetic::div_mod::lemma_small_mod((c + 1) as nat, len);
            }
        }
        vstd::arithmetic::div_mod::lemma_mod_bound(c2 as int, len as int);
        lemma_down_iter_mod(c2, len, (k - 1) as nat);
        assert((((c + 1) as int) % (len as int) + (k - 1)) % (len as int) == ((c + k) as int) % (len as int)) by {
            vstd::arithmetic::div_mod::lemma_add_mod_noop((c + 1) as int, k - 1, len as int);
            vstd::arithmetic::div_mod::lemma_mod_twice(k - 1, len as int);
        }
    }
}

/// Wrap invariant: on a non-empty list of length `n`, pressing "down" `n`
/// times returns the list cursor to where it started.
pub proof fn lemma_down_wrap_invariant(c: nat, len: nat)
    requires
        len > 0,
        c < len,
    ensures
        down_iter(c, len, len) == c,
{
    lemma_down_iter_mod(c, len, len);
    vstd::arithmetic::div_mod::lemma_mod_add_multiples_vanish(c as int, len as int);
    vstd::arithmetic::div_mod::lemma_small_mod(c, len);
}

/// The state after `k` repeated "down" keypresses.
pub open spec fn move_down_iter(s: AppView, k: nat) -> AppView
    decreases k,
{
    if k == 0 {
        s
    } else {
        move_down_iter(move_down_spec(s), (k - 1) as nat)
    }
}

proof fn lemma_move_down_iter_cursor(s: AppView, k: nat)
    requires
        s.active == ActiveView::TableList,
        s.table_list.len() > 0,
        s.list_cursor is Some,
        s.list_cursor.unwrap() < s.table_list.len(),
    ensures
        move_down_iter(s, k) == (AppView {
            list_cursor: Some(down_iter(s.list_cursor.unwrap(), s.table_list.len(), k)),
            ..s
        }),
    decreases k,
{
    let c = s.list_cursor.unwrap();
    let len = s.table_list.len();
    if k == 0 {
        assert((AppView { list_cursor: Some(c), ..s }) == s);
    } else {
        let s2 = move_down_spec(s);
        assert(s2 == (AppView { list_cursor: Some(down_step(c, len)), ..s }));
        assert(down_step(c, len) < len);
        lemma_move_down_iter_cursor(s2, (k - 1) as nat);
    }
}

/// Wrap invariant over the whole state: with the list pane active and the
/// cursor in range of the non-empty name list, pressing "down" as many
/// times as the list is long returns the state exactly to where it began.
pub proof fn lemma_down_wrap_invariant_state(s: AppView)
    requires
        s.active == ActiveView::TableList,
        s.table_list.len() > 0,
        s.list_cursor is Some,
        s.list_cursor.unwrap() < s.table_list.len(),
    ensures
        move_down_iter(s, s.table_list.len()) == s,
{
    let c = s.list_cursor.unwrap();
    let len = s.table_list.len();
    lemma_move_down_iter_cursor(s, len);
    lemma_down_wrap_invariant(c, len);
    assert((AppView { list_cursor: Some(c), ..s }) == s);
}

/// Toggling the active pane twice returns to the original pane, from
/// either pane of the running dashboard.
pub proof fn lemma_toggle_twice(s: AppView)
    requires
        s.active != ActiveView::Unset,
    ensures
        toggle_spec(toggle_spec(s)).active == s.active,
{
}

/// Last applied wins: whatever was displayed before, after two loaded
/// tables arrive the one applied last is the one displayed, whatever
/// order the loads were issued in.
pub proof fn lemma_last_applied_wins(s: AppView, t1: TableView, t2: TableView)
    ensures
        ui_step(ui_step(s, UIEventView::DisplayTable(t1)).0, UIEventView::DisplayTable(t2)).0.table
            == t2,
{
}

/// A tick is pure re-rendering: it never mutates state.
pub proof fn lemma_tick_is_identity(s: AppView)
    ensures
        event_step(s, Event::Tick).0 == s,
        event_step(s, Event::Tick).1 == ActionView::Redraw,
{
}

} // verus!

