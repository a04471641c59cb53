//! The state machine of the dashboard.
//!
//! The dashboard owns everything that the screens show. A key press moves
//! it from one state to the next and may leave the host something to do:
//! read a file, run the editor, list a directory. The host does it and
//! hands the outcome back through the matching method; until then the
//! dashboard stays as the key left it.

use crate::amount::{decimal_string, decimal_text};
use crate::bills::{
    loaded_view, pending_text, run_over, run_report, BillState, BillStateView, IngestError,
};
use crate::catalog::bill_paths;
use crate::config::Config;
use crate::ledger::net_line_text;
use crate::menu::{AppState, MenuItem, MENU_LEN};
use crate::scroll::{scroll_ceiling, scroll_down, scroll_up, scrolled_down, scrolled_up};
use crate::source::FileData;
use crate::table::{edit_table, load_table, parsed_table};
use crate::text::{rows_view, strings_view, trimmed, trimmed_string};
use crate::weather::WeatherCard;
use vstd::prelude::*;
use vstd::string::StringExecFns;

verus! {

/// A key, as far as the dashboard tells keys apart.
#[derive(Debug, Clone, Copy, PartialEq, Eq, Structural)]
pub enum Key {
    Up,
    Down,
    Enter,
    Esc,
    Char(char),
    Other,
}

/// What happened to a key. Only a press moves the dashboard.
#[derive(Debug, Clone, Copy, PartialEq, Eq, Structural)]
pub enum KeyKind {
    Press,
    Repeat,
    Release,
}

/// What a key press leaves the host to do.
#[derive(Debug, Clone, Copy, PartialEq, Eq, Structural)]
pub enum Action {
    /// Nothing.
    Nothing,
    /// End the loop.
    Quit,
    /// Read the source of the table, then call `table_loaded`.
    LoadTable(MenuItem),
    /// Run the editor on the source of the table and, if it ended well,
    /// read the source; then call `table_edited`.
    EditTable(MenuItem),
    /// List the watched directory, then call `bills_listed`.
    ListBills,
    /// Read the files of the catalog that are pending, then call
    /// `bills_analyzed`.
    AnalyzeBills,
    /// Ask for the target directory and write the reports there, then call
    /// `export_finished`.
    PromptExport,
    /// Start fetching the weather; call `weather_loaded` when it came.
    FetchWeather,
}

/// How an export ended.
#[derive(Debug, Clone, PartialEq, Eq)]
pub enum ExportOutcome {
    /// `count` documents were written to `dir`.
    Written { count: usize, dir: String },
    /// Writing failed, for the reason given.
    WriteFailed(String),
    /// The target directory could not be asked for or made.
    PromptFailed(String),
}

/// What a [`Dashboard`] stands for.
pub struct DashboardView {
    pub state: AppState,
    pub selected: nat,
    pub last_msg: Option<Seq<char>>,
    pub force_redraw: bool,
    pub todo: Seq<Seq<Seq<char>>>,
    pub todo_scroll: nat,
    pub cyber: Seq<Seq<Seq<char>>>,
    pub cyber_scroll: nat,
    pub bills: BillStateView,
    pub weather: Seq<WeatherCard>,
}

/// The menu entry at `index`.
pub open spec fn item_at(index: nat) -> MenuItem {
    if index == 0 {
        MenuItem::Todo
    } else if index == 1 {
        MenuItem::Bill
    } else {
        MenuItem::Cyber
    }
}

/// The key moves up: the arrow, or `k`.
pub open spec fn is_up(key: Key) -> bool {
    key == Key::Up || key == Key::Char('k')
}

/// The key moves down: the arrow, or `j`.
pub open spec fn is_down(key: Key) -> bool {
    key == Key::Down || key == Key::Char('j')
}

impl DashboardView {
    /// The cursor is on an entry of the menu, the offset of each table is
    /// within its ceiling, and the bill session is well formed.
    pub open spec fn wf(self) -> bool {
        &&& self.selected < MENU_LEN
        &&& self.todo_scroll <= scroll_ceiling(self.todo.len())
        &&& self.cyber_scroll <= scroll_ceiling(self.cyber.len())
        &&& self.bills.wf()
    }

    /// The rows of a table; the bill entry has none.
    pub open spec fn rows(self, item: MenuItem) -> Seq<Seq<Seq<char>>> {
        match item {
            MenuItem::Todo => self.todo,
            MenuItem::Cyber => self.cyber,
            MenuItem::Bill => Seq::empty(),
        }
    }

    /// The offset of a table; the bill entry has none.
    pub open spec fn offset(self, item: MenuItem) -> nat {
        match item {
            MenuItem::Todo => self.todo_scroll,
            MenuItem::Cyber => self.cyber_scroll,
            MenuItem::Bill => 0,
        }
    }

    /// This state with other rows and another offset for a table.
    pub open spec fn with_table(
        self,
        item: MenuItem,
        rows: Seq<Seq<Seq<char>>>,
        offset: nat,
    ) -> DashboardView {
        match item {
            MenuItem::Todo => DashboardView { todo: rows, todo_scroll: offset, ..self },
            MenuItem::Cyber => DashboardView { cyber: rows, cyber_scroll: offset, ..self },
            MenuItem::Bill => self,
        }
    }

    /// The state and the action after a key press on the main menu. Up and
    /// down move the cursor and wrap around; both clear the message.
    pub open spec fn menu_step(self, key: Key) -> (DashboardView, Action) {
        if key == Key::Char('q') || key == Key::Esc {
            (self, Action::Quit)
        } else if is_up(key) {
            let selected = if self.selected == 0 {
                (MENU_LEN - 1) as nat
            } else {
                (self.selected - 1) as nat
            };
            (DashboardView { selected, last_msg: None, ..self }, Action::Nothing)
        } else if is_down(key) {
            let selected = (self.selected + 1) % (MENU_LEN as nat);
            (DashboardView { selected, last_msg: None, ..self }, Action::Nothing)
        } else if key == Key::Enter {
            match item_at(self.selected) {
                MenuItem::Bill => (self, Action::ListBills),
                item => (self, Action::LoadTable(item)),
            }
        } else if key == Key::Char('w') {
            (self, Action::FetchWeather)
        } else {
            (self, Action::Nothing)
        }
    }

    /// The state and the action after a key press on a table view.
    pub open spec fn table_step(self, item: MenuItem, key: Key) -> (DashboardView, Action) {
        if key == Key::Char('q') {
            (
                DashboardView { state: AppState::MainMenu, ..self }.with_table(
                    item,
                    self.rows(item),
                    0,
                ),
                Action::Nothing,
            )
        } else if key == Key::Char('e') {
            (self, Action::EditTable(item))
        } else if key == Key::Char('r') {
            (self, Action::LoadTable(item))
        } else if is_up(key) {
            (
                self.with_table(item, self.rows(item), scrolled_up(self.offset(item))),
                Action::Nothing,
            )
        } else if is_down(key) {
            (
                self.with_table(
                    item,
                    self.rows(item),
                    scrolled_down(self.offset(item), self.rows(item).len()),
                ),
                Action::Nothing,
            )
        } else {
            (self, Action::Nothing)
        }
    }

    /// The state and the action after a key press on the bill view.
    pub open spec fn bill_step(self, key: Key) -> (DashboardView, Action) {
        if key == Key::Char('q') {
            (DashboardView { state: AppState::MainMenu, force_redraw: true, ..self }, Action::Nothing)
        } else if key == Key::Char('r') {
            (self, Action::ListBills)
        } else if key == Key::Char('a') {
            (self, Action::AnalyzeBills)
        } else if key == Key::Char('o') {
            if self.bills.aggregate.is_empty() {
                (
                    DashboardView {
                        last_msg: Some("press a to analyze first"@),
                        force_redraw: true,
                        ..self
                    },
                    Action::Nothing,
                )
            } else {
                (self, Action::PromptExport)
            }
        } else {
            (self, Action::Nothing)
        }
    }

    /// The state and the action after a key press.
    pub open spec fn step(self, key: Key) -> (DashboardView, Action) {
        match self.state {
            AppState::MainMenu => self.menu_step(key),
            AppState::TodoView => self.table_step(MenuItem::Todo, key),
            AppState::CyberView => self.table_step(MenuItem::Cyber, key),
            AppState::BillView => self.bill_step(key),
        }
    }

    /// The state after the source of a table was read. The table opens at
    /// its top; coming from the menu clears the message.
    pub open spec fn after_load(self, item: MenuItem, content: Option<Seq<char>>) -> DashboardView {
        let rows = match content {
            Some(text) => parsed_table(text, 1),
            None => Seq::empty(),
        };
        let last_msg = if self.state == AppState::MainMenu {
            None
        } else {
            self.last_msg
        };
        DashboardView { state: item.target(), last_msg, ..self }.with_table(item, rows, 0)
    }

    /// The state after the editor was run on the source of a table. When the
    /// editor ended well and the source could not be read again, the
    /// dashboard is back on the main menu.
    pub open spec fn after_edit(
        self,
        item: MenuItem,
        edited: bool,
        content: Option<Seq<char>>,
    ) -> DashboardView {
        let rows = match content {
            Some(text) if edited => parsed_table(text, 1),
            _ => Seq::empty(),
        };
        let state = if edited && content is None {
            AppState::MainMenu
        } else {
            self.state
        };
        DashboardView { state, force_redraw: true, ..self }.with_table(item, rows, 0)
    }
}

/// No key press breaks the state: the cursor stays on the menu and each
/// offset stays within its ceiling.
pub proof fn lemma_step_keeps_wf(d: DashboardView, key: Key)
    requires
        d.wf(),
    ensures
        d.step(key).0.wf(),
{
}

/// The cursor wraps around: down and then up, or up and then down, leaves
/// it where it was, and as many steps down as there are entries bring it
/// back.
pub proof fn lemma_cursor_wraps(d: DashboardView)
    requires
        d.wf(),
    ensures
        d.menu_step(Key::Down).0.menu_step(Key::Up).0.selected == d.selected,
        d.menu_step(Key::Up).0.menu_step(Key::Down).0.selected == d.selected,
        d.menu_step(Key::Down).0.menu_step(Key::Down).0.menu_step(Key::Down).0.selected
            == d.selected,
        d.selected == MENU_LEN - 1 ==> d.menu_step(Key::Down).0.selected == 0,
        d.selected == 0 ==> d.menu_step(Key::Up).0.selected == MENU_LEN - 1,
{
}

/// The loop ends only from the main menu, on `q` or escape. A key press
/// changes the view only by going back to the main menu on `q`; a view is
/// entered when the host hands back what the view shows.
pub proof fn lemma_step_changes_view_on_q_only(d: DashboardView, key: Key)
    ensures
        d.step(key).1 == Action::Quit <==> d.state == AppState::MainMenu && (key == Key::Char('q')
            || key == Key::Esc),
        d.step(key).0.state != d.state ==> key == Key::Char('q') && d.step(key).0.state
            == AppState::MainMenu,
        key == Key::Other ==> d.step(key) == (d, Action::Nothing),
{
}

/// The message after the watched directory could not be listed.
pub open spec fn refresh_failed_text(reason: Seq<char>) -> Seq<char> {
    "refresh failed: "@ + reason
}

/// The message after a run over the pending files.
pub open spec fn run_text(report: Result<nat, IngestError>, bills: BillStateView) -> Seq<char> {
    match report {
        Ok(n) => "analyzed "@ + decimal_text(n) + " statement(s) | "@ + if bills.aggregate.is_empty() {
            "no figures yet"@
        } else {
            net_line_text(bills.aggregate.net())
        },
        Err(IngestError::NothingPending) => "no statement to analyze"@,
        Err(IngestError::Failed(e)) => "analysis failed: "@ + e.message_text(),
    }
}

/// The message after an export.
pub open spec fn export_text(outcome: ExportOutcome) -> Seq<char> {
    match outcome {
        ExportOutcome::Written { count, dir } => "exported "@ + decimal_text(count as nat)
            + " report(s) to "@ + dir@,
        ExportOutcome::WriteFailed(reason) => "export failed: "@ + reason@,
        ExportOutcome::PromptFailed(reason) => "cannot take the export directory: "@ + reason@,
    }
}

/// The directory that an export goes to: what was typed, trimmed, or the
/// default when nothing but white space was typed.
pub open spec fn export_target_text(typed: Seq<char>, default: Seq<char>) -> Seq<char> {
    if trimmed(typed).len() == 0 {
        default
    } else {
        trimmed(typed)
    }
}

/// The directory that an export goes to.
pub fn export_target(typed: &str, default: &str) -> (dir: String)
    ensures
        dir@ == export_target_text(typed@, default@),
{
    let dir = trimmed_string(typed);
    if dir.as_str().unicode_len() == 0 {
        default.to_owned()
    } else {
        dir
    }
}

/// The dashboard: the view that has the keyboard, the cursor of the menu,
/// the two tables with their offsets, the bill session, the weather cards,
/// the message of the last operation, and whether the screen is to be
/// cleared before the next frame.
pub struct Dashboard {
    state: AppState,
    selected: usize,
    last_msg: Option<String>,
    force_redraw: bool,
    todo: Vec<Vec<String>>,
    todo_scroll: usize,
    cyber: Vec<Vec<String>>,
    cyber_scroll: usize,
    bills: BillState,
    weather: Vec<WeatherCard>,
}

impl View for Dashboard {
    type V = DashboardView;

    closed spec fn view(&self) -> DashboardView {
        DashboardView {
            state: self.state,
            selected: self.selected as nat,
            last_msg: match self.last_msg {
                Some(m) => Some(m@),
                None => None,
            },
            force_redraw: self.force_redraw,
            todo: rows_view(self.todo@),
            todo_scroll: self.todo_scroll as nat,
            cyber: rows_view(self.cyber@),
            cyber_scroll: self.cyber_scroll as nat,
            bills: self.bills@,
            weather: self.weather@,
        }
    }
}

impl Dashboard {
    /// The dashboard at its start: on the main menu, the cursor on the
    /// first entry, no rows, no cards, a bill session for the directory of the
    /// settings, and a warning as message when no weather key is set.
    pub fn new(cfg: &Config) -> (dashboard: Dashboard)
        ensures
            dashboard@.wf(),
            dashboard@.state == AppState::MainMenu,
            dashboard@.selected == 0,
            !dashboard@.force_redraw,
            dashboard@.todo.len() == 0,
            dashboard@.cyber.len() == 0,
            dashboard@.weather.len() == 0,
            dashboard@.bills.bill_dir == cfg.bill_dir_path@,
            dashboard@.bills.files.len() == 0,
            dashboard@.bills.processed.len() == 0,
            dashboard@.bills.aggregate.is_empty(),
            dashboard@.last_msg == if trimmed(cfg.weather_api_key@).len() > 0 {
                None
            } else {
                Some("warning: no weather API key; set weather_api_key in config.toml"@)
            },
    {
        let last_msg = if cfg.has_weather_key() {
            None
        } else {
            Some("warning: no weather API key; set weather_api_key in config.toml".to_owned())
        };
        let dashboard = Dashboard {
            state: AppState::MainMenu,
            selected: 0,
            last_msg,
            force_redraw: false,
            todo: Vec::new(),
            todo_scroll: 0,
            cyber: Vec::new(),
            cyber_scroll: 0,
            bills: BillState::new(cfg.bill_dir_path.as_str()),
            weather: Vec::new(),
        };
        dashboard
    }

    /// The view that has the keyboard.
    pub fn state(&self) -> (state: AppState)
        ensures
            state == self@.state,
    {
        self.state
    }

    /// The index of the menu entry under the cursor.
    pub fn selected(&self) -> (selected: usize)
        ensures
            selected == self@.selected,
    {
        self.selected
    }

    /// The message of the last operation, if there is one.
    pub fn last_msg(&self) -> (message: &Option<String>)
        ensures
            match *message {
                Some(m) => self@.last_msg == Some(m@),
                None => self@.last_msg is None,
            },
    {
        &self.last_msg
    }

    /// The rows of a table; the bill entry has those of no table.
    pub fn rows(&self, item: MenuItem) -> (rows: &[Vec<String>])
        ensures
            rows_view(rows@) == self@.rows(item),
    {
        match item {
            MenuItem::Todo => self.todo.as_slice(),
            MenuItem::Cyber => self.cyber.as_slice(),
            MenuItem::Bill => {
                let none: &[Vec<String>] = &[];
                none
            },
        }
    }

    /// The offset of a table: the index of the first row shown.
    pub fn offset(&self, item: MenuItem) -> (offset: usize)
        ensures
            offset == self@.offset(item),
    {
        match item {
            MenuItem::Todo => self.todo_scroll,
            MenuItem::Cyber => self.cyber_scroll,
            MenuItem::Bill => 0,
        }
    }

    /// The bill session.
    pub fn bills(&self) -> (bills: &BillState)
        ensures
            bills@ == self@.bills,
    {
        &self.bills
    }

    /// The weather cards that came last.
    pub fn weather(&self) -> (cards: &Vec<WeatherCard>)
        ensures
            cards@ == self@.weather,
    {
        &self.weather
    }

    /// Whether the screen is to be cleared before the next frame. Asking
    /// takes the request back.
    pub fn take_redraw(&mut self) -> (due: bool)
        ensures
            due == old(self)@.force_redraw,
            final(self)@ == (DashboardView { force_redraw: false, ..old(self)@ }),
    {
        let due = self.force_redraw;
        self.force_redraw = false;
        due
    }

    /// Handles a key event. Anything but a press is ignored.
    pub fn handle_event(&mut self, key: Key, kind: KeyKind) -> (action: Action)
        requires
            old(self)@.wf(),
        ensures
            final(self)@.wf(),
            kind == KeyKind::Press ==> (final(self)@, action) == old(self)@.step(key),
            kind != KeyKind::Press ==> final(self)@ == old(self)@ && action == Action::Nothing,
    {
        match kind {
            KeyKind::Press => self.handle_key(key),
            _ => Action::Nothing,
        }
    }

    /// Handles a key press: moves to the next state and says what is left
    /// for the host to do.
    pub fn handle_key(&mut self, key: Key) -> (action: Action)
        requires
            old(self)@.wf(),
        ensures
            final(self)@.wf(),
            (final(self)@, action) == old(self)@.step(key),
    {
        match self.state {
            AppState::MainMenu => self.menu_key(key),
            AppState::TodoView => self.table_key(MenuItem::Todo, key),
            AppState::CyberView => self.table_key(MenuItem::Cyber, key),
            AppState::BillView => self.bill_key(key),
        }
    }

    fn menu_key(&mut self, key: Key) -> (action: Action)
        requires
            old(self)@.wf(),
        ensures
            final(self)@.wf(),
            (final(self)@, action) == old(self)@.menu_step(key),
    {
        let up = match key {
            Key::Up => true,
            Key::Char(c) => c == 'k',
            _ => false,
        };
        let down = match key {
            Key::Down => true,
            Key::Char(c) => c == 'j',
            _ => false,
        };
        let quit = match key {
            Key::Esc => true,
            Key::Char(c) => c == 'q',
            _ => false,
        };
        let weather = match key {
            Key::Char(c) => c == 'w',
            _ => false,
        };
        let enter = match key {
            Key::Enter => true,
            _ => false,
        };
        if quit {
            Action::Quit
        } else if up {
            self.selected = if self.selected == 0 {
                MENU_LEN - 1
            } else {
                self.selected - 1
            };
            self.last_msg = None;
            Action::Nothing
        } else if down {
            self.selected = (self.selected + 1) % MENU_LEN;
            self.last_msg = None;
            Action::Nothing
        } else if enter {
            if self.selected == 0 {
                Action::LoadTable(MenuItem::Todo)
            } else if self.selected == 1 {
                Action::ListBills
            } else {
                Action::LoadTable(MenuItem::Cyber)
            }
        } else if weather {
            Action::FetchWeather
        } else {
            Action::Nothing
        }
    }

    fn table_key(&mut self, item: MenuItem, key: Key) -> (action: Action)
        requires
            old(self)@.wf(),
            item != MenuItem::Bill,
        ensures
            final(self)@.wf(),
            (final(self)@, action) == old(self)@.table_step(item, key),
    {
        let up = match key {
            Key::Up => true,
            Key::Char(c) => c == 'k',
            _ => false,
        };
        let down = match key {
            Key::Down => true,
            Key::Char(c) => c == 'j',
            _ => false,
        };
        let letter = match key {
            Key::Char(c) => c,
            _ => ' ',
        };
        let is_letter = match key {
            Key::Char(_) => true,
            _ => false,
        };
        if is_letter && letter == 'q' {
            self.state = AppState::MainMenu;
            match item {
                MenuItem::Todo => {
                    self.todo_scroll = 0;
                },
                _ => {
                    self.cyber_scroll = 0;
                },
            }
            Action::Nothing
        } else if is_letter && letter == 'e' {
            Action::EditTable(item)
        } else if is_letter && letter == 'r' {
            Action::LoadTable(item)
        } else if up {
            match item {
                MenuItem::Todo => {
                    let mut offset = self.todo_scroll;
                    scroll_up(&mut offset);
                    self.todo_scroll = offset;
                },
                _ => {
                    let mut offset = self.cyber_scroll;
                    scroll_up(&mut offset);
                    self.cyber_scroll = offset;
                },
            }
            Action::Nothing
        } else if down {
            match item {
                MenuItem::Todo => {
                    let mut offset = self.todo_scroll;
                    scroll_down(&mut offset, self.todo.len());
                    self.todo_scroll = offset;
                },
                _ => {
                    let mut offset = self.cyber_scroll;
                    scroll_down(&mut offset, self.cyber.len());
                    self.cyber_scroll = offset;
                },
            }
            Action::Nothing
        } else {
            Action::Nothing
        }
    }

    fn bill_key(&mut self, key: Key) -> (action: Action)
        requires
            old(self)@.wf(),
        ensures
            final(self)@.wf(),
            (final(self)@, action) == old(self)@.bill_step(key),
    {
        let letter = match key {
            Key::Char(c) => c,
            _ => {
                return Action::Nothing;
            },
        };
        if letter == 'q' {
            self.state = AppState::MainMenu;
            self.force_redraw = true;
            Action::Nothing
        } else if letter == 'r' {
            Action::ListBills
        } else if letter == 'a' {
            Action::AnalyzeBills
        } else if letter == 'o' {
            if self.bills.aggregate().is_empty() {
                self.last_msg = Some("press a to analyze first".to_owned());
                self.force_redraw = true;
                Action::Nothing
            } else {
                Action::PromptExport
            }
        } else {
            Action::Nothing
        }
    }

    /// Takes the source of a table as it was read, or `None` when it could
    /// not be read: the rows are read from it with at least one cell each,
    /// the table opens at its top, and its view has the keyboard.
    pub fn table_loaded(&mut self, item: MenuItem, content: Option<&str>)
        requires
            old(self)@.wf(),
            item != MenuItem::Bill,
        ensures
            final(self)@.wf(),
            final(self)@ == old(self)@.after_load(
                item,
                match content {
                    Some(text) => Some(text@),
                    None => None,
                },
            ),
    {
        if self.state == AppState::MainMenu {
            self.last_msg = None;
        }
        self.state = item.view_state();
        match item {
            MenuItem::Todo => {
                let mut rows: Vec<Vec<String>> = Vec::new();
                let mut offset: usize = 0;
                load_table(&mut rows, &mut offset, content);
                self.todo = rows;
                self.todo_scroll = offset;
            },
            _ => {
                let mut rows: Vec<Vec<String>> = Vec::new();
                let mut offset: usize = 0;
                load_table(&mut rows, &mut offset, content);
                self.cyber = rows;
                self.cyber_scroll = offset;
            },
        }
    }

    /// Takes the outcome of a visit to the editor: whether the editor ended
    /// well, and the source as it was read after that. The rows are replaced,
    /// or dropped when the editor failed or the source could not be read, and
    /// a full redraw is due. When the source could not be read after the
    /// edit the dashboard goes back to the main menu.
    pub fn table_edited(&mut self, item: MenuItem, edited: bool, content: Option<&str>)
        requires
            old(self)@.wf(),
            item != MenuItem::Bill,
        ensures
            final(self)@.wf(),
            final(self)@ == old(self)@.after_edit(
                item,
                edited,
                match content {
                    Some(text) => Some(text@),
                    None => None,
                },
            ),
    {
        let mut rows: Vec<Vec<String>> = Vec::new();
        let mut offset: usize = 0;
        let mut redraw = false;
        edit_table(&mut rows, &mut offset, edited, content, &mut redraw);
        match item {
            MenuItem::Todo => {
                self.todo = rows;
                self.todo_scroll = offset;
            },
            _ => {
                self.cyber = rows;
                self.cyber_scroll = offset;
            },
        }
        self.force_redraw = redraw;
        if edited && content.is_none() {
            self.state = AppState::MainMenu;
        }
    }

    /// Takes the listing of the watched directory, or the reason why it
    /// could not be listed. A listing refreshes the catalog. Coming from the
    /// menu, the bill view opens without a message, whether the listing came
    /// or not; in the bill view the message says how many files are pending,
    /// or why the refresh failed. A full redraw is due.
    pub fn bills_listed(&mut self, listing: Result<Vec<String>, String>)
        requires
            old(self)@.wf(),
        ensures
            final(self)@.wf(),
            final(self)@.state == AppState::BillView,
            final(self)@.force_redraw,
            final(self)@.selected == old(self)@.selected,
            final(self)@.todo == old(self)@.todo,
            final(self)@.todo_scroll == old(self)@.todo_scroll,
            final(self)@.cyber == old(self)@.cyber,
            final(self)@.cyber_scroll == old(self)@.cyber_scroll,
            final(self)@.weather == old(self)@.weather,
            final(self)@.bills.bill_dir == old(self)@.bills.bill_dir,
            final(self)@.bills.processed == old(self)@.bills.processed,
            final(self)@.bills.aggregate == old(self)@.bills.aggregate,
            match listing {
                Ok(paths) => final(self)@.bills.files.to_multiset() == bill_paths(
                    strings_view(paths@),
                ).to_multiset(),
                Err(_) => final(self)@.bills.files == old(self)@.bills.files,
            },
            final(self)@.last_msg == if old(self)@.state == AppState::MainMenu {
                None
            } else {
                match listing {
                    Ok(_) => Some(pending_text(final(self)@.bills)),
                    Err(reason) => Some(refresh_failed_text(reason@)),
                }
            },
    {
        let entering = self.state == AppState::MainMenu;
        let message = match listing {
            Ok(paths) => {
                self.bills.refresh_files(&paths);
                self.bills.pending_line()
            },
            Err(reason) => {
                let mut message = "refresh failed: ".to_owned();
                message.append(reason.as_str());
                message
            },
        };
        self.last_msg = if entering {
            None
        } else {
            Some(message)
        };
        self.state = AppState::BillView;
        self.force_redraw = true;
    }

    /// Takes what was read from the files of the catalog, one entry for each
    /// file in catalog order, and runs over the pending ones. The message
    /// says how the run ended, and a full redraw is due.
    pub fn bills_analyzed(&mut self, loaded: &Vec<FileData>) -> (result: Result<usize, IngestError>)
        requires
            old(self)@.wf(),
            loaded.len() == old(self)@.bills.files.len(),
        ensures
            final(self)@.wf(),
            final(self)@ == (DashboardView {
                bills: final(self)@.bills,
                last_msg: final(self)@.last_msg,
                force_redraw: true,
                ..old(self)@
            }),
            final(self)@.bills == (BillStateView {
                processed: run_over(
                    old(self)@.bills.files,
                    loaded_view(loaded@),
                    old(self)@.bills.processed,
                    old(self)@.bills.aggregate,
                ).processed,
                aggregate: run_over(
                    old(self)@.bills.files,
                    loaded_view(loaded@),
                    old(self)@.bills.processed,
                    old(self)@.bills.aggregate,
                ).aggregate,
                ..old(self)@.bills
            }),
            match result {
                Ok(n) => Ok(n as nat),
                Err(e) => Err(e),
            } == run_report(
                run_over(
                    old(self)@.bills.files,
                    loaded_view(loaded@),
                    old(self)@.bills.processed,
                    old(self)@.bills.aggregate,
                ),
            ),
            final(self)@.last_msg == Some(
                run_text(
                    run_report(
                        run_over(
                            old(self)@.bills.files,
                            loaded_view(loaded@),
                            old(self)@.bills.processed,
                            old(self)@.bills.aggregate,
                        ),
                    ),
                    final(self)@.bills,
                ),
            ),
    {
        let result = self.bills.analyze_pending(loaded);
        let message = match result {
            Ok(n) => {
                let count = decimal_string(n);
                let mut message = "analyzed ".to_owned();
                message.append(count.as_str());
                message.append(" statement(s) | ");
                if self.bills.aggregate().is_empty() {
                    message.append("no figures yet");
                } else {
                    let net = self.bills.aggregate().net_line();
                    message.append(net.as_str());
                }
                message
            },
            Err(IngestError::NothingPending) => "no statement to analyze".to_owned(),
            Err(IngestError::Failed(e)) => {
                let mut message = "analysis failed: ".to_owned();
                message.append(e.message());
                message
            },
        };
        self.last_msg = Some(message);
        self.force_redraw = true;
        result
    }

    /// Takes the outcome of an export: the message says how it ended, and a
    /// full redraw is due.
    pub fn export_finished(&mut self, outcome: ExportOutcome)
        ensures
            final(self)@ == (DashboardView {
                last_msg: Some(export_text(outcome)),
                force_redraw: true,
                ..old(self)@
            }),
    {
        let message = match &outcome {
            ExportOutcome::Written { count, dir } => {
                let number = decimal_string(*count);
                let mut message = "exported ".to_owned();
                message.append(number.as_str());
                message.append(" report(s) to ");
                message.append(dir.as_str());
                message
            },
            ExportOutcome::WriteFailed(reason) => {
                let mut message = "export failed: ".to_owned();
                message.append(reason.as_str());
                message
            },
            ExportOutcome::PromptFailed(reason) => {
                let mut message = "cannot take the export directory: ".to_owned();
                message.append(reason.as_str());
                message
            },
        };
        self.last_msg = Some(message);
        self.force_redraw = true;
    }

    /// Takes the weather cards that came: they replace the ones shown, and
    /// a full redraw is due.
    pub fn weather_loaded(&mut self, cards: Vec<WeatherCard>)
        ensures
            final(self)@ == (DashboardView { weather: cards@, force_redraw: true, ..old(self)@ }),
    {
        self.weather = cards;
        self.force_redraw = true;
    }
}

} // verus!
