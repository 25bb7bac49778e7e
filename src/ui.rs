//! The state and key handling of the terminal front end, apart from drawing: which part has
//! the focus, which popups are open, and what a key press asks for.
use vstd::prelude::*;
use vstd::string::StrSliceExecFns;

verus! {

/// A key press, as far as the front end cares.
#[derive(Debug, Clone, Copy, PartialEq, Eq, Structural)]
pub enum Key {
    Esc,
    Enter,
    Char(char),
    /// Any other key.
    Other,
}

/// Which part of the main screen takes key presses.
#[derive(Debug, Clone, Copy, PartialEq, Eq, Structural)]
pub enum Focus {
    /// Keys are commands.
    Normal,
    /// Keys go to the text box.
    TextBox,
}

/// How large a popup wants to be along one axis.
#[derive(Debug, Clone, Copy, PartialEq, Eq, Structural)]
pub enum SizeKind {
    /// This share of the screen, in percent.
    Percentage(u16),
    /// Exactly this many cells.
    Exact(u16),
}

/// How serious a notice is.
#[derive(Debug, Clone, Copy, PartialEq, Eq, Structural)]
pub enum NoticeLevel {
    Notification,
    Warning,
    Error,
}

/// A popup that shows a message until it is dismissed.
#[derive(Debug, Clone)]
pub struct NoticePopup {
    pub message: String,
    pub level: NoticeLevel,
}

/// The popup that asks whether to quit.
#[derive(Debug, Clone, Copy)]
pub struct QuitPopup;

/// The popup that asks for the address of a server.
#[derive(Debug, Clone, Copy)]
pub struct ConnectPopup;

/// The popup that lists the commands.
#[derive(Debug, Clone, Copy)]
pub struct CommandsPopup;

/// The popups that can be open.
#[derive(Debug, Clone)]
pub enum Popup {
    Commands,
    Quit,
    /// Asks for the address of a server.
    Connect,
    Notice(NoticePopup),
}

/// What a key press asks for.
#[derive(Debug, Clone)]
pub enum Action {
    /// Nothing to do.
    Nothing,
    Quit,
    PushPopup(Popup),
    PopPopup,
    ChangeFocus(Focus),
    /// Hand the key to the text box that has the focus.
    ForwardToInput,
    /// Take the text of the text box that has the focus: a message to send, or the address
    /// of a server to connect to.
    Submit,
}

/// The side panel: the server that the client is connected to, if any.
#[derive(Debug, Clone)]
pub struct Sidebar {
    pub connected_addr: Option<String>,
}

/// Columns between the key and the action in the commands popup.
pub const COLUMN_SPACING: u16 = 5;

/// The rows of the commands popup: a key, and what it does.
pub open spec fn command_rows_spec() -> Seq<(&'static str, &'static str)> {
    seq![("Esc", "Close this menu."), ("q", "Quit the application."), ("c", "Connect to a server.")]
}

/// The rows of the commands popup.
pub fn command_rows() -> (r: Vec<(&'static str, &'static str)>)
    ensures
        r@ == command_rows_spec(),
{
    vec![("Esc", "Close this menu."), ("q", "Quit the application."), ("c", "Connect to a server.")]
}

/// `n`, or the largest `u16` if `n` is larger.
pub open spec fn clamp16(n: nat) -> nat {
    if n > u16::MAX {
        u16::MAX as nat
    } else {
        n
    }
}

/// The length in characters of one column of a row: the key (0) or the action (any other index).
pub open spec fn cell_len(row: (&str, &str), index: usize) -> nat {
    if index == 0 {
        row.0@.len()
    } else {
        row.1@.len()
    }
}

/// The longest cell of a column among the first `n` rows.
pub open spec fn column_width(rows: Seq<(&str, &str)>, index: usize, n: nat) -> nat
    decreases n,
{
    if n == 0 {
        0
    } else {
        let w = column_width(rows, index, (n - 1) as nat);
        let c = cell_len(rows[n - 1], index);
        if c > w {
            c
        } else {
            w
        }
    }
}

/// The width of a column of `rows`: the length in characters of its longest cell, or the largest `u16`
/// if that is larger.
pub fn max_len(rows: &[(&str, &str)], index: usize) -> (r: u16)
    ensures
        r as nat == clamp16(column_width(rows@, index, rows@.len())),
{
    let mut max: u16 = 0;
    let mut i: usize = 0;
    while i < rows.len()
        invariant
            i <= rows@.len(),
            max as nat == clamp16(column_width(rows@, index, i as nat)),
        decreases rows@.len() - i,
    {
        let row = rows[i];
        let s = if index == 0 {
            row.0
        } else {
            row.1
        };
        let len = s.unicode_len();
        assert(cell_len(rows@[i as int], index) == len);
        if len > max as usize {
            max = if len > u16::MAX as usize {
                u16::MAX
            } else {
                len as u16
            };
        }
        i += 1;
    }
    max
}

impl Focus {
    /// What a key press asks for, given this focus.
    pub fn handle_key(&self, key: Key) -> (r: Action)
        ensures
            match (*self, key) {
                (Focus::Normal, Key::Char('i')) => r == Action::ChangeFocus(Focus::TextBox),
                (Focus::Normal, Key::Esc) => r == Action::PushPopup(Popup::Commands),
                (Focus::Normal, _) => r == Action::Nothing,
                (Focus::TextBox, Key::Esc) => r == Action::ChangeFocus(Focus::Normal),
                (Focus::TextBox, Key::Enter) => r == Action::Submit,
                (Focus::TextBox, _) => r == Action::ForwardToInput,
            },
    {
        match self {
            Focus::Normal => match key {
                Key::Char('i') => Action::ChangeFocus(Focus::TextBox),
                Key::Esc => Action::PushPopup(Popup::Commands),
                _ => Action::Nothing,
            },
            Focus::TextBox => match key {
                Key::Esc => Action::ChangeFocus(Focus::Normal),
                Key::Enter => Action::Submit,
                _ => Action::ForwardToInput,
            },
        }
    }
}

impl CommandsPopup {
    /// The popup.
    pub fn create() -> (r: Popup)
        ensures
            r == Popup::Commands,
    {
        Popup::Commands
    }

    /// What a key press asks for.
    pub fn handle_key(&self, key: Key) -> (r: Action)
        ensures
            match key {
                Key::Esc => r == Action::PopPopup,
                Key::Char('q') => r == Action::PushPopup(Popup::Quit),
                Key::Char('c') => r == Action::PushPopup(Popup::Connect),
                _ => r == Action::Nothing,
            },
    {
        match key {
            Key::Esc => Action::PopPopup,
            Key::Char('q') => Action::PushPopup(Popup::Quit),
            Key::Char('c') => Action::PushPopup(Popup::Connect),
            _ => Action::Nothing,
        }
    }

    /// Wide enough for both columns, the spacing and the borders; high enough for the rows, the
    /// header and the borders.
    pub fn hint_size(&self) -> (r: (SizeKind, SizeKind))
        ensures
            r.0 matches SizeKind::Exact(w) && w as nat == clamp16(
                (column_width(command_rows_spec(), 0, 3) + column_width(command_rows_spec(), 1, 3)
                    + COLUMN_SPACING + 2) as nat,
            ),
            r.1 == SizeKind::Exact(6),
    {
        let rows = command_rows();
        let key = max_len(rows.as_slice(), 0);
        let action = max_len(rows.as_slice(), 1);
        let width = key.saturating_add(action).saturating_add(COLUMN_SPACING + 2);
        let height = (rows.len() + 3) as u16;
        (SizeKind::Exact(width), SizeKind::Exact(height))
    }
}

impl ConnectPopup {
    /// The popup.
    pub fn create() -> (r: Popup)
        ensures
            r == Popup::Connect,
    {
        Popup::Connect
    }

    /// What a key press asks for: Esc closes it, Enter takes the address typed so far, and
    /// every other key goes to the text box.
    pub fn handle_key(&self, key: Key) -> (r: Action)
        ensures
            match key {
                Key::Esc => r == Action::PopPopup,
                Key::Enter => r == Action::Submit,
                _ => r == Action::ForwardToInput,
            },
    {
        match key {
            Key::Esc => Action::PopPopup,
            Key::Enter => Action::Submit,
            _ => Action::ForwardToInput,
        }
    }

    /// Most of the screen's width, a small share of its height.
    pub fn hint_size(&self) -> (r: (SizeKind, SizeKind))
        ensures
            r == (SizeKind::Percentage(70), SizeKind::Percentage(10)),
    {
        (SizeKind::Percentage(70), SizeKind::Percentage(10))
    }
}

impl QuitPopup {
    /// The popup.
    pub fn create() -> (r: Popup)
        ensures
            r == Popup::Quit,
    {
        Popup::Quit
    }

    /// What a key press asks for.
    pub fn handle_key(&self, key: Key) -> (r: Action)
        ensures
            match key {
                Key::Char('y') => r == Action::Quit,
                Key::Char('n') | Key::Esc => r == Action::PopPopup,
                _ => r == Action::Nothing,
            },
    {
        match key {
            Key::Char('y') => Action::Quit,
            Key::Char('n') | Key::Esc => Action::PopPopup,
            _ => Action::Nothing,
        }
    }

    /// A fixed share of the screen.
    pub fn hint_size(&self) -> (r: (SizeKind, SizeKind))
        ensures
            r == (SizeKind::Percentage(30), SizeKind::Percentage(20)),
    {
        (SizeKind::Percentage(30), SizeKind::Percentage(20))
    }
}

impl NoticePopup {
    /// A popup that shows `message` at `level`.
    pub fn create(message: String, level: NoticeLevel) -> (r: Popup)
        ensures
            r == Popup::Notice(NoticePopup { message, level }),
    {
        Popup::Notice(NoticePopup { message, level })
    }

    /// Only Esc dismisses it.
    pub fn handle_key(&self, key: Key) -> (r: Action)
        ensures
            key == Key::Esc ==> r == Action::PopPopup,
            key != Key::Esc ==> r == Action::Nothing,
    {
        if key == Key::Esc {
            Action::PopPopup
        } else {
            Action::Nothing
        }
    }

    /// A fixed share of the screen.
    pub fn hint_size(&self) -> (r: (SizeKind, SizeKind))
        ensures
            r == (SizeKind::Percentage(60), SizeKind::Percentage(40)),
    {
        (SizeKind::Percentage(60), SizeKind::Percentage(40))
    }
}

impl Sidebar {
    /// A side panel that shows no connection.
    pub fn new() -> (r: Sidebar)
        ensures
            r.connected_addr is None,
    {
        Sidebar { connected_addr: None }
    }

    /// Shows a connection to `addr`.
    pub fn connect(&mut self, addr: String)
        ensures
            final(self).connected_addr == Some(addr),
    {
        self.connected_addr = Some(addr);
    }

    /// Shows no connection.
    pub fn disconnect(&mut self)
        ensures
            final(self).connected_addr is None,
    {
        self.connected_addr = None;
    }
}

} // verus!
