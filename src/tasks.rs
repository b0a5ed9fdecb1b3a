use vstd::prelude::*;

use crate::geometry::{fits_i32, Vec2};
use crate::layout::{Layout, LayoutKind, Style, Ui};
use crate::list::{lemma_titles_commute, titles, ListModel, ListView, Status};
use crate::text_edit::{edit_step, EditView, Key, TextEditState};

verus! {

/// The whole task manager as plain values.
pub struct TasksView {
    pub todos: ListView<Seq<char>>,
    pub dones: ListView<Seq<char>>,
    pub panel: Status,
    pub editing: Option<EditView>,
    pub notification: Seq<char>,
    pub quit: bool,
}

impl TasksView {
    /// The list of `status`.
    pub open spec fn list(self, status: Status) -> ListView<Seq<char>> {
        match status {
            Status::Todo => self.todos,
            Status::Done => self.dones,
        }
    }

    /// The list that has the focus.
    pub open spec fn active(self) -> ListView<Seq<char>> {
        self.list(self.panel)
    }

    /// This state with the focused list replaced by `l`.
    pub open spec fn with_active(self, l: ListView<Seq<char>>) -> TasksView {
        match self.panel {
            Status::Todo => TasksView { todos: l, ..self },
            Status::Done => TasksView { dones: l, ..self },
        }
    }

    /// Both cursors are in range and a text under edit is the focused title,
    /// with its cursor inside it.
    pub open spec fn wf(self) -> bool {
        &&& self.todos.wf()
        &&& self.dones.wf()
        &&& self.editing matches Some(e) ==> {
            &&& e.wf()
            &&& self.active().items.len() > 0
            &&& e.buffer == self.active().items[self.active().cursor]
        }
    }
}

/// The list command that `key` stands for, applied to `l`; `None` when the
/// key is no list command.
pub open spec fn list_command<T>(l: ListView<T>, key: Key) -> Option<ListView<T>> {
    match key {
        Key::Char(c) => if c == 'K' {
            Some(l.drag_up())
        } else if c == 'J' {
            Some(l.drag_down())
        } else if c == 'k' {
            Some(l.nav_up())
        } else if c == 'j' {
            Some(l.nav_down())
        } else if c == 'g' {
            Some(l.nav_first())
        } else if c == 'G' {
            Some(l.nav_last())
        } else {
            None
        },
        _ => None,
    }
}

/// What a key does when no text is under edit.
pub open spec fn normal_step(v: TasksView, key: Key) -> TasksView {
    let l = v.active();
    if key == Key::Char('r') && l.items.len() > 0 {
        TasksView {
            editing: Some(EditView { buffer: l.items[l.cursor], cursor: l.items[l.cursor].len() as int }),
            ..v
        }
    } else if list_command(l, key) is Some {
        v.with_active(list_command(l, key)->0)
    } else if key == Key::Char('\n') {
        match v.panel {
            Status::Todo => {
                let (src, dst) = v.todos.transfer(v.dones);
                TasksView { todos: src, dones: dst, notification: "DONE!"@, ..v }
            },
            Status::Done => {
                let (src, dst) = v.dones.transfer(v.todos);
                TasksView { todos: dst, dones: src, notification: "No, not done yet..."@, ..v }
            },
        }
    } else if key == Key::Char('d') && v.panel == Status::Done {
        TasksView { dones: v.dones.purge_current(), notification: "Into The Abyss!"@, ..v }
    } else if key == Key::Char('\t') {
        TasksView { panel: v.panel.spec_toggle(), ..v }
    } else if key == Key::Char('q') {
        TasksView { quit: true, ..v }
    } else {
        v
    }
}

/// What a key does: it clears the notification, then goes to the text under
/// edit if there is one (a newline that the widget leaves ends the edit, any
/// other key it leaves is dropped), and else to the focused list, the panel
/// switch and quitting, in that order.
pub open spec fn key_step(v: TasksView, key: Key) -> TasksView {
    let v0 = TasksView { notification: Seq::empty(), ..v };
    match v.editing {
        Some(e) => {
            let (e2, left) = edit_step(e, key);
            let v1 = v0.with_active(v0.active().renamed(e2.buffer));
            if left == Some(Key::Char('\n')) {
                TasksView { editing: None, ..v1 }
            } else {
                TasksView { editing: Some(e2), ..v1 }
            }
        },
        None => normal_step(v0, key),
    }
}

/// A glyph run as plain values: column, row, text and style.
pub type Run = (int, int, Seq<char>, Style);

/// The mark in front of a title of `status`.
pub open spec fn mark(status: Status) -> Seq<char> {
    match status {
        Status::Todo => "- [ ] "@,
        Status::Done => "- [x] "@,
    }
}

/// The heading of the column of `status`.
pub open spec fn heading(status: Status) -> Seq<char> {
    match status {
        Status::Todo => "TODO"@,
        Status::Done => "DONE"@,
    }
}

/// The runs of row `i` of the column of `status` whose heading is at `(x, y)`.
pub open spec fn row_runs(v: TasksView, status: Status, x: int, y: int, i: int) -> Seq<Run> {
    let l = v.list(status);
    let row = y + 1 + i;
    if v.panel == status && i == l.cursor {
        match v.editing {
            Some(e) => seq![(x, row, e.buffer, Style::Regular), (x + e.cursor, row, e.cursor_cell(), Style::Highlight)],
            None => seq![(x, row, mark(status) + l.items[i], Style::Highlight)],
        }
    } else {
        seq![(x, row, mark(status) + l.items[i], Style::Regular)]
    }
}

/// The runs of the first `k` rows of a column.
pub open spec fn rows_runs(v: TasksView, status: Status, x: int, y: int, k: nat) -> Seq<Run>
    decreases k,
{
    if k == 0 {
        Seq::empty()
    } else {
        rows_runs(v, status, x, y, (k - 1) as nat) + row_runs(v, status, x, y, k - 1)
    }
}

/// The runs of the column of `status` whose heading is at `(x, y)`.
pub open spec fn column_runs(v: TasksView, status: Status, x: int, y: int) -> Seq<Run> {
    let style = if v.panel == status {
        Style::Highlight
    } else {
        Style::Regular
    };
    seq![(x, y, heading(status), style)] + rows_runs(v, status, x, y, v.list(status).items.len())
}

/// The runs of a frame `width` columns wide: the notification, a blank line,
/// and the two columns side by side.
pub open spec fn frame_runs(v: TasksView, width: int) -> Seq<Run> {
    seq![(0, 0, v.notification, Style::Regular), (0, 1, ""@, Style::Regular)] + column_runs(
        v,
        Status::Todo,
        0,
        2,
    ) + column_runs(v, Status::Done, width / 2, 2)
}

/// Whether a frame `width` columns wide has all its positions in range.
pub open spec fn renderable(v: TasksView, width: int) -> bool {
    &&& 0 <= width <= i32::MAX
    &&& v.todos.items.len() + 3 <= i32::MAX
    &&& v.dones.items.len() + 3 <= i32::MAX
    &&& v.editing matches Some(e) ==> width / 2 + e.cursor <= i32::MAX
}

/// Two task lists, the panel that has the focus, an optional text under
/// edit, a one-line notification and whether the user asked to quit.
pub struct TaskManager {
    todos: ListModel,
    dones: ListModel,
    panel: Status,
    editing: Option<TextEditState>,
    notification: String,
    quit: bool,
}

impl View for TaskManager {
    type V = TasksView;

    closed spec fn view(&self) -> TasksView {
        TasksView {
            todos: titles(self.todos@),
            dones: titles(self.dones@),
            panel: self.panel,
            editing: match self.editing {
                Some(e) => Some(e@),
                None => None,
            },
            notification: self.notification@,
            quit: self.quit,
        }
    }
}

/// Applies the list command that `key` stands for; false when it is none.
fn apply_list_command(l: &mut ListModel, key: Key) -> (r: bool)
    requires
        old(l)@.wf(),
    ensures
        match list_command(old(l)@, key) {
            Some(n) => r && final(l)@ == n,
            None => !r && final(l)@ == old(l)@,
        },
        final(l)@.wf(),
{
    match key {
        Key::Char(c) => {
            if c == 'K' {
                l.drag_up();
            } else if c == 'J' {
                l.drag_down();
            } else if c == 'k' {
                l.nav_up();
            } else if c == 'j' {
                l.nav_down();
            } else if c == 'g' {
                l.nav_first();
            } else if c == 'G' {
                l.nav_last();
            } else {
                return false;
            }
            true
        },
        _ => false,
    }
}

impl TaskManager {
    /// Starts on the pending list, with both cursors on the first title and
    /// nothing under edit.
    pub fn new(todos: Vec<String>, dones: Vec<String>, notification: String) -> (r: TaskManager)
        ensures
            r@.todos == titles(ListView { items: todos@, cursor: 0 }),
            r@.dones == titles(ListView { items: dones@, cursor: 0 }),
            r@.panel == Status::Todo,
            r@.editing is None,
            r@.notification == notification@,
            !r@.quit,
            r@.wf(),
    {
        let r = TaskManager {
            todos: ListModel::from_items(todos),
            dones: ListModel::from_items(dones),
            panel: Status::Todo,
            editing: None,
            notification,
            quit: false,
        };
        proof {
            lemma_titles_commute(r.todos@, r.dones@);
            lemma_titles_commute(r.dones@, r.todos@);
        }
        r
    }

    pub fn todos(&self) -> (r: &ListModel)
        ensures
            titles(r@) == self@.todos,
    {
        &self.todos
    }

    pub fn dones(&self) -> (r: &ListModel)
        ensures
            titles(r@) == self@.dones,
    {
        &self.dones
    }

    pub fn panel(&self) -> (r: Status)
        ensures
            r == self@.panel,
    {
        self.panel
    }

    pub fn is_editing(&self) -> (r: bool)
        ensures
            r == self@.editing is Some,
    {
        self.editing.is_some()
    }

    pub fn notification(&self) -> (r: &String)
        ensures
            r@ == self@.notification,
    {
        &self.notification
    }

    /// Whether a frame `width` columns wide can be drawn: every position in it
    /// fits in an `i32`.
    pub fn can_render(&self, width: i32) -> (r: bool)
        ensures
            r == renderable(self@, width as int),
    {
        let limit: usize = (i32::MAX - 3) as usize;
        if width < 0 || self.todos.len() > limit || self.dones.len() > limit {
            return false;
        }
        match &self.editing {
            Some(e) => e.cursor() <= (i32::MAX - width / 2) as usize,
            None => true,
        }
    }

    /// Replaces the notification line.
    pub fn notify(&mut self, text: String)
        ensures
            final(self)@ == (TasksView { notification: text@, ..old(self)@ }),
    {
        self.notification = text;
    }

    pub fn should_quit(&self) -> (r: bool)
        ensures
            r == self@.quit,
    {
        self.quit
    }

    fn rename_active(&mut self, title: String)
        requires
            old(self).todos@.wf(),
            old(self).dones@.wf(),
        ensures
            final(self)@ == old(self)@.with_active(old(self)@.active().renamed(title@)),
            final(self).todos@.wf(),
            final(self).dones@.wf(),
            final(self).panel == old(self).panel,
    {
        proof {
            lemma_titles_commute(self.todos@, self.dones@);
            lemma_titles_commute(self.dones@, self.todos@);
        }
        match self.panel {
            Status::Todo => self.todos.rename_current(title),
            Status::Done => self.dones.rename_current(title),
        }
        proof {
            lemma_titles_commute(self.todos@, self.dones@);
            lemma_titles_commute(self.dones@, self.todos@);
        }
    }

    /// Handles one key press.
    pub fn handle_key(&mut self, key: Key)
        requires
            old(self)@.wf(),
        ensures
            final(self)@ == key_step(old(self)@, key),
            final(self)@.wf(),
    {
        self.notification = String::new();
        let mut editing: Option<TextEditState> = None;
        std::mem::swap(&mut editing, &mut self.editing);
        match editing {
            Some(mut e) => {
                let left = e.apply_key(key);
                let text = e.text();
                self.rename_active(text);
                let ends = match left {
                    Some(Key::Char(c)) => c == '\n',
                    _ => false,
                };
                if !ends {
                    self.editing = Some(e);
                }
            },
            None => self.normal_key(key),
        }
    }

    /// Draws the column of `status` as a vertical layout at the next free
    /// position of the current layout, each label `width` columns wide.
    fn render_column(&self, ui: &mut Ui, status: Status, width: i32)
        requires
            self@.wf(),
            0 <= width,
            old(ui).depth() >= 1,
            old(ui).top().avail_fits(),
            old(ui).top().avail_x() >= 0,
            old(ui).top().avail_y() >= 0,
            old(ui).top().avail_y() + 1 + self@.list(status).items.len() <= i32::MAX,
            old(ui).top().grow_fits(width as int, 1 + self@.list(status).items.len() as int),
            self@.panel == status && self@.editing is Some ==> old(ui).top().avail_x()
                + self@.editing->0.cursor <= i32::MAX,
        ensures
            final(ui).stack() == old(ui).stack().drop_last().push(
                old(ui).top().grown(width as int, 1 + self@.list(status).items.len() as int),
            ),
            final(ui).drawn() == old(ui).drawn() + column_runs(
                self@,
                status,
                old(ui).top().avail_x(),
                old(ui).top().avail_y(),
            ),
    {
        let ghost outer = ui.top();
        let ghost base = ui.stack();
        let ghost start = ui.drawn();
        let ghost ax = outer.avail_x();
        let ghost ay = outer.avail_y();
        let ghost v = self@;
        let ghost n = v.list(status).items.len();
        ui.begin_layout(LayoutKind::Vert);
        let highlight = self.panel == status;
        let head_style = if highlight {
            Style::Highlight
        } else {
            Style::Regular
        };
        let (head, mark_text) = match status {
            Status::Todo => ("TODO", "- [ ] "),
            Status::Done => ("DONE", "- [x] "),
        };
        ui.label_fixed_width(head, width, head_style);
        let list = match status {
            Status::Todo => &self.todos,
            Status::Done => &self.dones,
        };
        let items = list.items();
        let cursor = list.cursor();
        let mut i: usize = 0;
        assert(rows_runs(v, status, ax, ay, 0) =~= Seq::<Run>::empty());
        assert(start.push((ax, ay, heading(status), head_style)) =~= start + seq![(ax, ay, heading(status), head_style)]
            + rows_runs(v, status, ax, ay, 0));
        while i < items.len()
            invariant
                v == self@,
                v.wf(),
                titles(list@) == v.list(status),
                items@ == list@.items,
                cursor == list@.cursor,
                highlight == (v.panel == status),
                mark_text@ == mark(status),
                0 <= width,
                0 <= ax,
                0 <= ay,
                base.len() >= 1,
                base.last() == outer,
                outer.grow_fits(width as int, 1 + n as int),
                fits_i32(ax),
                fits_i32(ay),
                i <= n,
                n == items@.len(),
                ay + 1 + n <= i32::MAX,
                v.panel == status && v.editing is Some ==> ax + v.editing->0.cursor <= i32::MAX,
                ui.stack() == base.push(
                    Layout {
                        kind: LayoutKind::Vert,
                        pos: Vec2 { x: ax as i32, y: ay as i32 },
                        size: Vec2 { x: width, y: (1 + i) as i32 },
                    },
                ),
                ui.drawn() == start + seq![(ax, ay, heading(status), head_style)] + rows_runs(v, status, ax, ay, i as nat),
            decreases n - i,
        {
            let title = &items[i];
            if highlight && i == cursor && self.editing.is_some() {
                match &self.editing {
                    Some(e) => {
                        ui.edit_field(e, width);
                    },
                    None => {},
                }
            } else {
                let mut line = String::from_str(mark_text);
                line.append(title.as_str());
                let style = if highlight && i == cursor {
                    Style::Highlight
                } else {
                    Style::Regular
                };
                ui.label_fixed_width(line.as_str(), width, style);
            }
            assert(ui.drawn() =~= start + seq![(ax, ay, heading(status), head_style)] + rows_runs(
                v,
                status,
                ax,
                ay,
                (i + 1) as nat,
            ));
            i = i + 1;
        }
        ui.end_layout();
    }

    /// Draws the whole frame, `width` columns wide: the notification line, a
    /// blank line, then the pending and the finished tasks side by side, each
    /// column half the width.
    pub fn render(&self, ui: &mut Ui, width: i32)
        requires
            self@.wf(),
            renderable(self@, width as int),
            old(ui).depth() == 0,
        ensures
            final(ui).depth() == 0,
            final(ui).drawn() == old(ui).drawn() + frame_runs(self@, width as int),
    {
        let ghost start = ui.drawn();
        let _ = ui.begin(Vec2::new(0, 0), LayoutKind::Vert);
        let _ = ui.label_fixed_width(self.notification.as_str(), width, Style::Regular);
        let _ = ui.label_fixed_width("", width, Style::Regular);
        let _ = ui.begin_layout(LayoutKind::Horz);
        let half = width / 2;
        self.render_column(ui, Status::Todo, half);
        self.render_column(ui, Status::Done, half);
        let _ = ui.end_layout();
        let _ = ui.end();
        assert(ui.drawn() =~= start + frame_runs(self@, width as int));
    }

    fn normal_key(&mut self, key: Key)
        requires
            old(self)@.wf(),
            old(self).editing is None,
        ensures
            final(self)@ == normal_step(old(self)@, key),
            final(self)@.wf(),
    {
        proof {
            lemma_titles_commute(self.todos@, self.dones@);
            lemma_titles_commute(self.dones@, self.todos@);
        }
        let (is_char, c) = match key {
            Key::Char(c) => (true, c),
            _ => (false, ' '),
        };
        let is_r = is_char && c == 'r';
        if is_r {
            let current = match self.panel {
                Status::Todo => self.todos.current(),
                Status::Done => self.dones.current(),
            };
            match current {
                Some(title) => {
                    let e = TextEditState::from_text(title.as_str());
                    self.editing = Some(e);
                    return;
                },
                None => {},
            }
        }
        let used = match self.panel {
            Status::Todo => apply_list_command(&mut self.todos, key),
            Status::Done => apply_list_command(&mut self.dones, key),
        };
        if used {
            return;
        }
        if is_char && c == '\n' {
            match self.panel {
                Status::Todo => {
                    self.todos.transfer(&mut self.dones);
                    self.notification = String::from_str("DONE!");
                },
                Status::Done => {
                    self.dones.transfer(&mut self.todos);
                    self.notification = String::from_str("No, not done yet...");
                },
            }
        } else if is_char && c == 'd' && self.panel == Status::Done {
            self.dones.purge_current();
            self.notification = String::from_str("Into The Abyss!");
        } else if is_char && c == '\t' {
            self.panel = self.panel.toggle();
        } else if is_char && c == 'q' {
            self.quit = true;
        }
    }
}

} // verus!
