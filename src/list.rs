use vstd::prelude::*;

verus! {

/// Which of the two lists: pending tasks or finished ones.
#[derive(Clone, Copy, Debug, PartialEq, Eq, Structural)]
pub enum Status {
    Todo,
    Done,
}

impl Status {
    pub open spec fn spec_toggle(self) -> Status {
        match self {
            Status::Todo => Status::Done,
            Status::Done => Status::Todo,
        }
    }

    /// The other list.
    pub fn toggle(&self) -> (r: Status)
        ensures
            r == self.spec_toggle(),
    {
        match self {
            Status::Todo => Status::Done,
            Status::Done => Status::Todo,
        }
    }
}

/// A task list as plain values: its titles in order and the index of the
/// focused one.
pub struct ListView<T> {
    pub items: Seq<T>,
    pub cursor: int,
}

/// `s` with the entries at `i` and `j` exchanged.
pub open spec fn swapped<T>(s: Seq<T>, i: int, j: int) -> Seq<T> {
    s.update(i, s[j]).update(j, s[i])
}

impl<T> ListView<T> {
    /// The cursor is 0 on an empty list and a valid index otherwise.
    pub open spec fn wf(self) -> bool {
        if self.items.len() == 0 {
            self.cursor == 0
        } else {
            0 <= self.cursor < self.items.len()
        }
    }

    pub open spec fn with_cursor(self, cursor: int) -> ListView<T> {
        ListView { items: self.items, cursor }
    }

    pub open spec fn nav_up(self) -> ListView<T> {
        if self.cursor > 0 {
            self.with_cursor(self.cursor - 1)
        } else {
            self
        }
    }

    pub open spec fn nav_down(self) -> ListView<T> {
        if self.items.len() > 0 && self.cursor < self.items.len() - 1 {
            self.with_cursor(self.cursor + 1)
        } else {
            self
        }
    }

    pub open spec fn nav_first(self) -> ListView<T> {
        self.with_cursor(0)
    }

    pub open spec fn nav_last(self) -> ListView<T> {
        if self.items.len() > 0 {
            self.with_cursor(self.items.len() - 1)
        } else {
            self
        }
    }

    pub open spec fn drag_up(self) -> ListView<T> {
        if 0 < self.cursor < self.items.len() {
            ListView { items: swapped(self.items, self.cursor, self.cursor - 1), cursor: self.cursor - 1 }
        } else {
            self
        }
    }

    pub open spec fn drag_down(self) -> ListView<T> {
        if 0 <= self.cursor && self.cursor + 1 < self.items.len() {
            ListView { items: swapped(self.items, self.cursor, self.cursor + 1), cursor: self.cursor + 1 }
        } else {
            self
        }
    }

    /// The list without its focused item, the cursor pulled back onto the
    /// last item when it was the last one that went.
    pub open spec fn purge_current(self) -> ListView<T> {
        if 0 <= self.cursor < self.items.len() {
            let rest = self.items.remove(self.cursor);
            if self.cursor >= rest.len() && rest.len() > 0 {
                ListView { items: rest, cursor: rest.len() - 1 }
            } else {
                ListView { items: rest, cursor: self.cursor }
            }
        } else {
            self
        }
    }

    /// The focused item moved from this list to the end of `dst`: the new
    /// source, then the new destination.
    pub open spec fn transfer(self, dst: ListView<T>) -> (ListView<T>, ListView<T>) {
        if 0 <= self.cursor < self.items.len() {
            (
                self.purge_current(),
                ListView { items: dst.items.push(self.items[self.cursor]), cursor: dst.cursor },
            )
        } else {
            (self, dst)
        }
    }

    /// The focused item replaced by `title`.
    pub open spec fn renamed(self, title: T) -> ListView<T> {
        if 0 <= self.cursor < self.items.len() {
            ListView { items: self.items.update(self.cursor, title), cursor: self.cursor }
        } else {
            self
        }
    }
}

/// One step of cursor navigation.
#[derive(Clone, Copy, Debug, PartialEq, Eq, Structural)]
pub enum NavStep {
    Up,
    Down,
}

/// The list after the cursor moves by each of `steps` in turn.
pub open spec fn navigate<T>(l: ListView<T>, steps: Seq<NavStep>) -> ListView<T>
    decreases steps.len(),
{
    if steps.len() == 0 {
        l
    } else {
        let next = match steps[0] {
            NavStep::Up => l.nav_up(),
            NavStep::Down => l.nav_down(),
        };
        navigate(next, steps.drop_first())
    }
}

/// However the cursor is moved up and down, it stays on an item of the
/// list (on 0 when the list is empty), and the items stay as they were.
pub proof fn lemma_navigation_stays_in_range<T>(l: ListView<T>, steps: Seq<NavStep>)
    requires
        l.wf(),
    ensures
        navigate(l, steps).wf(),
        navigate(l, steps).items == l.items,
    decreases steps.len(),
{
    if steps.len() > 0 {
        let next = match steps[0] {
            NavStep::Up => l.nav_up(),
            NavStep::Down => l.nav_down(),
        };
        lemma_navigation_stays_in_range(next, steps.drop_first());
    }
}

/// Dragging an item up and then down again restores the list and the cursor,
/// and so does dragging it down and then up, except at the edge where the
/// first drag does nothing.
pub proof fn lemma_drag_round_trip<T>(l: ListView<T>)
    requires
        l.wf(),
    ensures
        l.cursor > 0 ==> l.drag_up().drag_down() == l,
        l.cursor + 1 < l.items.len() ==> l.drag_down().drag_up() == l,
        l.cursor == 0 ==> l.drag_up() == l,
        l.cursor + 1 >= l.items.len() ==> l.drag_down() == l,
{
    if l.cursor > 0 {
        assert(l.drag_up().drag_down().items =~= l.items);
    }
    if l.cursor + 1 < l.items.len() {
        assert(l.drag_down().drag_up().items =~= l.items);
    }
}

/// Moving the focused item to another list and, with the cursor of that list
/// on it, straight back again leaves the other list as it was and this list
/// with the same items, the moved one now at its end.
pub proof fn lemma_transfer_round_trip<T>(src: ListView<T>, dst: ListView<T>)
    requires
        src.wf(),
        dst.wf(),
        src.items.len() > 0,
    ensures
        ({
            let (src1, dst1) = src.transfer(dst);
            let (dst2, src2) = dst1.nav_last().transfer(src1);
            &&& dst2.items == dst.items
            &&& src2.items == src.items.remove(src.cursor).push(src.items[src.cursor])
            &&& src2.items.to_multiset() == src.items.to_multiset()
        }),
{
    let (src1, dst1) = src.transfer(dst);
    let back = dst1.nav_last();
    let (dst2, src2) = back.transfer(src1);
    assert(back.cursor == dst.items.len());
    assert(dst2.items =~= dst.items);
    let t = src.items[src.cursor];
    assert(src2.items =~= src.items.remove(src.cursor).push(t));
    src.items.to_multiset_ensures();
    src.items.remove(src.cursor).to_multiset_ensures();
    assert(src.items.contains(t));
    assert(src2.items.to_multiset() =~= src.items.to_multiset().remove(t).insert(t));
}

/// The views of some strings.
pub open spec fn views(items: Seq<String>) -> Seq<Seq<char>> {
    items.map_values(|s: String| s@)
}

/// A list of strings seen as a list of their texts.
pub open spec fn titles(l: ListView<String>) -> ListView<Seq<char>> {
    ListView { items: views(l.items), cursor: l.cursor }
}

/// Every list operation does the same to the texts as to the strings.
pub proof fn lemma_titles_commute(l: ListView<String>, dst: ListView<String>)
    requires
        l.wf(),
    ensures
        titles(l.nav_up()) == titles(l).nav_up(),
        titles(l.nav_down()) == titles(l).nav_down(),
        titles(l.nav_first()) == titles(l).nav_first(),
        titles(l.nav_last()) == titles(l).nav_last(),
        titles(l.drag_up()) == titles(l).drag_up(),
        titles(l.drag_down()) == titles(l).drag_down(),
        titles(l.purge_current()) == titles(l).purge_current(),
        titles(l.transfer(dst).0) == titles(l).transfer(titles(dst)).0,
        titles(l.transfer(dst).1) == titles(l).transfer(titles(dst)).1,
        forall|title: String| #[trigger] titles(l.renamed(title)) == titles(l).renamed(title@),
        titles(l).wf(),
{
    let n = l.items.len() as int;
    let c = l.cursor;
    if 0 < c < n {
        assert(views(swapped(l.items, c, c - 1)) =~= swapped(views(l.items), c, c - 1));
    }
    if 0 <= c && c + 1 < n {
        assert(views(swapped(l.items, c, c + 1)) =~= swapped(views(l.items), c, c + 1));
    }
    if 0 <= c < n {
        assert(views(l.items.remove(c)) =~= views(l.items).remove(c));
        assert(views(dst.items.push(l.items[c])) =~= views(dst.items).push(l.items[c]@));
    }
    assert forall|title: String| #[trigger] titles(l.renamed(title)) == titles(l).renamed(title@) by {
        if 0 <= c < n {
            assert(views(l.items.update(c, title)) =~= views(l.items).update(c, title@));
        }
    }
}

/// An ordered list of task titles with a cursor on one of them.
pub struct ListModel {
    items: Vec<String>,
    cursor: usize,
}

impl View for ListModel {
    type V = ListView<String>;

    closed spec fn view(&self) -> ListView<String> {
        ListView { items: self.items@, cursor: self.cursor as int }
    }
}

impl ListModel {
    pub fn new() -> (r: ListModel)
        ensures
            r@.items == Seq::<String>::empty(),
            r@.cursor == 0,
    {
        ListModel { items: Vec::new(), cursor: 0 }
    }

    /// A list of `items` with the cursor on the first.
    pub fn from_items(items: Vec<String>) -> (r: ListModel)
        ensures
            r@.items == items@,
            r@.cursor == 0,
            r@.wf(),
    {
        ListModel { items, cursor: 0 }
    }

    pub fn items(&self) -> (r: &Vec<String>)
        ensures
            r@ == self@.items,
    {
        &self.items
    }

    pub fn cursor(&self) -> (r: usize)
        ensures
            r == self@.cursor,
    {
        self.cursor
    }

    pub fn len(&self) -> (r: usize)
        ensures
            r == self@.items.len(),
    {
        self.items.len()
    }

    /// The focused title, if the list has one.
    pub fn current(&self) -> (r: Option<&String>)
        requires
            self@.wf(),
        ensures
            self@.items.len() == 0 ==> r is None,
            self@.items.len() > 0 ==> r == Some(&self@.items[self@.cursor]),
    {
        if self.cursor < self.items.len() {
            Some(&self.items[self.cursor])
        } else {
            None
        }
    }

    pub fn nav_up(&mut self)
        requires
            old(self)@.wf(),
        ensures
            final(self)@ == old(self)@.nav_up(),
    {
        if self.cursor > 0 {
            self.cursor = self.cursor - 1;
        }
    }

    pub fn nav_down(&mut self)
        requires
            old(self)@.wf(),
        ensures
            final(self)@ == old(self)@.nav_down(),
    {
        if self.items.len() > 0 && self.cursor < self.items.len() - 1 {
            self.cursor = self.cursor + 1;
        }
    }

    pub fn nav_first(&mut self)
        requires
            old(self)@.wf(),
        ensures
            final(self)@ == old(self)@.nav_first(),
    {
        if self.cursor > 0 {
            self.cursor = 0;
        }
    }

    pub fn nav_last(&mut self)
        requires
            old(self)@.wf(),
        ensures
            final(self)@ == old(self)@.nav_last(),
    {
        if self.items.len() > 0 {
            self.cursor = self.items.len() - 1;
        }
    }

    /// Swaps the focused item with the one above it; the cursor follows it.
    pub fn drag_up(&mut self)
        requires
            old(self)@.wf(),
        ensures
            final(self)@ == old(self)@.drag_up(),
    {
        if self.cursor > 0 {
            let c = self.cursor;
            let item = self.items.remove(c);
            self.items.insert(c - 1, item);
            self.cursor = c - 1;
            assert(self.items@ =~= swapped(old(self)@.items, c as int, c - 1));
        }
    }

    /// Swaps the focused item with the one below it; the cursor follows it.
    pub fn drag_down(&mut self)
        requires
            old(self)@.wf(),
        ensures
            final(self)@ == old(self)@.drag_down(),
    {
        if self.items.len() > 0 && self.cursor < self.items.len() - 1 {
            let c = self.cursor;
            let item = self.items.remove(c);
            self.items.insert(c + 1, item);
            self.cursor = c + 1;
            assert(self.items@ =~= swapped(old(self)@.items, c as int, c + 1));
        }
    }

    /// Removes the focused item and returns it.
    pub fn purge_current(&mut self) -> (r: Option<String>)
        requires
            old(self)@.wf(),
        ensures
            final(self)@ == old(self)@.purge_current(),
            old(self)@.items.len() == 0 ==> r is None,
            old(self)@.items.len() > 0 ==> r == Some(old(self)@.items[old(self)@.cursor]),
    {
        if self.cursor < self.items.len() {
            let item = self.items.remove(self.cursor);
            if self.cursor >= self.items.len() && self.items.len() > 0 {
                self.cursor = self.items.len() - 1;
            }
            Some(item)
        } else {
            None
        }
    }

    /// Moves the focused item to the end of `dst`.
    pub fn transfer(&mut self, dst: &mut ListModel)
        requires
            old(self)@.wf(),
            old(dst)@.wf(),
        ensures
            (final(self)@, final(dst)@) == old(self)@.transfer(old(dst)@),
    {
        match self.purge_current() {
            Some(item) => dst.items.push(item),
            None => {},
        }
    }

    /// Replaces the focused title.
    pub fn rename_current(&mut self, title: String)
        requires
            old(self)@.wf(),
        ensures
            final(self)@ == old(self)@.renamed(title),
    {
        if self.cursor < self.items.len() {
            let c = self.cursor;
            self.items.set(c, title);
        }
    }
}

} // verus!
