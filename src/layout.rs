use vstd::prelude::*;

use crate::geometry::{fits_i32, Vec2};

verus! {

/// The direction in which a container places its widgets.
#[derive(Clone, Copy, Debug, PartialEq, Eq, Structural)]
pub enum LayoutKind {
    Vert,
    Horz,
}

/// How a run of text is drawn.
#[derive(Clone, Copy, Debug, PartialEq, Eq, Structural)]
pub enum Style {
    Regular,
    Highlight,
}

/// Text drawn at an absolute position with a style.
#[derive(Debug)]
pub struct GlyphRun {
    pub pos: Vec2,
    pub text: String,
    pub style: Style,
}

impl GlyphRun {
    /// The run as plain values: column, row, text and style.
    pub open spec fn spec_parts(&self) -> (int, int, Seq<char>, Style) {
        (self.pos.x as int, self.pos.y as int, self.text@, self.style)
    }
}

/// A rectangular region that accumulates the sizes of the widgets placed in it.
#[derive(Clone, Copy, Debug)]
pub struct Layout {
    pub kind: LayoutKind,
    pub pos: Vec2,
    pub size: Vec2,
}

impl Layout {
    /// Column where the next widget goes.
    pub open spec fn avail_x(&self) -> int {
        match self.kind {
            LayoutKind::Horz => self.pos.x + self.size.x,
            LayoutKind::Vert => self.pos.x as int,
        }
    }

    /// Row where the next widget goes.
    pub open spec fn avail_y(&self) -> int {
        match self.kind {
            LayoutKind::Horz => self.pos.y as int,
            LayoutKind::Vert => self.pos.y + self.size.y,
        }
    }

    pub open spec fn avail_fits(&self) -> bool {
        fits_i32(self.avail_x()) && fits_i32(self.avail_y())
    }

    /// Accumulated size after a widget of size `(w, h)` is placed.
    pub open spec fn grown_x(&self, w: int, h: int) -> int {
        match self.kind {
            LayoutKind::Horz => self.size.x + w,
            LayoutKind::Vert => if self.size.x >= w { self.size.x as int } else { w },
        }
    }

    pub open spec fn grown_y(&self, w: int, h: int) -> int {
        match self.kind {
            LayoutKind::Horz => if self.size.y >= h { self.size.y as int } else { h },
            LayoutKind::Vert => self.size.y + h,
        }
    }

    pub open spec fn grow_fits(&self, w: int, h: int) -> bool {
        fits_i32(self.grown_x(w, h)) && fits_i32(self.grown_y(w, h))
    }

    /// This layout after a widget of size `(w, h)` is placed in it.
    pub open spec fn grown(self, w: int, h: int) -> Layout {
        Layout {
            size: Vec2 { x: self.grown_x(w, h) as i32, y: self.grown_y(w, h) as i32 },
            ..self
        }
    }

    /// A fresh, empty layout at `pos`.
    pub open spec fn fresh(kind: LayoutKind, pos: Vec2) -> Layout {
        Layout { kind, pos, size: Vec2 { x: 0, y: 0 } }
    }

    pub fn available_pos(&self) -> (r: Vec2)
        requires
            self.avail_fits(),
        ensures
            r.x == self.avail_x(),
            r.y == self.avail_y(),
    {
        match self.kind {
            LayoutKind::Horz => self.pos.add(self.size.mul(Vec2::new(1, 0))),
            LayoutKind::Vert => self.pos.add(self.size.mul(Vec2::new(0, 1))),
        }
    }

    pub fn add_widget(&mut self, size: Vec2)
        requires
            old(self).grow_fits(size.x as int, size.y as int),
        ensures
            *final(self) == old(self).grown(size.x as int, size.y as int),
            size.x >= 0 && size.y >= 0 ==> final(self).size.x >= old(self).size.x && final(self).size.y
                >= old(self).size.y,
    {
        match self.kind {
            LayoutKind::Horz => {
                self.size.x = self.size.x + size.x;
                if size.y > self.size.y {
                    self.size.y = size.y;
                }
            },
            LayoutKind::Vert => {
                if size.x > self.size.x {
                    self.size.x = size.x;
                }
                self.size.y = self.size.y + size.y;
            },
        }
    }
}


/// Failure of a layout call made out of order.
#[derive(Clone, Copy, Debug, PartialEq, Eq, Structural)]
pub enum UiError {
    InvalidState,
}

/// The calls that move the layout stack, as far as its depth is concerned.
#[derive(Clone, Copy, Debug, PartialEq, Eq, Structural)]
pub enum UiOp {
    Begin,
    BeginNested,
    Place,
    EndNested,
    End,
}

/// Whether `op` is legal on a stack of `depth` layouts.
pub open spec fn op_ok(depth: nat, op: UiOp) -> bool {
    match op {
        UiOp::Begin => depth == 0,
        UiOp::BeginNested => depth >= 1,
        UiOp::Place => depth >= 1,
        UiOp::EndNested => depth >= 2,
        UiOp::End => depth == 1,
    }
}

/// The depth of the stack after a legal `op`.
pub open spec fn depth_after(depth: nat, op: UiOp) -> nat {
    match op {
        UiOp::Begin => 1,
        UiOp::BeginNested => depth + 1,
        UiOp::Place => depth,
        UiOp::EndNested => (depth - 1) as nat,
        UiOp::End => 0,
    }
}

/// Whether every call of `ops`, made in order from a stack of `depth` layouts, is legal.
pub open spec fn ops_ok(depth: nat, ops: Seq<UiOp>) -> bool
    decreases ops.len(),
{
    ops.len() == 0 || (op_ok(depth, ops[0]) && ops_ok(depth_after(depth, ops[0]), ops.drop_first()))
}

/// The depth after a run of legal calls.
pub open spec fn ops_depth(depth: nat, ops: Seq<UiOp>) -> nat
    decreases ops.len(),
{
    if ops.len() == 0 {
        depth
    } else {
        ops_depth(depth_after(depth, ops[0]), ops.drop_first())
    }
}

/// `n` copies of `op`.
pub open spec fn repeat_op(op: UiOp, n: nat) -> Seq<UiOp> {
    Seq::new(n, |i: int| op)
}

/// A frame: the root, `m` nested layouts, `k` labels in the innermost one,
/// and every layout closed again.
pub open spec fn balanced_frame(m: nat, k: nat) -> Seq<UiOp> {
    seq![UiOp::Begin] + repeat_op(UiOp::BeginNested, m) + repeat_op(UiOp::Place, k) + repeat_op(
        UiOp::EndNested,
        m,
    ) + seq![UiOp::End]
}

proof fn lemma_ops_concat(depth: nat, a: Seq<UiOp>, b: Seq<UiOp>)
    ensures
        ops_ok(depth, a + b) == (ops_ok(depth, a) && ops_ok(ops_depth(depth, a), b)),
        ops_depth(depth, a + b) == ops_depth(ops_depth(depth, a), b),
    decreases a.len(),
{
    if a.len() == 0 {
        assert(a + b =~= b);
    } else {
        assert((a + b).drop_first() =~= a.drop_first() + b);
        lemma_ops_concat(depth_after(depth, a[0]), a.drop_first(), b);
    }
}

proof fn lemma_repeat(depth: nat, op: UiOp, n: nat)
    requires
        op == UiOp::BeginNested || op == UiOp::Place || op == UiOp::EndNested,
        op == UiOp::BeginNested || op == UiOp::Place ==> depth >= 1,
        op == UiOp::EndNested ==> depth >= n + 1,
    ensures
        ops_ok(depth, repeat_op(op, n)),
        ops_depth(depth, repeat_op(op, n)) == match op {
            UiOp::BeginNested => depth + n as int,
            UiOp::EndNested => depth - n,
            _ => depth as int,
        },
    decreases n,
{
    if n > 0 {
        assert(repeat_op(op, n).drop_first() =~= repeat_op(op, (n - 1) as nat));
        lemma_repeat(depth_after(depth, op), op, (n - 1) as nat);
    }
}

/// A frame that opens the root, nests `m` layouts, places `k` labels and
/// closes everything in order makes no call out of order and leaves the
/// stack empty.
pub proof fn lemma_balanced_frame_is_legal(m: nat, k: nat)
    ensures
        ops_ok(0, balanced_frame(m, k)),
        ops_depth(0, balanced_frame(m, k)) == 0,
{
    let a = seq![UiOp::Begin];
    let b = repeat_op(UiOp::BeginNested, m);
    let c = repeat_op(UiOp::Place, k);
    let d = repeat_op(UiOp::EndNested, m);
    let e = seq![UiOp::End];
    assert(a.drop_first() =~= Seq::<UiOp>::empty());
    assert(e.drop_first() =~= Seq::<UiOp>::empty());
    assert(ops_ok(1, a.drop_first()) && ops_depth(1, a.drop_first()) == 1);
    assert(ops_ok(0, a) && ops_depth(0, a) == 1);
    assert(ops_ok(0, e.drop_first()) && ops_depth(0, e.drop_first()) == 0);
    assert(ops_ok(1, e) && ops_depth(1, e) == 0);
    lemma_repeat(1, UiOp::BeginNested, m);
    lemma_repeat(1 + m, UiOp::Place, k);
    lemma_repeat(1 + m, UiOp::EndNested, m);
    lemma_ops_concat(0, a, b);
    lemma_ops_concat(0, a + b, c);
    lemma_ops_concat(0, a + b + c, d);
    lemma_ops_concat(0, a + b + c + d, e);
}

/// A frame that does not open with `begin` is refused, and so is any call
/// after a frame has been closed, an extra `end` among them.
pub proof fn lemma_unbalanced_frame_is_refused(ops: Seq<UiOp>, extra: UiOp)
    ensures
        ops.len() > 0 && ops[0] != UiOp::Begin ==> !ops_ok(0, ops),
        ops_depth(0, ops) == 0 && extra != UiOp::Begin ==> !ops_ok(0, ops.push(extra)),
{
    lemma_ops_concat(0, ops, seq![extra]);
    assert(ops + seq![extra] =~= ops.push(extra));
}

/// An immediate-mode layout stack together with the glyph runs drawn so far.
pub struct Ui {
    layouts: Vec<Layout>,
    runs: Vec<GlyphRun>,
}

impl Ui {
    /// The open layouts, outermost first.
    pub closed spec fn stack(&self) -> Seq<Layout> {
        self.layouts@
    }

    /// The runs drawn so far, as plain values.
    pub closed spec fn drawn(&self) -> Seq<(int, int, Seq<char>, Style)> {
        self.runs@.map_values(|r: GlyphRun| r.spec_parts())
    }

    pub open spec fn depth(&self) -> nat {
        self.stack().len()
    }

    pub open spec fn top(&self) -> Layout {
        self.stack().last()
    }

    pub fn new() -> (r: Ui)
        ensures
            r.stack() == Seq::<Layout>::empty(),
            r.drawn() == Seq::<(int, int, Seq<char>, Style)>::empty(),
    {
        let r = Ui { layouts: Vec::new(), runs: Vec::new() };
        assert(r.drawn() =~= Seq::<(int, int, Seq<char>, Style)>::empty());
        r
    }

    /// Opens the root layout of a frame.
    pub fn begin(&mut self, pos: Vec2, kind: LayoutKind) -> (r: Result<(), UiError>)
        ensures
            r is Ok <==> op_ok(old(self).depth(), UiOp::Begin),
            r is Ok ==> final(self).depth() == depth_after(old(self).depth(), UiOp::Begin),
            r is Ok ==> final(self).stack() == seq![Layout::fresh(kind, pos)],
            r is Err ==> final(self).stack() == old(self).stack(),
            final(self).drawn() == old(self).drawn(),
    {
        if self.layouts.len() != 0 {
            return Err(UiError::InvalidState);
        }
        self.layouts.push(Layout { kind, pos, size: Vec2::new(0, 0) });
        assert(self.layouts@ =~= seq![Layout::fresh(kind, pos)]);
        Ok(())
    }

    /// Opens a layout at the next free position of the current one.
    pub fn begin_layout(&mut self, kind: LayoutKind) -> (r: Result<(), UiError>)
        requires
            old(self).depth() > 0 ==> old(self).top().avail_fits(),
        ensures
            r is Ok <==> op_ok(old(self).depth(), UiOp::BeginNested),
            r is Ok ==> final(self).depth() == depth_after(old(self).depth(), UiOp::BeginNested),
            r is Ok ==> final(self).stack() == old(self).stack().push(
                Layout::fresh(kind, Vec2 { x: old(self).top().avail_x() as i32, y: old(self).top().avail_y() as i32 }),
            ),
            r is Err ==> final(self).stack() == old(self).stack(),
            final(self).drawn() == old(self).drawn(),
    {
        let n = self.layouts.len();
        if n == 0 {
            return Err(UiError::InvalidState);
        }
        let pos = self.layouts[n - 1].available_pos();
        self.layouts.push(Layout { kind, pos, size: Vec2::new(0, 0) });
        Ok(())
    }

    /// Closes the current layout and places its size in the enclosing one.
    pub fn end_layout(&mut self) -> (r: Result<(), UiError>)
        requires
            old(self).depth() >= 2 ==> old(self).stack()[old(self).depth() - 2].grow_fits(
                old(self).top().size.x as int,
                old(self).top().size.y as int,
            ),
        ensures
            r is Ok <==> op_ok(old(self).depth(), UiOp::EndNested),
            r is Ok ==> final(self).depth() == depth_after(old(self).depth(), UiOp::EndNested),
            r is Ok ==> final(self).stack() == old(self).stack().drop_last().drop_last().push(
                old(self).stack()[old(self).depth() - 2].grown(
                    old(self).top().size.x as int,
                    old(self).top().size.y as int,
                ),
            ),
            r is Err ==> final(self).stack() == old(self).stack(),
            final(self).drawn() == old(self).drawn(),
    {
        let n = self.layouts.len();
        if n < 2 {
            return Err(UiError::InvalidState);
        }
        let inner = self.layouts.pop().unwrap();
        let mut outer = self.layouts.pop().unwrap();
        outer.add_widget(inner.size);
        self.layouts.push(outer);
        Ok(())
    }

    /// Draws `text` at the next free position of the current layout and
    /// reserves a cell `width` columns wide and one row high for it. Text
    /// longer than `width` is not cut.
    pub fn label_fixed_width(&mut self, text: &str, width: i32, style: Style) -> (r: Result<(), UiError>)
        requires
            width >= 0,
            old(self).depth() > 0 ==> old(self).top().avail_fits() && old(self).top().grow_fits(width as int, 1),
        ensures
            r is Ok <==> op_ok(old(self).depth(), UiOp::Place),
            r is Ok ==> final(self).depth() == depth_after(old(self).depth(), UiOp::Place),
            r is Ok ==> final(self).stack() == old(self).stack().drop_last().push(old(self).top().grown(width as int, 1)),
            r is Ok ==> final(self).drawn() == old(self).drawn().push(
                (old(self).top().avail_x(), old(self).top().avail_y(), text@, style),
            ),
            r is Err ==> final(self).stack() == old(self).stack() && final(self).drawn() == old(self).drawn(),
    {
        let n = self.layouts.len();
        if n == 0 {
            return Err(UiError::InvalidState);
        }
        let mut top = self.layouts[n - 1];
        let pos = top.available_pos();
        self.draw(pos, String::from_str(text), style);
        top.add_widget(Vec2::new(width, 1));
        self.layouts.set(n - 1, top);
        Ok(())
    }

    /// Places a label as wide as its text.
    pub fn label(&mut self, text: &str, style: Style) -> (r: Result<(), UiError>)
        requires
            text@.len() <= i32::MAX,
            old(self).depth() > 0 ==> old(self).top().avail_fits() && old(self).top().grow_fits(text@.len() as int, 1),
        ensures
            r is Ok <==> op_ok(old(self).depth(), UiOp::Place),
            r is Ok ==> final(self).depth() == depth_after(old(self).depth(), UiOp::Place),
            r is Ok ==> final(self).stack() == old(self).stack().drop_last().push(
                old(self).top().grown(text@.len() as int, 1),
            ),
            r is Ok ==> final(self).drawn() == old(self).drawn().push(
                (old(self).top().avail_x(), old(self).top().avail_y(), text@, style),
            ),
            r is Err ==> final(self).stack() == old(self).stack() && final(self).drawn() == old(self).drawn(),
    {
        let width = text.unicode_len();
        self.label_fixed_width(text, width as i32, style)
    }

    /// Where the next widget of the current layout goes.
    pub fn available_pos(&self) -> (r: Result<Vec2, UiError>)
        requires
            self.depth() > 0 ==> self.top().avail_fits(),
        ensures
            r is Ok <==> self.depth() > 0,
            r matches Ok(p) ==> p.x == self.top().avail_x() && p.y == self.top().avail_y(),
    {
        let n = self.layouts.len();
        if n == 0 {
            return Err(UiError::InvalidState);
        }
        Ok(self.layouts[n - 1].available_pos())
    }

    /// Closes the root layout; the frame is complete.
    pub fn end(&mut self) -> (r: Result<(), UiError>)
        ensures
            r is Ok <==> op_ok(old(self).depth(), UiOp::End),
            r is Ok ==> final(self).depth() == depth_after(old(self).depth(), UiOp::End),
            r is Ok ==> final(self).stack() == Seq::<Layout>::empty(),
            r is Err ==> final(self).stack() == old(self).stack(),
            final(self).drawn() == old(self).drawn(),
    {
        if self.layouts.len() != 1 {
            return Err(UiError::InvalidState);
        }
        self.layouts.pop();
        assert(self.layouts@ =~= Seq::<Layout>::empty());
        Ok(())
    }

    /// Hands out the runs drawn so far and starts a new, empty list.
    pub fn take_runs(&mut self) -> (r: Vec<GlyphRun>)
        ensures
            r@.map_values(|g: GlyphRun| g.spec_parts()) == old(self).drawn(),
            final(self).drawn() == Seq::<(int, int, Seq<char>, Style)>::empty(),
            final(self).stack() == old(self).stack(),
    {
        let mut r: Vec<GlyphRun> = Vec::new();
        std::mem::swap(&mut r, &mut self.runs);
        assert(self.drawn() =~= Seq::<(int, int, Seq<char>, Style)>::empty());
        r
    }

    pub(crate) fn draw(&mut self, pos: Vec2, text: String, style: Style)
        ensures
            final(self).drawn() == old(self).drawn().push((pos.x as int, pos.y as int, text@, style)),
            final(self).stack() == old(self).stack(),
    {
        let ghost before = self.runs@;
        let run = GlyphRun { pos, text, style };
        self.runs.push(run);
        assert(self.runs@.map_values(|r: GlyphRun| r.spec_parts()) =~= before.map_values(
            |r: GlyphRun| r.spec_parts(),
        ).push(run.spec_parts()));
    }
}

} // verus!
