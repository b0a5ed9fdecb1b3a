use vstd::prelude::*;

use crate::list::{views, Status};
use crate::text::{chars_of, text_of};

verus! {

/// The prefix of a pending task's line.
pub open spec fn todo_prefix() -> Seq<char> {
    seq!['T', 'O', 'D', 'O', ':', ' ']
}

/// The prefix of a finished task's line.
pub open spec fn done_prefix() -> Seq<char> {
    seq!['D', 'O', 'N', 'E', ':', ' ']
}

/// `line` without one carriage return at its end.
pub open spec fn strip_cr(line: Seq<char>) -> Seq<char> {
    if line.len() > 0 && line.last() == '\r' {
        line.drop_last()
    } else {
        line
    }
}

/// The lines of `s` ended by a newline (without it, nor a carriage return
/// before it), and what follows the last newline.
pub open spec fn scan_lines(s: Seq<char>) -> (Seq<Seq<char>>, Seq<char>)
    decreases s.len(),
{
    if s.len() == 0 {
        (Seq::empty(), Seq::empty())
    } else {
        let (done, cur) = scan_lines(s.drop_last());
        if s.last() == '\n' {
            (done.push(strip_cr(cur)), Seq::empty())
        } else {
            (done, cur.push(s.last()))
        }
    }
}

/// The lines of `s`: a last line without a newline counts unless it is empty.
pub open spec fn split_lines(s: Seq<char>) -> Seq<Seq<char>> {
    let (done, cur) = scan_lines(s);
    if cur.len() == 0 {
        done
    } else {
        done.push(cur)
    }
}

/// A line read as a task: its list and its title.
pub open spec fn parse_line(line: Seq<char>) -> Option<(Status, Seq<char>)> {
    if line.len() >= 6 && line.take(6) == todo_prefix() {
        Some((Status::Todo, line.skip(6)))
    } else if line.len() >= 6 && line.take(6) == done_prefix() {
        Some((Status::Done, line.skip(6)))
    } else {
        None
    }
}

/// The titles of the pending and of the finished tasks that `lines` hold,
/// or the number, counted from 1, of the first line that is no task.
pub open spec fn parse_lines(lines: Seq<Seq<char>>) -> Result<(Seq<Seq<char>>, Seq<Seq<char>>), nat>
    decreases lines.len(),
{
    if lines.len() == 0 {
        Ok((Seq::empty(), Seq::empty()))
    } else {
        match parse_lines(lines.drop_last()) {
            Err(n) => Err(n),
            Ok((todos, dones)) => match parse_line(lines.last()) {
                None => Err(lines.len()),
                Some((Status::Todo, title)) => Ok((todos.push(title), dones)),
                Some((Status::Done, title)) => Ok((todos, dones.push(title))),
            },
        }
    }
}

/// The text of a task file, as its titles.
pub open spec fn parse_text(s: Seq<char>) -> Result<(Seq<Seq<char>>, Seq<Seq<char>>), nat> {
    parse_lines(split_lines(s))
}

/// Each title of `items` behind `prefix`.
pub open spec fn prefixed(prefix: Seq<char>, items: Seq<Seq<char>>) -> Seq<Seq<char>>
    decreases items.len(),
{
    if items.len() == 0 {
        Seq::empty()
    } else {
        prefixed(prefix, items.drop_last()).push(prefix + items.last())
    }
}

/// Each of `lines` followed by a newline.
pub open spec fn join_lines(lines: Seq<Seq<char>>) -> Seq<char>
    decreases lines.len(),
{
    if lines.len() == 0 {
        Seq::empty()
    } else {
        join_lines(lines.drop_last()) + lines.last() + seq!['\n']
    }
}

/// A task file: every pending task, then every finished one, one per line.
pub open spec fn serialize(todos: Seq<Seq<char>>, dones: Seq<Seq<char>>) -> Seq<char> {
    join_lines(prefixed(todo_prefix(), todos) + prefixed(done_prefix(), dones))
}

/// A line of the task file that names no list.
#[derive(Clone, Copy, Debug, PartialEq, Eq, Structural)]
pub struct ParseError {
    /// The number of the line, counted from 1.
    pub line: usize,
}

fn has_prefix(line: &Vec<char>, prefix: &Vec<char>) -> (r: bool)
    ensures
        r == (prefix@.len() <= line@.len() && line@.take(prefix@.len() as int) == prefix@),
{
    if prefix.len() > line.len() {
        return false;
    }
    let mut i: usize = 0;
    while i < prefix.len()
        invariant
            prefix@.len() <= line@.len(),
            i <= prefix@.len(),
            line@.take(i as int) == prefix@.take(i as int),
        decreases prefix@.len() - i,
    {
        if line[i] != prefix[i] {
            assert(line@.take(prefix@.len() as int)[i as int] != prefix@[i as int]);
            return false;
        }
        assert(line@.take(i + 1) =~= line@.take(i as int).push(line@[i as int]));
        assert(prefix@.take(i + 1) =~= prefix@.take(i as int).push(prefix@[i as int]));
        i = i + 1;
    }
    assert(prefix@.take(prefix@.len() as int) =~= prefix@);
    true
}

fn tail_from(line: &Vec<char>, start: usize) -> (r: Vec<char>)
    requires
        start <= line@.len(),
    ensures
        r@ == line@.skip(start as int),
{
    let mut r: Vec<char> = Vec::new();
    let mut i: usize = start;
    while i < line.len()
        invariant
            start <= i <= line@.len(),
            r@ == line@.subrange(start as int, i as int),
        decreases line@.len() - i,
    {
        r.push(line[i]);
        assert(line@.subrange(start as int, i + 1) =~= line@.subrange(start as int, i as int).push(line@[i as int]));
        i = i + 1;
    }
    assert(line@.subrange(start as int, line@.len() as int) =~= line@.skip(start as int));
    r
}

fn parse_chars(line: &Vec<char>) -> (r: Option<(Status, String)>)
    ensures
        r is None <==> parse_line(line@) is None,
        r matches Some((status, title)) ==> parse_line(line@) == Some((status, title@)),
{
    let todo = chars_of("TODO: ");
    let done = chars_of("DONE: ");
    proof {
        reveal_strlit("TODO: ");
        reveal_strlit("DONE: ");
    }
    assert(todo@ =~= todo_prefix());
    assert(done@ =~= done_prefix());
    if has_prefix(line, &todo) {
        let title = tail_from(line, 6);
        Some((Status::Todo, text_of(title.as_slice())))
    } else if has_prefix(line, &done) {
        let title = tail_from(line, 6);
        Some((Status::Done, text_of(title.as_slice())))
    } else {
        None
    }
}

/// Reads one line of a task file: its list and its title.
pub fn parse_item(line: &str) -> (r: Option<(Status, String)>)
    ensures
        r is None <==> parse_line(line@) is None,
        r matches Some((status, title)) ==> parse_line(line@) == Some((status, title@)),
{
    let chars = chars_of(line);
    parse_chars(&chars)
}

/// Reads a task file: the titles of the pending tasks and of the finished
/// ones, in file order, or the first line that names no list.
pub fn parse_items(content: &str) -> (r: Result<(Vec<String>, Vec<String>), ParseError>)
    ensures
        match parse_text(content@) {
            Ok((todos, dones)) => r matches Ok((t, d)) && views(t@) == todos && views(d@) == dones,
            Err(n) => r matches Err(e) && e.line == n,
        },
{
    let chars = chars_of(content);
    let mut todos: Vec<String> = Vec::new();
    let mut dones: Vec<String> = Vec::new();
    let mut cur: Vec<char> = Vec::new();
    let mut count: usize = 0;
    let mut i: usize = 0;
    assert(views(todos@) =~= Seq::<Seq<char>>::empty());
    assert(views(dones@) =~= Seq::<Seq<char>>::empty());
    assert(chars@.take(0) =~= Seq::<char>::empty());
    while i < chars.len()
        invariant
            i <= chars@.len(),
            chars@ == content@,
            scan_lines(chars@.take(i as int)) == (scan_lines(chars@.take(i as int)).0, cur@),
            count == scan_lines(chars@.take(i as int)).0.len(),
            count + cur@.len() <= i,
            parse_lines(scan_lines(chars@.take(i as int)).0) == Ok::<_, nat>((views(todos@), views(dones@))),
        decreases chars@.len() - i,
    {
        let ghost before = chars@.take(i as int);
        let ghost done = scan_lines(before).0;
        let c = chars[i];
        assert(chars@.take(i + 1).drop_last() =~= before);
        assert(chars@.take(i + 1).last() == c);
        if c == '\n' {
            if cur.len() > 0 && cur[cur.len() - 1] == '\r' {
                cur.pop();
            }
            assert(cur@ == strip_cr(scan_lines(before).1));
            count = count + 1;
            let ghost lines = done.push(cur@);
            assert(lines.drop_last() =~= done);
            match parse_chars(&cur) {
                None => {
                    assert(parse_text(content@) == Err::<(Seq<Seq<char>>, Seq<Seq<char>>), nat>(count as nat)) by {
                        lemma_parse_error_stays(chars@, (i + 1) as int);
                    }
                    return Err(ParseError { line: count });
                },
                Some((status, title)) => {
                    match status {
                        Status::Todo => {
                            let ghost old_todos = todos@;
                            todos.push(title);
                            assert(views(todos@) =~= views(old_todos).push(title@));
                        },
                        Status::Done => {
                            let ghost old_dones = dones@;
                            dones.push(title);
                            assert(views(dones@) =~= views(old_dones).push(title@));
                        },
                    }
                },
            }
            cur = Vec::new();
        } else {
            cur.push(c);
        }
        i = i + 1;
    }
    assert(chars@.take(i as int) =~= chars@);
    if cur.len() > 0 {
        let ghost done = scan_lines(chars@).0;
        let ghost lines = done.push(cur@);
        assert(lines.drop_last() =~= done);
        match parse_chars(&cur) {
            None => {
                return Err(ParseError { line: count + 1 });
            },
            Some((status, title)) => {
                match status {
                    Status::Todo => {
                        let ghost old_todos = todos@;
                        todos.push(title);
                        assert(views(todos@) =~= views(old_todos).push(title@));
                    },
                    Status::Done => {
                        let ghost old_dones = dones@;
                        dones.push(title);
                        assert(views(dones@) =~= views(old_dones).push(title@));
                    },
                }
            },
        }
    }
    Ok((todos, dones))
}

/// Writes a task file: a `TODO: ` line for each pending task, then a
/// `DONE: ` line for each finished one, each ended by a newline.
pub fn format_items(todos: &Vec<String>, dones: &Vec<String>) -> (r: String)
    ensures
        r@ == serialize(views(todos@), views(dones@)),
{
    let todo = "TODO: ";
    let done = "DONE: ";
    let newline = "\n";
    proof {
        reveal_strlit("TODO: ");
        reveal_strlit("DONE: ");
        reveal_strlit("\n");
    }
    assert(todo@ =~= todo_prefix());
    assert(done@ =~= done_prefix());
    assert(newline@ =~= seq!['\n']);
    let ghost ts = views(todos@);
    let ghost ds = views(dones@);
    let mut r = String::new();
    let mut i: usize = 0;
    assert(ts.take(0) =~= Seq::<Seq<char>>::empty());
    while i < todos.len()
        invariant
            i <= todos@.len(),
            ts == views(todos@),
            todo@ == todo_prefix(),
            newline@ == seq!['\n'],
            r@ == join_lines(prefixed(todo_prefix(), ts.take(i as int))),
        decreases todos@.len() - i,
    {
        let ghost before = r@;
        r.append(todo);
        r.append(todos[i].as_str());
        r.append(newline);
        assert(ts.take(i + 1).drop_last() =~= ts.take(i as int));
        let ghost lines = prefixed(todo_prefix(), ts.take(i + 1));
        assert(lines.drop_last() == prefixed(todo_prefix(), ts.take(i as int)));
        assert(r@ =~= before + (todo_prefix() + ts[i as int]) + seq!['\n']);
        i = i + 1;
    }
    assert(ts.take(todos@.len() as int) =~= ts);
    let ghost head = prefixed(todo_prefix(), ts);
    let mut j: usize = 0;
    assert(ds.take(0) =~= Seq::<Seq<char>>::empty());
    assert(head + prefixed(done_prefix(), ds.take(0)) =~= head);
    while j < dones.len()
        invariant
            j <= dones@.len(),
            ds == views(dones@),
            done@ == done_prefix(),
            newline@ == seq!['\n'],
            r@ == join_lines(head + prefixed(done_prefix(), ds.take(j as int))),
        decreases dones@.len() - j,
    {
        let ghost before = r@;
        r.append(done);
        r.append(dones[j].as_str());
        r.append(newline);
        assert(ds.take(j + 1).drop_last() =~= ds.take(j as int));
        let ghost lines = head + prefixed(done_prefix(), ds.take(j + 1));
        assert(lines.drop_last() =~= head + prefixed(done_prefix(), ds.take(j as int)));
        assert(r@ =~= before + (done_prefix() + ds[j as int]) + seq!['\n']);
        j = j + 1;
    }
    assert(ds.take(dones@.len() as int) =~= ds);
    r
}

/// A title that a task file keeps as it is: no newline in it and no
/// carriage return at its end.
pub open spec fn storable(title: Seq<char>) -> bool {
    !title.contains('\n') && !(title.len() > 0 && title.last() == '\r')
}

proof fn lemma_scan_plain(x: Seq<char>, l: Seq<char>)
    requires
        !l.contains('\n'),
    ensures
        scan_lines(x + l) == (scan_lines(x).0, scan_lines(x).1 + l),
    decreases l.len(),
{
    if l.len() == 0 {
        assert(x + l =~= x);
        assert(scan_lines(x).1 + l =~= scan_lines(x).1);
    } else {
        let y = x + l;
        assert(y.drop_last() =~= x + l.drop_last());
        assert(y.last() == l.last());
        assert(l.drop_last().contains('\n') ==> l.contains('\n')) by {
            if l.drop_last().contains('\n') {
                let k = choose|k: int| 0 <= k < l.drop_last().len() && l.drop_last()[k] == '\n';
                assert(l[k] == '\n');
            }
        }
        assert(l[l.len() - 1] != '\n');
        lemma_scan_plain(x, l.drop_last());
        assert((scan_lines(x).1 + l.drop_last()).push(l.last()) =~= scan_lines(x).1 + l);
    }
}

proof fn lemma_scan_join(lines: Seq<Seq<char>>)
    requires
        forall|k: int| 0 <= k < lines.len() ==> storable(#[trigger] lines[k]),
    ensures
        scan_lines(join_lines(lines)) == (lines, Seq::<char>::empty()),
    decreases lines.len(),
{
    if lines.len() == 0 {
        assert(scan_lines(Seq::<char>::empty()) == (Seq::<Seq<char>>::empty(), Seq::<char>::empty()));
        assert(lines =~= Seq::<Seq<char>>::empty());
    } else {
        let rest = lines.drop_last();
        let l = lines.last();
        assert(storable(lines[lines.len() - 1]));
        assert forall|k: int| 0 <= k < rest.len() implies storable(#[trigger] rest[k]) by {
            assert(rest[k] == lines[k]);
        }
        lemma_scan_join(rest);
        let x = join_lines(rest);
        lemma_scan_plain(x, l);
        let y = join_lines(lines);
        assert(y.drop_last() =~= x + l);
        assert(y.last() == '\n');
        assert(Seq::<char>::empty() + l =~= l);
        assert(rest.push(l) =~= lines);
    }
}

proof fn lemma_prefixed_index(prefix: Seq<char>, items: Seq<Seq<char>>)
    ensures
        prefixed(prefix, items).len() == items.len(),
        forall|k: int| 0 <= k < items.len() ==> #[trigger] prefixed(prefix, items)[k] == prefix + items[k],
    decreases items.len(),
{
    if items.len() > 0 {
        lemma_prefixed_index(prefix, items.drop_last());
    }
}

proof fn lemma_prefixed_storable(prefix: Seq<char>, items: Seq<Seq<char>>)
    requires
        prefix.len() > 0,
        storable(prefix),
        prefix.last() != '\r',
        forall|k: int| 0 <= k < items.len() ==> storable(#[trigger] items[k]),
    ensures
        forall|k: int| 0 <= k < items.len() ==> storable(#[trigger] prefixed(prefix, items)[k]),
{
    lemma_prefixed_index(prefix, items);
    assert forall|k: int| 0 <= k < items.len() implies storable(#[trigger] prefixed(prefix, items)[k]) by {
        let t = items[k];
        let line = prefix + t;
        assert(storable(t));
        assert(!line.contains('\n')) by {
            if line.contains('\n') {
                let m = choose|m: int| 0 <= m < line.len() && line[m] == '\n';
                if m < prefix.len() {
                    assert(prefix[m] == '\n');
                } else {
                    assert(t[m - prefix.len()] == '\n');
                }
            }
        }
        if t.len() > 0 {
            assert(line.last() == t.last());
        } else {
            assert(line.last() == prefix.last());
        }
    }
}

proof fn lemma_parse_prefixed(todos: Seq<Seq<char>>, dones: Seq<Seq<char>>)
    ensures
        parse_lines(prefixed(todo_prefix(), todos) + prefixed(done_prefix(), dones)) == Ok::<_, nat>((todos, dones)),
    decreases todos.len() + dones.len(),
{
    let head = prefixed(todo_prefix(), todos);
    let all = head + prefixed(done_prefix(), dones);
    if dones.len() > 0 {
        let x = dones.last();
        let line = done_prefix() + x;
        assert(all.drop_last() =~= head + prefixed(done_prefix(), dones.drop_last()));
        assert(all.last() == line);
        lemma_parse_prefixed(todos, dones.drop_last());
        assert(line.take(6) =~= done_prefix());
        assert(line.take(6)[0] != todo_prefix()[0]);
        assert(line.skip(6) =~= x);
        assert(parse_line(line) == Some((Status::Done, x)));
        assert(dones.drop_last().push(x) =~= dones);
        assert(parse_lines(all.drop_last()) == Ok::<_, nat>((todos, dones.drop_last())));
    } else if todos.len() > 0 {
        let x = todos.last();
        let line = todo_prefix() + x;
        assert(all =~= head);
        assert(head.drop_last() + prefixed(done_prefix(), dones) =~= head.drop_last());
        lemma_parse_prefixed(todos.drop_last(), dones);
        assert(line.take(6) =~= todo_prefix());
        assert(line.skip(6) =~= x);
        assert(parse_line(line) == Some((Status::Todo, x)));
        assert(todos.drop_last().push(x) =~= todos);
        assert(head.drop_last() == prefixed(todo_prefix(), todos.drop_last()));
        assert(head.last() == line);
        assert(parse_lines(head.drop_last()) == Ok::<_, nat>((todos.drop_last(), dones)));
    } else {
        assert(all =~= Seq::<Seq<char>>::empty());
        assert(todos =~= Seq::<Seq<char>>::empty());
        assert(dones =~= Seq::<Seq<char>>::empty());
    }
}

/// Writing titles to a task file and reading the file back gives the same
/// titles in the same order, as long as each title is one a line can hold.
pub proof fn lemma_save_then_load(todos: Seq<Seq<char>>, dones: Seq<Seq<char>>)
    requires
        forall|k: int| 0 <= k < todos.len() ==> storable(#[trigger] todos[k]),
        forall|k: int| 0 <= k < dones.len() ==> storable(#[trigger] dones[k]),
    ensures
        parse_text(serialize(todos, dones)) == Ok::<_, nat>((todos, dones)),
{
    let a = prefixed(todo_prefix(), todos);
    let b = prefixed(done_prefix(), dones);
    assert(storable(todo_prefix())) by {
        assert(!todo_prefix().contains('\n')) by {
            if todo_prefix().contains('\n') {
                let m = choose|m: int| 0 <= m < todo_prefix().len() && todo_prefix()[m] == '\n';
            }
        }
    }
    assert(storable(done_prefix())) by {
        assert(!done_prefix().contains('\n')) by {
            if done_prefix().contains('\n') {
                let m = choose|m: int| 0 <= m < done_prefix().len() && done_prefix()[m] == '\n';
            }
        }
    }
    lemma_prefixed_storable(todo_prefix(), todos);
    lemma_prefixed_storable(done_prefix(), dones);
    lemma_prefixed_index(todo_prefix(), todos);
    lemma_prefixed_index(done_prefix(), dones);
    assert forall|k: int| 0 <= k < (a + b).len() implies storable(#[trigger] (a + b)[k]) by {
        if k < a.len() {
            assert((a + b)[k] == a[k]);
        } else {
            assert((a + b)[k] == b[k - a.len()]);
        }
    }
    lemma_scan_join(a + b);
    lemma_parse_prefixed(todos, dones);
}

/// Once a line is refused, no text that goes on from there parses: the
/// error stays on that line.
proof fn lemma_parse_error_stays(s: Seq<char>, i: int)
    requires
        0 <= i <= s.len(),
        parse_lines(scan_lines(s.take(i)).0) is Err,
    ensures
        parse_text(s) == parse_lines(scan_lines(s.take(i)).0),
{
    lemma_scan_prefix(s, i, s.len() as int);
    assert(s.take(s.len() as int) =~= s);
    let done = scan_lines(s).0;
    let all = split_lines(s);
    assert(is_prefix(done, all)) by {
        if all.len() > done.len() {
            assert(all.take(done.len() as int) =~= done);
        } else {
            assert(all.take(done.len() as int) =~= done);
        }
    }
    lemma_prefix_trans(scan_lines(s.take(i)).0, done, all);
    lemma_parse_error_extends(scan_lines(s.take(i)).0, all);
}

/// Whether `a` is where `b` starts.
pub open spec fn is_prefix<A>(a: Seq<A>, b: Seq<A>) -> bool {
    a.len() <= b.len() && b.take(a.len() as int) == a
}

proof fn lemma_prefix_trans<A>(a: Seq<A>, b: Seq<A>, c: Seq<A>)
    requires
        is_prefix(a, b),
        is_prefix(b, c),
    ensures
        is_prefix(a, c),
{
    assert(c.take(a.len() as int) =~= b.take(a.len() as int));
}

proof fn lemma_parse_error_extends(a: Seq<Seq<char>>, b: Seq<Seq<char>>)
    requires
        is_prefix(a, b),
        parse_lines(a) is Err,
    ensures
        parse_lines(b) == parse_lines(a),
    decreases b.len(),
{
    if b.len() > a.len() {
        assert(b.drop_last().take(a.len() as int) =~= b.take(a.len() as int));
        lemma_parse_error_extends(a, b.drop_last());
    } else {
        assert(b =~= b.take(a.len() as int));
    }
}

proof fn lemma_scan_prefix(s: Seq<char>, i: int, j: int)
    requires
        0 <= i <= j <= s.len(),
    ensures
        is_prefix(scan_lines(s.take(i)).0, scan_lines(s.take(j)).0),
    decreases j - i,
{
    let a = scan_lines(s.take(i)).0;
    if i < j {
        lemma_scan_prefix(s, i, j - 1);
        assert(s.take(j).drop_last() =~= s.take(j - 1));
        let b = scan_lines(s.take(j - 1)).0;
        let c = scan_lines(s.take(j)).0;
        assert(is_prefix(b, c)) by {
            assert(c.take(b.len() as int) =~= b);
        }
        lemma_prefix_trans(a, b, c);
    } else {
        assert(a.take(a.len() as int) =~= a);
    }
}

} // verus!
