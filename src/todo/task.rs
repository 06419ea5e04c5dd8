//! Tasks and task lists, and their text form: one task per line, each line
//! `[ ] ` (to do) or `[x] ` (done) followed by the description.

use vstd::prelude::*;
use vstd::string::*;
use crate::text::{has_prefix, starts_with};
use crate::todo::error::Error;

verus! {

pub open spec fn incomplete_prefix() -> Seq<char> {
    seq!['[', ' ', ']', ' ']
}

pub open spec fn completed_prefix() -> Seq<char> {
    seq!['[', 'x', ']', ' ']
}

/// The decimal digits of `n`, as `usize`'s `Display` writes them.
pub open spec fn decimal(n: nat) -> Seq<char>
    decreases n,
{
    if n < 10 {
        seq![digit_char(n)]
    } else {
        decimal(n / 10).push(digit_char(n % 10))
    }
}

pub open spec fn digit_char(d: nat) -> char {
    if d == 0 { '0' }
    else if d == 1 { '1' }
    else if d == 2 { '2' }
    else if d == 3 { '3' }
    else if d == 4 { '4' }
    else if d == 5 { '5' }
    else if d == 6 { '6' }
    else if d == 7 { '7' }
    else if d == 8 { '8' }
    else { '9' }
}

/// The decimal digits of `n`.
pub fn decimal_string(n: usize) -> (r: String)
    ensures
        r@ == decimal(n as nat),
    decreases n,
{
    let d = n % 10;
    proof {
        reveal_strlit("0123456789");
    }
    let digit = "0123456789".substring_char(d, d + 1);
    assert(digit@ =~= seq![digit_char(d as nat)]);
    if n < 10 {
        String::from_str(digit)
    } else {
        let mut s = decimal_string(n / 10);
        s.append(digit);
        s
    }
}

/// What a line says: a task's description and whether it is done.
pub open spec fn parse_task_spec(s: Seq<char>) -> Option<(Seq<char>, bool)> {
    if has_prefix(s, incomplete_prefix()) {
        Some((s.subrange(4, s.len() as int), false))
    } else if has_prefix(s, completed_prefix()) {
        Some((s.subrange(4, s.len() as int), true))
    } else {
        None
    }
}

/// The line that stores a task.
pub open spec fn persistence_spec(t: (Seq<char>, bool)) -> Seq<char> {
    if t.1 {
        completed_prefix() + t.0
    } else {
        incomplete_prefix() + t.0
    }
}

/// The line that shows a task under its sequence number.
pub open spec fn sequence_spec(description: Seq<char>, sequence: nat) -> Seq<char> {
    decimal(sequence) + ": "@ + description
}

/// `s` cut at each newline, as `str::split('\n')` cuts it.
pub open spec fn split_lines(s: Seq<char>) -> Seq<Seq<char>>
    decreases s.len(),
{
    if s.len() == 0 {
        seq![Seq::empty()]
    } else {
        let rest = split_lines(s.drop_last());
        if s.last() == '\n' {
            rest.push(Seq::empty())
        } else {
            rest.update(rest.len() - 1, rest.last().push(s.last()))
        }
    }
}

/// The tasks that the lines hold, empty lines passed over; or the first
/// line that is not a task.
pub open spec fn parse_lines_spec(lines: Seq<Seq<char>>) -> Result<Seq<(Seq<char>, bool)>, Seq<char>>
    decreases lines.len(),
{
    if lines.len() == 0 {
        Ok(Seq::empty())
    } else {
        match parse_lines_spec(lines.drop_last()) {
            Err(bad) => Err(bad),
            Ok(tasks) => if lines.last().len() == 0 {
                Ok(tasks)
            } else {
                match parse_task_spec(lines.last()) {
                    Some(t) => Ok(tasks.push(t)),
                    None => Err(lines.last()),
                }
            },
        }
    }
}

/// The tasks that are not done, in order.
pub open spec fn still_to_do(tasks: Seq<(Seq<char>, bool)>) -> Seq<(Seq<char>, bool)>
    decreases tasks.len(),
{
    if tasks.len() == 0 {
        Seq::empty()
    } else if tasks.last().1 {
        still_to_do(tasks.drop_last())
    } else {
        still_to_do(tasks.drop_last()).push(tasks.last())
    }
}

/// The parts, with a newline between each two.
pub open spec fn join_lines(parts: Seq<Seq<char>>) -> Seq<char>
    decreases parts.len(),
{
    if parts.len() == 0 {
        Seq::empty()
    } else if parts.len() == 1 {
        parts[0]
    } else {
        join_lines(parts.drop_last()) + "\n"@ + parts.last()
    }
}

/// The lines that show the tasks still to do, each under its position in
/// the list counted from 1.
pub open spec fn incomplete_lines(tasks: Seq<(Seq<char>, bool)>) -> Seq<Seq<char>>
    decreases tasks.len(),
{
    if tasks.len() == 0 {
        Seq::empty()
    } else {
        let rest = incomplete_lines(tasks.drop_last());
        if tasks.last().1 {
            rest
        } else {
            rest.push(sequence_spec(tasks.last().0, tasks.len()))
        }
    }
}

/// A task: what is to be done, and whether it is done.
pub struct Task {
    pub description: String,
    pub completed: bool,
}

impl View for Task {
    type V = (Seq<char>, bool);

    open spec fn view(&self) -> (Seq<char>, bool) {
        (self.description@, self.completed)
    }
}

impl Task {
    /// A task still to do.
    pub fn new(description: &str) -> (r: Task)
        ensures
            r@ == (description@, false),
    {
        Task { description: description.to_owned(), completed: false }
    }

    /// Reads a task from its line.
    pub fn parse(s: &str) -> (r: Result<Task, Error>)
        ensures
            match r {
                Ok(t) => parse_task_spec(s@) == Some(t@),
                Err(e) => parse_task_spec(s@) is None && e is ParseTask && e->ParseTask_0@ == s@,
            },
    {
        proof {
            reveal_strlit("[ ] ");
            reveal_strlit("[x] ");
            assert("[ ] "@ =~= incomplete_prefix());
            assert("[x] "@ =~= completed_prefix());
        }
        if starts_with(s, "[ ] ") {
            let n = s.unicode_len();
            Ok(Task { description: s.substring_char(4, n).to_owned(), completed: false })
        } else if starts_with(s, "[x] ") {
            let n = s.unicode_len();
            Ok(Task { description: s.substring_char(4, n).to_owned(), completed: true })
        } else {
            Err(Error::ParseTask(s.to_owned()))
        }
    }

    /// Replaces the description; returns the one before.
    pub fn edit(&mut self, description: &str) -> (r: String)
        ensures
            final(self)@ == (description@, old(self)@.1),
            r@ == old(self)@.0,
    {
        let mut prev = description.to_owned();
        std::mem::swap(&mut prev, &mut self.description);
        prev
    }

    /// Marks the task done.
    pub fn complete(&mut self)
        ensures
            final(self)@ == (old(self)@.0, true),
    {
        self.completed = true;
    }

    /// The line that shows the task under `sequence`.
    pub fn sequence_format(&self, sequence: usize) -> (r: String)
        ensures
            r@ == sequence_spec(self@.0, sequence as nat),
    {
        let mut s = decimal_string(sequence);
        s.append(": ");
        s.append(self.description.as_str());
        proof {
            reveal_strlit(": ");
        }
        s
    }

    /// The line that stores the task.
    pub fn persistence_format(&self) -> (r: String)
        ensures
            r@ == persistence_spec(self@),
    {
        proof {
            reveal_strlit("[ ] ");
            reveal_strlit("[x] ");
        }
        let mut s = if self.completed {
            String::from_str("[x] ")
        } else {
            String::from_str("[ ] ")
        };
        s.append(self.description.as_str());
        s
    }
}

pub open spec fn task_views(tasks: Seq<Task>) -> Seq<(Seq<char>, bool)> {
    tasks.map_values(|t: Task| t@)
}

/// A list of tasks, in order.
pub struct Tasks {
    inner: Vec<Task>,
}

impl View for Tasks {
    type V = Seq<(Seq<char>, bool)>;

    closed spec fn view(&self) -> Seq<(Seq<char>, bool)> {
        self.inner@.map_values(|t: Task| t@)
    }
}

impl Tasks {
    /// An empty list.
    pub fn new() -> (r: Tasks)
        ensures
            r@ == Seq::<(Seq<char>, bool)>::empty(),
    {
        let r = Tasks { inner: Vec::new() };
        assert(r@ =~= Seq::<(Seq<char>, bool)>::empty());
        r
    }

    /// Reads a list from its text form: one task per line, empty lines
    /// passed over. Fails on the first line that is not a task.
    pub fn parse(s: &str) -> (r: Result<Tasks, Error>)
        ensures
            match r {
                Ok(tasks) => parse_lines_spec(split_lines(s@)) == Ok::<_, Seq<char>>(tasks@),
                Err(e) => e is ParseTask && parse_lines_spec(split_lines(s@)) == Err::<
                    Seq<(Seq<char>, bool)>,
                    _,
                >(e->ParseTask_0@),
            },
    {
        let n = s.unicode_len();
        let mut tasks = Tasks::new();
        let mut start: usize = 0;
        let mut i: usize = 0;
        let ghost mut done: Seq<Seq<char>> = Seq::empty();
        assert(s@.subrange(0, 0) =~= Seq::<char>::empty());
        assert(split_lines(s@.subrange(0, 0)) =~= done.push(s@.subrange(0, 0)));
        while i < n
            invariant
                n == s@.len(),
                start <= i <= n,
                split_lines(s@.subrange(0, i as int)) == done.push(s@.subrange(start as int, i as int)),
                parse_lines_spec(done) == Ok::<_, Seq<char>>(tasks@),
            decreases n - i,
        {
            let p = Ghost(s@.subrange(0, i + 1));
            assert(p@.drop_last() =~= s@.subrange(0, i as int));
            assert(p@.last() == s@[i as int]);
            let ghost cur = s@.subrange(start as int, i as int);
            if s.get_char(i) == '\n' {
                let line = s.substring_char(start, i);
                assert(split_lines(p@) == done.push(cur).push(Seq::empty()));
                match take_line(&mut tasks, line, Ghost(done)) {
                    Ok(()) => {},
                    Err(e) => {
                        proof {
                            assert(s@ =~= p@ + s@.subrange(i + 1, n as int));
                            lemma_parse_stops_at_error(
                                done.push(cur),
                                s@.subrange(i + 1, n as int),
                                p@,
                                s@,
                            );
                        }
                        return Err(e);
                    },
                }
                proof {
                    assert(s@.subrange(i + 1, i + 1) =~= Seq::<char>::empty());
                    done = done.push(cur);
                }
                start = i + 1;
            } else {
                proof {
                    assert(s@.subrange(start as int, i + 1) =~= cur.push(s@[i as int]));
                    assert(done.push(cur).update(done.len() as int, cur.push(s@[i as int]))
                        =~= done.push(cur.push(s@[i as int])));
                }
            }
            i = i + 1;
        }
        assert(s@.subrange(0, n as int) =~= s@);
        let line = s.substring_char(start, n);
        match take_line(&mut tasks, line, Ghost(done)) {
            Ok(()) => Ok(tasks),
            Err(e) => Err(e),
        }
    }

    /// Appends a task still to do.
    pub fn add(&mut self, description: &str)
        ensures
            final(self)@ == old(self)@.push((description@, false)),
    {
        let t = Task::new(description);
        self.inner.push(t);
        assert(self@ =~= old(self)@.push((description@, false)));
    }

    /// Replaces the description of the task at `index`; returns the one
    /// before, or `InvalidSequence` where there is no such task.
    pub fn edit(&mut self, index: usize, description: &str) -> (r: Result<String, Error>)
        ensures
            index < old(self)@.len() ==> r is Ok && r->Ok_0@ == old(self)@[index as int].0
                && final(self)@ == old(self)@.update(
                index as int,
                (description@, old(self)@[index as int].1),
            ),
            index >= old(self)@.len() ==> r is Err && r->Err_0 is InvalidSequence && final(self)@
                == old(self)@,
    {
        if index < self.inner.len() {
            let mut t = self.inner.remove(index);
            let prev = t.edit(description);
            self.inner.insert(index, t);
            assert(self@ =~= old(self)@.update(index as int, (description@, old(self)@[index as int].1)));
            Ok(prev)
        } else {
            Err(Error::InvalidSequence)
        }
    }

    /// Removes the task at `index`; returns its description, or
    /// `InvalidSequence` where there is no such task.
    pub fn delete(&mut self, index: usize) -> (r: Result<String, Error>)
        ensures
            index < old(self)@.len() ==> r is Ok && r->Ok_0@ == old(self)@[index as int].0
                && final(self)@ == old(self)@.remove(index as int),
            index >= old(self)@.len() ==> r is Err && r->Err_0 is InvalidSequence && final(self)@
                == old(self)@,
    {
        if index < self.inner.len() {
            let t = self.inner.remove(index);
            assert(self@ =~= old(self)@.remove(index as int));
            Ok(t.description)
        } else {
            Err(Error::InvalidSequence)
        }
    }

    /// Marks the task at `index` done; returns its description, or
    /// `InvalidSequence` where there is no such task.
    pub fn complete(&mut self, index: usize) -> (r: Result<String, Error>)
        ensures
            index < old(self)@.len() ==> r is Ok && r->Ok_0@ == old(self)@[index as int].0
                && final(self)@ == old(self)@.update(index as int, (old(self)@[index as int].0, true)),
            index >= old(self)@.len() ==> r is Err && r->Err_0 is InvalidSequence && final(self)@
                == old(self)@,
    {
        if index < self.inner.len() {
            let mut t = self.inner.remove(index);
            t.complete();
            let d = t.description.clone();
            self.inner.insert(index, t);
            assert(self@ =~= old(self)@.update(index as int, (old(self)@[index as int].0, true)));
            Ok(d)
        } else {
            Err(Error::InvalidSequence)
        }
    }

    /// Removes the tasks that are done, keeping the order of the rest;
    /// returns how many are left.
    pub fn prune(&mut self) -> (r: usize)
        ensures
            final(self)@ == still_to_do(old(self)@),
            r == final(self)@.len(),
    {
        let ghost all = self@;
        let mut rest: Vec<Task> = Vec::new();
        std::mem::swap(&mut rest, &mut self.inner);
        let n = rest.len();
        let mut kept: Vec<Task> = Vec::new();
        let mut i: usize = 0;
        while i < n
            invariant
                n == all.len(),
                i <= n,
                rest@.len() == n - i,
                rest@.map_values(|t: Task| t@) == all.subrange(i as int, n as int),
                kept@.map_values(|t: Task| t@) == still_to_do(all.subrange(0, i as int)),
            decreases n - i,
        {
            let ghost before = kept@.map_values(|t: Task| t@);
            let ghost rest_before = rest@;
            assert(rest_before.map_values(|t: Task| t@)[0] == rest_before[0]@);
            let t = rest.remove(0);
            proof {
                assert(t@ == all[i as int]);
                let next = all.subrange(0, i + 1);
                assert(next.drop_last() =~= all.subrange(0, i as int));
                assert forall|k: int| 0 <= k < rest@.len() implies task_views(rest@)[k]
                    == all.subrange(i + 1, n as int)[k] by {
                    assert(rest@[k] == rest_before[k + 1]);
                    assert(rest_before.map_values(|t: Task| t@)[k + 1] == rest_before[k + 1]@);
                }
                assert(task_views(rest@) =~= all.subrange(i + 1, n as int));
            }
            if !t.completed {
                kept.push(t);
                assert(kept@.map_values(|t: Task| t@) =~= before.push(all[i as int]));
            }
            i = i + 1;
        }
        assert(all.subrange(0, n as int) =~= all);
        self.inner = kept;
        self.inner.len()
    }

    pub fn is_empty(&self) -> (r: bool)
        ensures
            r == (self@.len() == 0),
    {
        self.inner.len() == 0
    }

    pub fn len(&self) -> (r: usize)
        ensures
            r == self@.len(),
    {
        self.inner.len()
    }

    /// The task at `index`, if there is one.
    pub fn get(&self, index: usize) -> (r: Option<&Task>)
        ensures
            match r {
                Some(t) => index < self@.len() && t@ == self@[index as int],
                None => index >= self@.len(),
            },
    {
        if index < self.inner.len() {
            Some(&self.inner[index])
        } else {
            None
        }
    }

    /// The tasks still to do, one per line, each under its position in the
    /// list counted from 1.
    pub fn print_incomplete(&self) -> (r: String)
        ensures
            r@ == join_lines(incomplete_lines(self@)),
    {
        let mut out = String::new();
        let mut count: usize = 0;
        let mut i: usize = 0;
        while i < self.inner.len()
            invariant
                i <= self@.len(),
                self@.len() == self.inner@.len(),
                count <= i,
                count == incomplete_lines(self@.subrange(0, i as int)).len(),
                out@ == join_lines(incomplete_lines(self@.subrange(0, i as int))),
            decreases self.inner.len() - i,
        {
            let ghost prefix = self@.subrange(0, i as int);
            let ghost next = self@.subrange(0, i + 1);
            assert(next.drop_last() =~= prefix);
            assert(next.last() == self.inner@[i as int]@);
            let t = &self.inner[i];
            if !t.completed {
                let line = t.sequence_format(i + 1);
                let ghost parts = incomplete_lines(prefix);
                if count > 0 {
                    out.append("\n");
                }
                out.append(line.as_str());
                proof {
                    reveal_strlit("\n");
                    let more = parts.push(line@);
                    assert(more.drop_last() =~= parts);
                    if count == 0 {
                        assert(out@ =~= line@);
                    }
                }
                count = count + 1;
            }
            i = i + 1;
        }
        assert(self@.subrange(0, i as int) =~= self@);
        out
    }

    /// The text form of the list: each task's line, joined by newlines.
    pub fn persistence_format(&self) -> (r: String)
        ensures
            r@ == join_lines(self@.map_values(|t: (Seq<char>, bool)| persistence_spec(t))),
    {
        let mut out = String::new();
        let mut i: usize = 0;
        while i < self.inner.len()
            invariant
                i <= self@.len(),
                self@.len() == self.inner@.len(),
                out@ == join_lines(
                    self@.subrange(0, i as int).map_values(|t: (Seq<char>, bool)| persistence_spec(t)),
                ),
            decreases self.inner.len() - i,
        {
            let ghost prefix = self@.subrange(0, i as int).map_values(
                |t: (Seq<char>, bool)| persistence_spec(t),
            );
            let ghost next = self@.subrange(0, i + 1).map_values(
                |t: (Seq<char>, bool)| persistence_spec(t),
            );
            assert(next.drop_last() =~= prefix);
            assert(next.last() == persistence_spec(self.inner@[i as int]@));
            let line = self.inner[i].persistence_format();
            if i > 0 {
                out.append("\n");
            }
            out.append(line.as_str());
            proof {
                reveal_strlit("\n");
            }
            i = i + 1;
        }
        assert(self@.subrange(0, i as int) =~= self@);
        out
    }
}

proof fn lemma_split_nonempty(s: Seq<char>)
    ensures
        split_lines(s).len() >= 1,
    decreases s.len(),
{
    if s.len() > 0 {
        lemma_split_nonempty(s.drop_last());
    }
}

/// Text after a newline is cut on its own.
proof fn lemma_split_after_newline(p: Seq<char>, r: Seq<char>, lines: Seq<Seq<char>>)
    requires
        split_lines(p) == lines.push(Seq::empty()),
    ensures
        split_lines(p + r) == lines + split_lines(r),
    decreases r.len(),
{
    if r.len() == 0 {
        assert(p + r =~= p);
        assert(lines + split_lines(r) =~= lines.push(Seq::empty()));
    } else {
        let r1 = r.drop_last();
        lemma_split_after_newline(p, r1, lines);
        assert((p + r).drop_last() =~= p + r1);
        assert((p + r).last() == r.last());
        lemma_split_nonempty(r1);
        let m = split_lines(r1);
        if r.last() == '\n' {
            assert((lines + m).push(Seq::empty()) =~= lines + m.push(Seq::empty()));
        } else {
            assert((lines + m).update((lines + m).len() - 1, (lines + m).last().push(r.last()))
                =~= lines + m.update(m.len() - 1, m.last().push(r.last())));
        }
    }
}

/// Takes the next line of a list's text form: a task is appended to
/// `tasks`, an empty line passed over.
fn take_line(tasks: &mut Tasks, line: &str, done: Ghost<Seq<Seq<char>>>) -> (r: Result<(), Error>)
    requires
        parse_lines_spec(done@) == Ok::<_, Seq<char>>(old(tasks)@),
    ensures
        match r {
            Ok(_) => parse_lines_spec(done@.push(line@)) == Ok::<_, Seq<char>>(final(tasks)@),
            Err(e) => e is ParseTask && parse_lines_spec(done@.push(line@)) == Err::<
                Seq<(Seq<char>, bool)>,
                _,
            >(e->ParseTask_0@),
        },
{
    assert(done@.push(line@).drop_last() =~= done@);
    if line.is_empty() {
        return Ok(());
    }
    match Task::parse(line) {
        Ok(t) => {
            let ghost before = tasks@;
            tasks.inner.push(t);
            assert(tasks@ =~= before.push(t@));
            Ok(())
        },
        Err(e) => Err(e),
    }
}

/// Once a line fails to parse, the lines after it do not matter.
proof fn lemma_parse_err_prefix(lines: Seq<Seq<char>>, more: Seq<Seq<char>>)
    requires
        parse_lines_spec(lines) is Err,
    ensures
        parse_lines_spec(lines + more) == parse_lines_spec(lines),
    decreases more.len(),
{
    if more.len() == 0 {
        assert(lines + more =~= lines);
    } else {
        lemma_parse_err_prefix(lines, more.drop_last());
        assert((lines + more).drop_last() =~= lines + more.drop_last());
    }
}

proof fn lemma_parse_stops_at_error(
    lines: Seq<Seq<char>>,
    rest: Seq<char>,
    prefix: Seq<char>,
    s: Seq<char>,
)
    requires
        parse_lines_spec(lines) is Err,
        split_lines(prefix) == lines.push(Seq::empty()),
        s == prefix + rest,
    ensures
        parse_lines_spec(split_lines(s)) == parse_lines_spec(lines),
{
    lemma_split_after_newline(prefix, rest, lines);
    lemma_parse_err_prefix(lines, split_lines(rest));
}

} // verus!
