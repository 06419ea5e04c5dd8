//! The to-do list's commands, on the text of the to-do file: each reads the
//! list from the text and says what to show and what to store.

use vstd::prelude::*;
use vstd::string::*;
use crate::todo::error::Error;
use crate::todo::task::{
    Tasks, decimal, decimal_string, join_lines, parse_lines_spec, persistence_spec, split_lines,
    still_to_do, incomplete_lines,
};

verus! {

/// The tasks that the text of a to-do file holds, or the first line that is
/// not a task.
pub open spec fn file_tasks(content: Seq<char>) -> Result<Seq<(Seq<char>, bool)>, Seq<char>> {
    parse_lines_spec(split_lines(content))
}

/// The text that stores the tasks.
pub open spec fn stored(tasks: Seq<(Seq<char>, bool)>) -> Seq<char> {
    join_lines(tasks.map_values(|t: (Seq<char>, bool)| persistence_spec(t)))
}

/// What to do with the to-do file after a command.
pub enum Persist {
    /// Leave it as it is.
    Keep,
    /// Store this text in it.
    Write(String),
    /// Remove it: no task is left.
    Remove,
}

/// Reads the list out of `content`, with the error that a bad line gives.
fn read_tasks(content: &str) -> (r: Result<Tasks, Error>)
    ensures
        match r {
            Ok(tasks) => file_tasks(content@) == Ok::<_, Seq<char>>(tasks@),
            Err(e) => e is ParseTask && file_tasks(content@) == Err::<Seq<(Seq<char>, bool)>, _>(
                e->ParseTask_0@,
            ),
        },
{
    Tasks::parse(content)
}

/// The tasks still to do, numbered from 1.
pub fn print(content: &str) -> (r: Result<String, Error>)
    ensures
        match file_tasks(content@) {
            Ok(tasks) => r is Ok && r->Ok_0@ == join_lines(incomplete_lines(tasks)),
            Err(bad) => r is Err && r->Err_0 is ParseTask && r->Err_0->ParseTask_0@ == bad,
        },
{
    let tasks = match read_tasks(content) {
        Ok(t) => t,
        Err(e) => return Err(e),
    };
    Ok(tasks.print_incomplete())
}

/// Adds a task still to do; returns the message and the new text.
pub fn add(content: &str, description: &str) -> (r: Result<(String, String), Error>)
    ensures
        match file_tasks(content@) {
            Ok(tasks) => r is Ok && r->Ok_0.0@ == "New to-do: "@ + description@ && r->Ok_0.1@
                == stored(tasks.push((description@, false))),
            Err(bad) => r is Err && r->Err_0 is ParseTask && r->Err_0->ParseTask_0@ == bad,
        },
{
    let mut tasks = match read_tasks(content) {
        Ok(t) => t,
        Err(e) => return Err(e),
    };
    tasks.add(description);
    let mut message = String::from_str("New to-do: ");
    message.append(description);
    Ok((message, tasks.persistence_format()))
}

/// Replaces the description of the task at `index` (counted from 0);
/// returns the message and the new text.
pub fn edit(content: &str, index: usize, description: &str) -> (r: Result<(String, String), Error>)
    ensures
        match file_tasks(content@) {
            Ok(tasks) => if index < tasks.len() {
                r is Ok && r->Ok_0.0@ == tasks[index as int].0 + " → "@ + description@
                    && r->Ok_0.1@ == stored(
                    tasks.update(index as int, (description@, tasks[index as int].1)),
                )
            } else {
                r is Err && r->Err_0 is InvalidSequence
            },
            Err(bad) => r is Err && r->Err_0 is ParseTask && r->Err_0->ParseTask_0@ == bad,
        },
{
    let mut tasks = match read_tasks(content) {
        Ok(t) => t,
        Err(e) => return Err(e),
    };
    let mut message = match tasks.edit(index, description) {
        Ok(prev) => prev,
        Err(e) => return Err(e),
    };
    message.append(" → ");
    message.append(description);
    Ok((message, tasks.persistence_format()))
}

/// Deletes the task at `index` (counted from 0); returns the message and
/// the new text.
pub fn delete(content: &str, index: usize) -> (r: Result<(String, String), Error>)
    ensures
        match file_tasks(content@) {
            Ok(tasks) => if index < tasks.len() {
                r is Ok && r->Ok_0.0@ == "Delete to-do: "@ + tasks[index as int].0 && r->Ok_0.1@
                    == stored(tasks.remove(index as int))
            } else {
                r is Err && r->Err_0 is InvalidSequence
            },
            Err(bad) => r is Err && r->Err_0 is ParseTask && r->Err_0->ParseTask_0@ == bad,
        },
{
    let mut tasks = match read_tasks(content) {
        Ok(t) => t,
        Err(e) => return Err(e),
    };
    let task = match tasks.delete(index) {
        Ok(d) => d,
        Err(e) => return Err(e),
    };
    let mut message = String::from_str("Delete to-do: ");
    message.append(task.as_str());
    Ok((message, tasks.persistence_format()))
}

/// Marks the task at `index` (counted from 0) done; returns the message and
/// the new text.
pub fn complete(content: &str, index: usize) -> (r: Result<(String, String), Error>)
    ensures
        match file_tasks(content@) {
            Ok(tasks) => if index < tasks.len() {
                r is Ok && r->Ok_0.0@ == "✔ "@ + tasks[index as int].0 && r->Ok_0.1@ == stored(
                    tasks.update(index as int, (tasks[index as int].0, true)),
                )
            } else {
                r is Err && r->Err_0 is InvalidSequence
            },
            Err(bad) => r is Err && r->Err_0 is ParseTask && r->Err_0->ParseTask_0@ == bad,
        },
{
    let mut tasks = match read_tasks(content) {
        Ok(t) => t,
        Err(e) => return Err(e),
    };
    let task = match tasks.complete(index) {
        Ok(d) => d,
        Err(e) => return Err(e),
    };
    let mut message = String::from_str("✔ ");
    message.append(task.as_str());
    Ok((message, tasks.persistence_format()))
}

/// Removes the tasks that are done; returns the message and what to do with
/// the file.
pub fn prune(content: &str) -> (r: Result<(String, Persist), Error>)
    ensures
        match file_tasks(content@) {
            Ok(tasks) => r is Ok && {
                let (message, persist) = r->Ok_0;
                let left = still_to_do(tasks);
                if tasks.len() == 0 {
                    message@.len() == 0 && persist is Keep
                } else if left.len() == 0 {
                    &&& message@ == "Removed "@ + decimal(tasks.len()) + " completed to-do(s), no to-do left."@
                    &&& persist is Remove
                } else {
                    &&& message@ == "Removed "@ + decimal((tasks.len() - left.len()) as nat)
                        + " completed to-do(s), "@ + decimal(left.len()) + " to-do(s) remaining."@
                    &&& persist is Write && persist->Write_0@ == stored(left)
                }
            },
            Err(bad) => r is Err && r->Err_0 is ParseTask && r->Err_0->ParseTask_0@ == bad,
        },
{
    let mut tasks = match read_tasks(content) {
        Ok(t) => t,
        Err(e) => return Err(e),
    };
    if tasks.is_empty() {
        return Ok((String::new(), Persist::Keep));
    }
    let ghost all = tasks@;
    let before = tasks.len();
    let after = tasks.prune();
    proof {
        lemma_still_to_do_len(all);
    }
    let mut message = String::from_str("Removed ");
    if tasks.is_empty() {
        message.append(decimal_string(before).as_str());
        message.append(" completed to-do(s), no to-do left.");
        Ok((message, Persist::Remove))
    } else {
        message.append(decimal_string(before - after).as_str());
        message.append(" completed to-do(s), ");
        message.append(decimal_string(after).as_str());
        message.append(" to-do(s) remaining.");
        Ok((message, Persist::Write(tasks.persistence_format())))
    }
}

proof fn lemma_still_to_do_len(tasks: Seq<(Seq<char>, bool)>)
    ensures
        still_to_do(tasks).len() <= tasks.len(),
    decreases tasks.len(),
{
    if tasks.len() > 0 {
        lemma_still_to_do_len(tasks.drop_last());
    }
}

/// Whether `c` is a decimal digit.
pub open spec fn is_digit(c: char) -> bool {
    '0' <= c && c <= '9'
}

/// The value of a decimal digit.
pub open spec fn digit_value(c: char) -> nat {
    (c as int - '0' as int) as nat
}

/// The value of a string of decimal digits.
pub open spec fn digits_value(s: Seq<char>) -> nat
    decreases s.len(),
{
    if s.len() == 0 {
        0
    } else {
        digits_value(s.drop_last()) * 10 + digit_value(s.last())
    }
}

/// What `str::parse::<usize>` reads: an optional `+`, then one or more
/// decimal digits whose value fits a `usize`.
pub open spec fn parse_usize_spec(s: Seq<char>) -> Option<nat> {
    parse_digits_spec(if s.len() > 0 && s[0] == '+' { s.drop_first() } else { s })
}

/// One or more decimal digits whose value fits a `usize`.
pub open spec fn parse_digits_spec(digits: Seq<char>) -> Option<nat> {
    if digits.len() > 0 && (forall|i: int| 0 <= i < digits.len() ==> is_digit(#[trigger] digits[i]))
        && digits_value(digits) <= usize::MAX {
        Some(digits_value(digits))
    } else {
        None
    }
}

proof fn lemma_digits_value_grows(s: Seq<char>, i: int)
    requires
        0 <= i <= s.len(),
    ensures
        digits_value(s.subrange(0, i)) <= digits_value(s),
    decreases s.len() - i,
{
    if i < s.len() {
        lemma_digits_value_grows(s, i + 1);
        let p = s.subrange(0, i + 1);
        assert(p.drop_last() =~= s.subrange(0, i));
    } else {
        assert(s.subrange(0, i) =~= s);
    }
}

/// The value of `c` where it is a decimal digit.
fn digit_of(c: char) -> (r: Option<usize>)
    ensures
        match r {
            Some(d) => is_digit(c) && d == digit_value(c) && d < 10,
            None => !is_digit(c),
        },
{
    if c < '0' || c > '9' {
        None
    } else {
        Some((c as u32 - '0' as u32) as usize)
    }
}

/// `value` with the decimal digit `d` written after it, where that fits.
fn shift_digit(value: usize, d: usize) -> (r: Option<usize>)
    requires
        d < 10,
    ensures
        match r {
            Some(v) => v == value * 10 + d,
            None => value * 10 + d > usize::MAX,
        },
{
    match value.checked_mul(10) {
        None => {
            assert(value * 10 + d > usize::MAX) by (nonlinear_arith)
                requires
                    value * 10 > usize::MAX,
            ;
            None
        },
        Some(v) => v.checked_add(d),
    }
}

proof fn lemma_digits_value_step(digits: Seq<char>, k: int, value: nat)
    requires
        0 <= k < digits.len(),
        value == digits_value(digits.subrange(0, k)),
    ensures
        digits_value(digits.subrange(0, k + 1)) == value * 10 + digit_value(digits[k]),
{
    let p = digits.subrange(0, k + 1);
    assert(p.drop_last() =~= digits.subrange(0, k));
}

/// Reads a sequence number, counted from 1, into a position counted from 0.
pub fn parse_sequence(s: &str) -> (r: Result<usize, Error>)
    ensures
        match parse_usize_spec(s@) {
            None => r is Err && r->Err_0 is ParseSequence,
            Some(n) => if n == 0 {
                r is Err && r->Err_0 is InvalidSequence
            } else {
                r is Ok && r->Ok_0 == n - 1
            },
        },
{
    let n = s.unicode_len();
    let mut i: usize = 0;
    if n > 0 && s.get_char(0) == '+' {
        i = 1;
    }
    let ghost digits = if s@.len() > 0 && s@[0] == '+' { s@.drop_first() } else { s@ };
    let start = i;
    assert(digits =~= s@.subrange(start as int, n as int));
    assert(parse_usize_spec(s@) == parse_digits_spec(digits));
    if start == n {
        return Err(Error::ParseSequence);
    }
    let mut value: usize = 0;
    assert(digits.subrange(0, 0) =~= Seq::<char>::empty());
    while i < n
        invariant
            n == s@.len(),
            start <= i <= n,
            digits == s@.subrange(start as int, n as int),
            parse_usize_spec(s@) == parse_digits_spec(digits),
            forall|j: int| 0 <= j < i - start ==> is_digit(#[trigger] digits[j]),
            value == digits_value(digits.subrange(0, i - start)),
        decreases n - i,
    {
        let c = s.get_char(i);
        assert(c == digits[i - start]);
        let d = match digit_of(c) {
            None => {
                assert(!is_digit(digits[i - start]));
                assert(parse_digits_spec(digits) is None);
                return Err(Error::ParseSequence);
            },
            Some(d) => d,
        };
        proof {
            lemma_digits_value_step(digits, i - start, value as nat);
        }
        let next = shift_digit(value, d);
        match next {
            None => {
                proof {
                    assert(value * 10 + d > usize::MAX);
                    lemma_digits_value_grows(digits, i - start + 1);
                    assert(digits_value(digits) > usize::MAX);
                    assert(parse_digits_spec(digits) is None);
                }
                return Err(Error::ParseSequence);
            },
            Some(v) => {
                value = v;
            },
        }
        i = i + 1;
    }
    assert(digits.subrange(0, n - start) =~= digits);
    if value > 0 {
        Ok(value - 1)
    } else {
        Err(Error::InvalidSequence)
    }
}

} // verus!
