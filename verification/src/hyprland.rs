//! The text that goes to and comes back from `hyprctl` when a mode is
//! switched: the Lua expression of a monitor argument and the combined output
//! of a command. Running `hyprctl` and the mode arithmetic, which works on
//! floating-point refresh rates, are the caller's.
use crate::text::{chars_of, find_char, lemma_char_index_from, push_char, push_str, slice_chars, string_of, trim, trim_chars, char_index_from};
use vstd::prelude::*;

verus! {

/// `value` in double quotes, with backslashes and double quotes escaped.
pub open spec fn spec_lua_string(value: Seq<char>) -> Seq<char> {
    seq!['"'] + lua_escaped_quotes(value) + seq!['"']
}

/// The characters of `value` with `\` and `"` escaped.
pub open spec fn lua_escaped_quotes(value: Seq<char>) -> Seq<char>
    decreases value.len(),
{
    if value.len() == 0 {
        Seq::empty()
    } else {
        lua_escaped_quotes(value.drop_last()) + {
            let c = value.last();
            if c == '\\' {
                seq!['\\', '\\']
            } else if c == '"' {
                seq!['\\', '"']
            } else {
                seq![c]
            }
        }
    }
}

pub fn lua_string(value: &str) -> (r: String)
    ensures
        r@ == spec_lua_string(value@),
{
    let chars = chars_of(value);
    let mut r = String::new();
    push_char(&mut r, '"');
    let ghost start = r@;
    let mut i: usize = 0;
    while i < chars.len()
        invariant
            chars@ == value@,
            i <= chars@.len(),
            r@ == start + lua_escaped_quotes(chars@.take(i as int)),
        decreases chars@.len() - i,
    {
        let c = chars[i];
        if c == '\\' {
            push_char(&mut r, '\\');
            push_char(&mut r, '\\');
        } else if c == '"' {
            push_char(&mut r, '\\');
            push_char(&mut r, '"');
        } else {
            push_char(&mut r, c);
        }
        assert(chars@.take(i + 1).drop_last() =~= chars@.take(i as int));
        i = i + 1;
        assert(r@ =~= start + lua_escaped_quotes(chars@.take(i as int)));
    }
    push_char(&mut r, '"');
    assert(chars@.take(chars@.len() as int) =~= chars@);
    assert(r@ =~= spec_lua_string(value@));
    r
}

/// A command's standard output and error, each trimmed, one per line; either
/// alone when the other is empty.
pub open spec fn spec_command_output_text(stdout: Seq<char>, stderr: Seq<char>) -> Seq<char> {
    let out = trim(stdout);
    let err = trim(stderr);
    if out.len() > 0 && err.len() > 0 {
        out + seq!['\n'] + err
    } else if out.len() > 0 {
        out
    } else {
        err
    }
}

pub fn command_output_text(stdout: &str, stderr: &str) -> (r: String)
    ensures
        r@ == spec_command_output_text(stdout@, stderr@),
{
    let out = trim_chars(&chars_of(stdout));
    let err = trim_chars(&chars_of(stderr));
    if out.len() > 0 && err.len() > 0 {
        let mut r = string_of(&out);
        push_char(&mut r, '\n');
        push_str(&mut r, string_of(&err).as_str());
        r
    } else if out.len() > 0 {
        string_of(&out)
    } else {
        string_of(&err)
    }
}

/// The first three `,`-separated fields of `argument` and the rest after the
/// third comma, as `str::splitn(4, ',')` gives them; none with fewer than four.
pub open spec fn monitor_argument_fields(argument: Seq<char>) -> Option<
    (Seq<char>, Seq<char>, Seq<char>, Seq<char>),
> {
    match char_index_from(argument, ',', 0) {
        None => None,
        Some(a) => match char_index_from(argument, ',', a + 1) {
            None => None,
            Some(b) => match char_index_from(argument, ',', b + 1) {
                None => None,
                Some(c) => Some(
                    (
                        argument.subrange(0, a),
                        argument.subrange(a + 1, b),
                        argument.subrange(b + 1, c),
                        argument.subrange(c + 1, argument.len() as int),
                    ),
                ),
            },
        },
    }
}

/// The `hl.monitor({...})` call that sets a `CONNECTOR,MODE,POSITION,SCALE`
/// monitor argument through Lua.
pub open spec fn spec_lua_monitor_expression(argument: Seq<char>) -> Option<Seq<char>> {
    match monitor_argument_fields(argument) {
        None => None,
        Some((connector, mode, position, scale)) => Some(
            "hl.monitor({ output = "@ + spec_lua_string(connector) + ", mode = "@ + spec_lua_string(mode)
                + ", position = "@ + spec_lua_string(position) + ", scale = "@ + scale + " })"@,
        ),
    }
}

fn comma_after(v: &Vec<char>, from: usize) -> (r: Option<usize>)
    ensures
        r matches Some(i) ==> char_index_from(v@, ',', from as int) == Some(i as int) && from <= i
            < v@.len(),
        r is None ==> char_index_from(v@, ',', from as int) is None,
{
    find_char(v, ',', from)
}

pub fn lua_monitor_expression(argument: &str) -> (r: Option<String>)
    ensures
        r.deep_view() == spec_lua_monitor_expression(argument@),
{
    let v = chars_of(argument);
    let a = match comma_after(&v, 0) {
        Some(a) => a,
        None => return None,
    };
    let b = match comma_after(&v, a + 1) {
        Some(b) => b,
        None => return None,
    };
    let c = match comma_after(&v, b + 1) {
        Some(c) => c,
        None => return None,
    };
    let connector = string_of(&slice_chars(&v, 0, a));
    let mode = string_of(&slice_chars(&v, a + 1, b));
    let position = string_of(&slice_chars(&v, b + 1, c));
    let scale = string_of(&slice_chars(&v, c + 1, v.len()));
    let mut r = String::from_str("hl.monitor({ output = ");
    push_str(&mut r, lua_string(connector.as_str()).as_str());
    push_str(&mut r, ", mode = ");
    push_str(&mut r, lua_string(mode.as_str()).as_str());
    push_str(&mut r, ", position = ");
    push_str(&mut r, lua_string(position.as_str()).as_str());
    push_str(&mut r, ", scale = ");
    push_str(&mut r, scale.as_str());
    push_str(&mut r, " })");
    Some(r)
}


/// A poll for a requested mode after a switch: how many reads it may make,
/// how many it has made, the mode the last good read found, whether any read
/// succeeded, and the last error.
#[derive(Debug)]
pub struct ModePoll<T, E> {
    pub attempts: usize,
    pub reads: usize,
    pub latest: Option<T>,
    pub successful_read: bool,
    pub last_error: Option<E>,
}

/// What a poll does after a read.
#[derive(Debug)]
pub enum PollStep<T, E> {
    /// Wait, then read the mode again.
    ReadAgain(ModePoll<T, E>),
    /// The poll is over: the mode it found, or the last error when no read
    /// succeeded.
    Finished(Result<Option<T>, E>),
}

impl<T, E> ModePoll<T, E> {
    /// A poll still going: it has read fewer times than it may, and once it
    /// has read without success it holds the error.
    pub open spec fn wf(&self) -> bool {
        &&& 1 <= self.attempts
        &&& self.reads < self.attempts
        &&& (self.reads > 0 && !self.successful_read ==> self.last_error is Some)
    }

    /// The poll after one more read, matching or not.
    pub open spec fn spec_after(self, read: Result<Option<T>, E>) -> Self {
        ModePoll {
            attempts: self.attempts,
            reads: (self.reads + 1) as usize,
            latest: match read {
                Ok(v) => v,
                Err(_) => self.latest,
            },
            successful_read: self.successful_read || read is Ok,
            last_error: match read {
                Ok(_) => self.last_error,
                Err(e) => Some(e),
            },
        }
    }

    /// What a poll that made all its reads gives: the mode last read if any
    /// read succeeded, else the last error.
    pub open spec fn outcome(self) -> Result<Option<T>, E> {
        if self.successful_read {
            Ok(self.latest)
        } else {
            match self.last_error {
                Some(e) => Err(e),
                None => Ok(self.latest),
            }
        }
    }

    /// A poll that may read `attempts` times, at least once.
    pub fn new(attempts: usize) -> (r: Self)
        ensures
            r.wf(),
            r.attempts == (if attempts < 1 { 1 } else { attempts }),
            r.reads == 0,
            r.latest is None,
            !r.successful_read,
            r.last_error is None,
    {
        ModePoll {
            attempts: if attempts < 1 { 1 } else { attempts },
            reads: 0,
            latest: None,
            successful_read: false,
            last_error: None,
        }
    }

    /// Takes one read; `matched` says that it read a mode that matches the
    /// request. A matching read ends the poll with that mode; otherwise the
    /// poll reads again until it has read `attempts` times.
    pub fn after_read(self, read: Result<Option<T>, E>, matched: bool) -> (r: PollStep<T, E>)
        requires
            self.wf(),
            matched ==> read matches Ok(Some(_)),
        ensures
            matched ==> match read {
                Ok(v) => r == PollStep::<T, E>::Finished(Ok(v)),
                Err(_) => false,
            },
            !matched && self.reads + 1 < self.attempts ==> r == PollStep::<T, E>::ReadAgain(
                self.spec_after(read),
            ),
            !matched && self.reads + 1 >= self.attempts ==> r == PollStep::<T, E>::Finished(
                self.spec_after(read).outcome(),
            ),
            r matches PollStep::ReadAgain(next) ==> next.wf(),
            r matches PollStep::Finished(Err(_)) ==> !self.spec_after(read).successful_read,
    {
        let ghost before = self;
        let ghost after = self.spec_after(read);
        let ModePoll { attempts, reads, latest, successful_read, last_error } = self;
        let reads = reads + 1;
        let (latest, successful_read, last_error) = match read {
            Ok(v) => {
                if matched {
                    return PollStep::Finished(Ok(v));
                }
                (v, true, last_error)
            },
            Err(e) => (latest, successful_read, Some(e)),
        };
        let next = ModePoll { attempts, reads, latest, successful_read, last_error };
        assert(next == after);
        if reads < attempts {
            PollStep::ReadAgain(next)
        } else if next.successful_read {
            PollStep::Finished(Ok(next.latest))
        } else {
            match next.last_error {
                Some(e) => PollStep::Finished(Err(e)),
                None => PollStep::Finished(Ok(next.latest)),
            }
        }
    }
}

} // verus!
