//! The telemetry collaborator's data model: the events the executor emits
//! and the periodic update served to the monitor. The executor core pushes
//! one declaration event per submission and one execution event per poll;
//! the monitor drains those queues and serves them, stamped in microseconds
//! relative to its reference instant. Reading the clock, draining the
//! lock-free queues and serving HTTP are the collaborator's side; building
//! the update from drained values is fixed here.

use vstd::prelude::*;
use crate::TaskId;

verus! {

/// Declaration event pushed at submission: the task's identifier, its
/// human-readable label, and the worker that will own it.
pub struct TaskDecl {
    pub id: TaskId,
    pub name: String,
    pub runner: usize,
}

/// One raw execution event, as the worker emits it around each poll.
#[derive(Clone, Copy)]
pub enum TaskExec {
    Polling(TaskId),
    PollReady(TaskId),
    PollPending(TaskId),
}

/// An execution event stamped for the monitor, in microseconds since the
/// monitor's reference instant.
pub enum TaskEvent {
    Polling { id: TaskId, timestamp: u128 },
    PollReady { id: TaskId, timestamp: u128 },
    PollPending { id: TaskId, timestamp: u128 },
}

/// One monitor update: the declarations and execution events drained since
/// the previous update, and the current time stamp.
pub struct Update {
    pub new_tasks: Vec<TaskDecl>,
    pub task_events: Vec<TaskEvent>,
    pub current_time: u128,
}

/// How one raw event and its timestamp map to a monitor event.
pub open spec fn event_spec(e: TaskExec, timestamp: u128) -> TaskEvent {
    match e {
        TaskExec::Polling(id) => TaskEvent::Polling { id, timestamp },
        TaskExec::PollReady(id) => TaskEvent::PollReady { id, timestamp },
        TaskExec::PollPending(id) => TaskEvent::PollPending { id, timestamp },
    }
}

/// Build one update from the drained declaration and execution queues. Each
/// raw event carries the microsecond stamp taken when it was recorded; the
/// events come out in the order they were drained.
pub fn create_update(
    new_tasks: Vec<TaskDecl>,
    exec: Vec<(TaskExec, u128)>,
    current_time: u128,
) -> (r: Update)
    ensures
        r.new_tasks == new_tasks,
        r.current_time == current_time,
        r.task_events@.len() == exec@.len(),
        forall|k: int|
            0 <= k < exec@.len() ==> r.task_events@[k] == event_spec(exec@[k].0, exec@[k].1),
{
    let mut task_events: Vec<TaskEvent> = Vec::new();
    let len = exec.len();
    let mut k: usize = 0;
    while k < len
        invariant
            k <= len,
            len == exec@.len(),
            task_events@.len() == k,
            forall|m: int|
                0 <= m < k ==> task_events@[m] == event_spec(exec@[m].0, exec@[m].1),
        decreases len - k,
    {
        let (e, timestamp) = exec[k];
        let event = match e {
            TaskExec::Polling(id) => TaskEvent::Polling { id, timestamp },
            TaskExec::PollReady(id) => TaskEvent::PollReady { id, timestamp },
            TaskExec::PollPending(id) => TaskEvent::PollPending { id, timestamp },
        };
        task_events.push(event);
        k = k + 1;
    }
    Update { new_tasks, task_events, current_time }
}

/// True when `pat` occurs in `s` at position `p`.
pub open spec fn match_at(s: Seq<u8>, pat: Seq<u8>, p: int) -> bool {
    &&& 0 <= p
    &&& p + pat.len() <= s.len()
    &&& s.subrange(p, p + pat.len()) == pat
}

/// The first position at or after `from` where `pat` occurs in `s`.
pub open spec fn first_match(s: Seq<u8>, pat: Seq<u8>, from: int) -> Option<int>
    decreases s.len() + 1 - from,
{
    if from < 0 || from + pat.len() > s.len() {
        None
    } else if match_at(s, pat, from) {
        Some(from)
    } else {
        first_match(s, pat, from + 1)
    }
}

/// The bytes of `"GET "`.
pub open spec fn get_prefix() -> Seq<u8> {
    seq![71u8, 69u8, 84u8, 32u8]
}

/// The bytes of `" HTTP/1.1\r\n"`, separating the path from the headers.
pub open spec fn http_sep() -> Seq<u8> {
    seq![32u8, 72u8, 84u8, 84u8, 80u8, 47u8, 49u8, 46u8, 49u8, 13u8, 10u8]
}

/// The bytes of `"Action: "`, the header whose value a request may carry.
pub open spec fn action_key() -> Seq<u8> {
    seq![65u8, 99u8, 116u8, 105u8, 111u8, 110u8, 58u8, 32u8]
}

/// The bytes of `"\r\n"`.
pub open spec fn crlf() -> Seq<u8> {
    seq![13u8, 10u8]
}

/// The bytes of `"\r\n\r\n"`, ending a request's header block.
pub open spec fn header_end() -> Seq<u8> {
    seq![13u8, 10u8, 13u8, 10u8]
}

/// What a well-formed request parses to: the path, and the value of the
/// `Action` header when one is present. The request must open with `GET `
/// and carry the HTTP version separator; an `Action` header must be
/// terminated by a line break.
pub open spec fn parse_spec(s: Seq<u8>) -> Option<(Seq<u8>, Option<Seq<u8>>)> {
    if !match_at(s, get_prefix(), 0) {
        None
    } else {
        match first_match(s, http_sep(), 4) {
            None => None,
            Some(p) => {
                let path = s.subrange(4, p);
                match first_match(s, action_key(), p + http_sep().len()) {
                    None => Some((path, None)),
                    Some(q) => {
                        let v = q + action_key().len();
                        match first_match(s, crlf(), v) {
                            None => None,
                            Some(t) => Some((path, Some(s.subrange(v, t)))),
                        }
                    },
                }
            },
        }
    }
}

/// Whether `pat` occurs at position `p` of `s`.
fn matches_at(s: &Vec<u8>, pat: &Vec<u8>, p: usize) -> (r: bool)
    requires
        p + pat@.len() <= s@.len(),
    ensures
        r == match_at(s@, pat@, p as int),
{
    let mut k: usize = 0;
    let plen = pat.len();
    let slen = s.len();
    while k < plen
        invariant
            k <= plen,
            plen == pat@.len(),
            slen == s@.len(),
            p + plen <= slen,
            forall|m: int| 0 <= m < k ==> s@[p + m] == pat@[m],
        decreases plen - k,
    {
        if s[p + k] != pat[k] {
            proof {
                assert(s@.subrange(p as int, p + pat@.len())[k as int] != pat@[k as int]);
            }
            return false;
        }
        k = k + 1;
    }
    proof {
        assert(s@.subrange(p as int, p + pat@.len()) =~= pat@);
    }
    true
}

/// The first occurrence of `pat` in `s` at or after `from`.
fn find_pattern(s: &Vec<u8>, pat: &Vec<u8>, from: usize) -> (r: Option<usize>)
    ensures
        ({
            let spec_r = first_match(s@, pat@, from as int);
            match r {
                Some(p) => spec_r == Some(p as int),
                None => (spec_r is None),
            }
        }),
        (r is Some) ==> from <= r.unwrap() && r.unwrap() + pat@.len() <= s@.len(),
{
    if pat.len() > s.len() {
        return None;
    }
    if pat.len() == 0 {
        if from <= s.len() {
            proof {
                assert(s@.subrange(from as int, from as int) =~= pat@);
            }
            return Some(from);
        }
        return None;
    }
    let last = s.len() - pat.len();
    if from > last {
        return None;
    }
    let mut p = from;
    while p <= last
        invariant
            from <= p,
            p <= last + 1,
            pat@.len() >= 1,
            last == s@.len() - pat@.len(),
            last < usize::MAX,
            first_match(s@, pat@, from as int) == first_match(s@, pat@, p as int),
        decreases last + 1 - p,
    {
        if matches_at(s, pat, p) {
            return Some(p);
        }
        p = p + 1;
    }
    None
}

/// True when the buffered bytes already hold a complete header block, that
/// is, the blank line ending the headers has arrived.
pub fn headers_complete(buffer: &Vec<u8>) -> (r: bool)
    ensures
        r == (first_match(buffer@, header_end(), 0) is Some),
{
    let pat = header_end_vec();
    match find_pattern(buffer, &pat, 0) {
        Some(_) => true,
        None => false,
    }
}

fn get_prefix_vec() -> (r: Vec<u8>)
    ensures
        r@ == get_prefix(),
{
    let mut v: Vec<u8> = Vec::new();
    v.push(71);
    v.push(69);
    v.push(84);
    v.push(32);
    proof {
        assert(v@ =~= get_prefix());
    }
    v
}

fn http_sep_vec() -> (r: Vec<u8>)
    ensures
        r@ == http_sep(),
{
    let mut v: Vec<u8> = Vec::new();
    v.push(32);
    v.push(72);
    v.push(84);
    v.push(84);
    v.push(80);
    v.push(47);
    v.push(49);
    v.push(46);
    v.push(49);
    v.push(13);
    v.push(10);
    proof {
        assert(v@ =~= http_sep());
    }
    v
}

fn action_key_vec() -> (r: Vec<u8>)
    ensures
        r@ == action_key(),
{
    let mut v: Vec<u8> = Vec::new();
    v.push(65);
    v.push(99);
    v.push(116);
    v.push(105);
    v.push(111);
    v.push(110);
    v.push(58);
    v.push(32);
    proof {
        assert(v@ =~= action_key());
    }
    v
}

fn crlf_vec() -> (r: Vec<u8>)
    ensures
        r@ == crlf(),
{
    let mut v: Vec<u8> = Vec::new();
    v.push(13);
    v.push(10);
    proof {
        assert(v@ =~= crlf());
    }
    v
}

fn header_end_vec() -> (r: Vec<u8>)
    ensures
        r@ == header_end(),
{
    let mut v: Vec<u8> = Vec::new();
    v.push(13);
    v.push(10);
    v.push(13);
    v.push(10);
    proof {
        assert(v@ =~= header_end());
    }
    v
}

fn copy_range(s: &Vec<u8>, a: usize, b: usize) -> (r: Vec<u8>)
    requires
        a <= b,
        b <= s@.len(),
    ensures
        r@ == s@.subrange(a as int, b as int),
{
    let mut r: Vec<u8> = Vec::new();
    let mut k = a;
    while k < b
        invariant
            a <= k,
            k <= b,
            b <= s@.len(),
            r@ =~= s@.subrange(a as int, k as int),
        decreases b - k,
    {
        r.push(s[k]);
        proof {
            assert(r@ =~= s@.subrange(a as int, k + 1));
        }
        k = k + 1;
    }
    r
}

/// Parse a buffered request: the path named on the `GET` line, and the value
/// of the `Action` header when the request carries one. Rejects a buffer
/// that does not open with `GET `, lacks the version separator, or whose
/// `Action` header is unterminated.
pub fn parse_request(request: &Vec<u8>) -> (r: Option<(Vec<u8>, Option<Vec<u8>>)>)
    ensures
        ({
            let spec_r = parse_spec(request@);
            match r {
                None => (spec_r is None),
                Some((path, action)) => (spec_r is Some) && path@ == spec_r.unwrap().0 && (
                match action {
                    None => (spec_r.unwrap().1 is None),
                    Some(v) => (spec_r.unwrap().1 is Some) && v@ == spec_r.unwrap().1.unwrap(),
                }),
            }
        }),
{
    let prefix = get_prefix_vec();
    if request.len() < 4 {
        return None;
    }
    if !matches_at(request, &prefix, 0) {
        return None;
    }
    let sep = http_sep_vec();
    let p = match find_pattern(request, &sep, 4) {
        Some(p) => p,
        None => {
            return None;
        },
    };
    let path = copy_range(request, 4, p);
    let action = action_key_vec();
    let hdr = p + sep.len();
    let q = match find_pattern(request, &action, hdr) {
        Some(q) => q,
        None => {
            return Some((path, None));
        },
    };
    let eol = crlf_vec();
    let v = q + action.len();
    let t = match find_pattern(request, &eol, v) {
        Some(t) => t,
        None => {
            return None;
        },
    };
    let value = copy_range(request, v, t);
    Some((path, Some(value)))
}

} // verus!
