//! The `coding_job` tool as the main agent runs it when a coordinator
//! process does the work: calls become commands written to the
//! coordinator's inbox, answered in its outbox. The library checks the
//! call, names the command, paces the polling and reads the answer; the
//! files and the coordinator process are the caller's.

use vstd::prelude::*;

use crate::text::{has_prefix, owned, push_str, str_is};
use crate::tool::{json_member_set, json_set_member, json_str_member, json_string_member, ToolDefinition};

verus! {

/// The actions the coordinator accepts, in order.
pub open spec fn known_actions() -> Seq<Seq<char>> {
    seq![
        "create"@,
        "import"@,
        "run"@,
        "status"@,
        "cancel"@,
        "cleanup"@,
        "cleanup_all"@,
        "list"@,
        "shutdown"@,
    ]
}

/// Whether the coordinator accepts `action`.
pub fn is_known_action(action: &str) -> (r: bool)
    ensures
        r == known_actions().contains(action@),
{
    let names: [&str; 9] = [
        "create",
        "import",
        "run",
        "status",
        "cancel",
        "cleanup",
        "cleanup_all",
        "list",
        "shutdown",
    ];
    let mut i: usize = 0;
    while i < 9
        invariant
            i <= 9,
            forall|j: int| 0 <= j < 9 ==> names@[j]@ == #[trigger] known_actions()[j],
            forall|j: int| 0 <= j < i ==> known_actions()[j] != action@,
        decreases 9 - i,
    {
        if str_is(names[i], action) {
            assert(known_actions()[i as int] == action@);
            return true;
        }
        i = i + 1;
    }
    assert forall|x: Seq<char>| known_actions().contains(x) implies x != action@ by {
        let j = known_actions().index_of(x);
    }
    false
}

/// The action a call asks the coordinator for: an error when the call is
/// not JSON, has no string `action`, or names one it does not know.
pub fn delegation_action(arguments: &str) -> (r: Result<String, String>)
    ensures
        json_string_member(arguments@, "action"@) is None ==> (r matches Err(m) && has_prefix(
            m@,
            "invalid JSON: "@,
        )),
        json_string_member(arguments@, "action"@) == Some(None::<Seq<char>>) ==> (r matches Err(m)
            && m@ == "missing required field: action"@),
        forall|a: Seq<char>|
            json_string_member(arguments@, "action"@) == Some(Some(a)) ==> if known_actions().contains(
                a,
            ) {
                r matches Ok(x) && x@ == a
            } else {
                r matches Err(m) && m@ == "unknown action: "@ + a
            },
{
    let action = match json_str_member(arguments, "action") {
        Err(e) => {
            let mut m = owned("invalid JSON: ");
            push_str(&mut m, e.as_str());
            proof {
                reveal_strlit("invalid JSON: ");
            }
            assert(m@.take(14) =~= "invalid JSON: "@);
            return Err(m);
        },
        Ok(None) => {
            return Err(owned("missing required field: action"));
        },
        Ok(Some(a)) => a,
    };
    if !is_known_action(action.as_str()) {
        let mut m = owned("unknown action: ");
        push_str(&mut m, action.as_str());
        return Err(m);
    }
    Ok(action)
}

/// The random UUID (version 4) made of these 16 random bytes, written in
/// simple form: 32 lowercase hexadecimal digits.
pub uninterp spec fn uuid_v4_simple(bytes: Seq<u8>) -> Seq<char>;

/// `uuid::Builder::from_random_bytes(bytes).into_uuid().as_simple()`: the
/// bytes with the version and variant bits set, as text. The result is
/// named, not spelled out here.
#[verifier::external_body]
fn uuid_simple_from_random(bytes: [u8; 16]) -> (r: String)
    ensures
        r@ == uuid_v4_simple(bytes@),
{
    uuid::Builder::from_random_bytes(bytes).into_uuid().as_simple().to_string()
}

/// The id of a command to the coordinator: `cmd_` and the random UUID made
/// of `random` (16 random bytes the caller draws).
pub fn new_command_id(random: [u8; 16]) -> (r: String)
    ensures
        r@ == "cmd_"@ + uuid_v4_simple(random@),
{
    let mut r = owned("cmd_");
    let u = uuid_simple_from_random(random);
    push_str(&mut r, u.as_str());
    r
}

/// The wait before the next look at the outbox: twice the last one, at
/// most 500 ms.
pub open spec fn next_delay(delay_ms: u64) -> u64 {
    if delay_ms * 2 < 500 {
        (delay_ms * 2) as u64
    } else {
        500
    }
}

/// The wait before the next look at the outbox (see `next_delay`).
pub fn next_poll_delay(delay_ms: u64) -> (r: u64)
    requires
        delay_ms * 2 <= u64::MAX,
    ensures
        r == next_delay(delay_ms),
{
    if delay_ms * 2 < 500 {
        delay_ms * 2
    } else {
        500
    }
}

/// The error when the coordinator did not answer in time.
pub fn poll_timeout_error() -> (r: String)
    ensures
        r@ == "timeout: coordinator did not respond"@,
{
    owned("timeout: coordinator did not respond")
}

/// The reply to a call from the coordinator's answer: its body as JSON
/// (`{}` when none) when it succeeded, else `error: ` and its error
/// (`unknown` when none).
pub fn delegation_reply(ok: bool, body_json: Option<String>, error: Option<String>) -> (r: Result<
    String,
    String,
>)
    ensures
        ok ==> (r matches Ok(x) && x@ == match body_json {
            Some(b) => b@,
            None => "{}"@,
        }),
        !ok ==> (r matches Err(m) && m@ == "error: "@ + match error {
            Some(e) => e@,
            None => "unknown"@,
        }),
{
    if ok {
        match body_json {
            Some(b) => Ok(b),
            None => Ok(owned("{}")),
        }
    } else {
        let mut m = owned("error: ");
        match error {
            Some(e) => push_str(&mut m, e.as_str()),
            None => push_str(&mut m, "unknown"),
        }
        Err(m)
    }
}


/// `items` as a JSON array: in brackets, separated by commas.
pub open spec fn json_array(items: Seq<Seq<char>>) -> Seq<char> {
    "["@ + joined(items) + "]"@
}

/// `items` separated by commas.
pub open spec fn joined(items: Seq<Seq<char>>) -> Seq<char>
    decreases items.len(),
{
    if items.len() == 0 {
        seq![]
    } else if items.len() == 1 {
        items[0]
    } else {
        joined(items.drop_last()) + ","@ + items.last()
    }
}

/// A successful reply with the coordinator's pending notifications (each
/// as JSON) attached under `notifications` when there are any and the body
/// is a JSON object; otherwise the body as it is.
pub open spec fn with_notifications(body: Seq<char>, notes: Seq<Seq<char>>) -> Seq<char> {
    if notes.len() == 0 {
        body
    } else {
        match json_member_set(body, "notifications"@, json_array(notes)) {
            Some(s) => s,
            None => body,
        }
    }
}

/// Attaches the pending notifications to a reply (see `with_notifications`).
pub fn attach_notifications(body: String, notes: &[String]) -> (r: String)
    ensures
        r@ == with_notifications(body@, notes@.map_values(|n: String| n@)),
{
    let ghost nv = notes@.map_values(|n: String| n@);
    if notes.len() == 0 {
        return body;
    }
    let mut arr = owned("[");
    let mut i: usize = 0;
    while i < notes.len()
        invariant
            0 <= i <= notes@.len(),
            nv == notes@.map_values(|n: String| n@),
            arr@ == "["@ + joined(nv.take(i as int)),
        decreases notes.len() - i,
    {
        if i > 0 {
            push_str(&mut arr, ",");
        }
        push_str(&mut arr, notes[i].as_str());
        proof {
            let t = nv.take(i as int + 1);
            assert(t.drop_last() =~= nv.take(i as int));
            assert(t.last() == notes@[i as int]@);
            if i == 0 {
                assert(nv.take(0) =~= Seq::<Seq<char>>::empty());
                assert(t.len() == 1);
            }
        }
        i = i + 1;
    }
    push_str(&mut arr, "]");
    assert(nv.take(notes@.len() as int) =~= nv);
    match json_set_member(body.as_str(), "notifications", arr.as_str()) {
        Some(s) => s,
        None => body,
    }
}

/// Where a wait for the coordinator's answer stands: how many more looks
/// at the outbox are allowed, and how long to wait after the next miss.
#[derive(Debug, Clone, Copy, PartialEq, Eq)]
pub struct PollState {
    pub attempts_left: u32,
    pub delay_ms: u64,
}

/// What to do after one look at the outbox.
#[derive(Debug)]
pub enum PollStep<T> {
    /// The answer came.
    Answered(T),
    /// No answer yet: wait this long, then look again from `next`.
    Wait { delay_ms: u64, next: PollState },
    /// Reading the outbox failed: the error.
    Failed(String),
}

/// The `coding_job` tool when a coordinator does the work. The channel to
/// the coordinator and the process that starts it are the caller's; the
/// tool keeps whether one should be started and how it waits.
#[derive(Debug)]
pub struct CoordinatorDelegationTool {
    spawner: bool,
    poll_timeout_ms: u64,
    poll_max_attempts: u32,
}

impl CoordinatorDelegationTool {
    /// Without a starter, waiting 50 ms at first, looking 600 times.
    pub fn new() -> (t: CoordinatorDelegationTool)
        ensures
            !t.spawns(),
            t.first_delay() == 50,
            t.max_attempts() == 600,
    {
        CoordinatorDelegationTool { spawner: false, poll_timeout_ms: 50, poll_max_attempts: 600 }
    }

    /// With a starter that makes sure the coordinator runs before each call.
    pub fn with_spawner() -> (t: CoordinatorDelegationTool)
        ensures
            t.spawns(),
            t.first_delay() == 50,
            t.max_attempts() == 600,
    {
        CoordinatorDelegationTool { spawner: true, poll_timeout_ms: 50, poll_max_attempts: 600 }
    }

    /// Without a starter, with this first wait and number of looks.
    pub fn with_polling(timeout_ms: u64, max_attempts: u32) -> (t: CoordinatorDelegationTool)
        ensures
            !t.spawns(),
            t.first_delay() == timeout_ms,
            t.max_attempts() == max_attempts,
    {
        CoordinatorDelegationTool {
            spawner: false,
            poll_timeout_ms: timeout_ms,
            poll_max_attempts: max_attempts,
        }
    }

    /// With a starter, this first wait and number of looks.
    pub fn with_spawner_and_polling(timeout_ms: u64, max_attempts: u32) -> (t:
        CoordinatorDelegationTool)
        ensures
            t.spawns(),
            t.first_delay() == timeout_ms,
            t.max_attempts() == max_attempts,
    {
        CoordinatorDelegationTool {
            spawner: true,
            poll_timeout_ms: timeout_ms,
            poll_max_attempts: max_attempts,
        }
    }

    pub closed spec fn spawns(&self) -> bool {
        self.spawner
    }

    pub closed spec fn first_delay(&self) -> u64 {
        self.poll_timeout_ms
    }

    pub closed spec fn max_attempts(&self) -> u32 {
        self.poll_max_attempts
    }

    /// Whether the coordinator is to be started (if it is not running)
    /// before a call.
    pub fn has_spawner(&self) -> (r: bool)
        ensures
            r == self.spawns(),
    {
        self.spawner
    }

    /// The tool's definition: that of `coding_job`.
    pub fn definition(&self) -> (d: ToolDefinition)
        ensures
            d.name@ == "coding_job"@,
    {
        crate::coding_job::CodingJobTool::new().definition()
    }

    /// The wait for an answer before the first look.
    pub fn begin_poll(&self) -> (s: PollState)
        ensures
            s.attempts_left == self.max_attempts(),
            s.delay_ms == self.first_delay(),
    {
        PollState { attempts_left: self.poll_max_attempts, delay_ms: self.poll_timeout_ms }
    }
}

/// The error when no look is left: the coordinator did not answer in time.
pub fn poll_exhausted(state: PollState) -> (r: Option<String>)
    ensures
        state.attempts_left == 0 <==> r is Some,
        r matches Some(m) ==> m@ == "timeout: coordinator did not respond"@,
{
    if state.attempts_left == 0 {
        Some(poll_timeout_error())
    } else {
        None
    }
}

/// One look at the outbox: the answer ends the wait; a miss spends a look
/// and doubles the wait (at most 500 ms); a failed read ends it with
/// `ipc read: ` and the error.
pub fn poll_step<T>(state: PollState, read: Result<Option<T>, String>) -> (r: PollStep<T>)
    requires
        state.attempts_left > 0,
        state.delay_ms * 2 <= u64::MAX,
    ensures
        match read {
            Ok(Some(t)) => r == PollStep::Answered(t),
            Ok(None) => r == PollStep::<T>::Wait {
                delay_ms: state.delay_ms,
                next: PollState {
                    attempts_left: (state.attempts_left - 1) as u32,
                    delay_ms: next_delay(state.delay_ms),
                },
            },
            Err(e) => r matches PollStep::Failed(m) && m@ == "ipc read: "@ + e@,
        },
{
    match read {
        Ok(Some(t)) => PollStep::Answered(t),
        Ok(None) => PollStep::Wait {
            delay_ms: state.delay_ms,
            next: PollState {
                attempts_left: state.attempts_left - 1,
                delay_ms: next_poll_delay(state.delay_ms),
            },
        },
        Err(e) => {
            let mut m = owned("ipc read: ");
            push_str(&mut m, e.as_str());
            PollStep::Failed(m)
        },
    }
}

/// After the first miss the wait never exceeds 500 ms, so later looks can
/// always double it.
pub proof fn law_poll_delay_bounded(d: u64)
    ensures
        next_delay(d) <= 500,
        next_delay(d) * 2 <= u64::MAX,
{
}

} // verus!
