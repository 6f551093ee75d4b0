//! How the hooks come into a process before its own code runs: the steps inside the process, and
//! what the launcher that waits for them does.

use vstd::prelude::*;
use vstd::string::*;

use crate::text::{
    append_decimal, decimal, digit, is_numeral, numbers_are_written_as_numerals, value_of,
};

verus! {

/// For how many milliseconds the launcher waits for the hooks.
pub const HOOK_READY_TIMEOUT_MS: u32 = 15_000;

// Inside the process.

/// The constant `DLL_PROCESS_ATTACH` of `windows::Win32::System::SystemServices`, which is 1.
#[verifier::external_body]
fn process_attach() -> (reason: u32)
    ensures
        reason == 1,
{
    windows::Win32::System::SystemServices::DLL_PROCESS_ATTACH
}

/// Whether the startup begins: when the library is attached to a process, and at no other call.
pub fn starts(call_reason: u32) -> (begin: bool)
    ensures
        begin == (call_reason == 1),
{
    call_reason == process_attach()
}

/// A library that has to be there before it can be hooked.
#[derive(Clone, Copy, Debug, PartialEq, Eq, Structural)]
pub enum Library {
    Winsock,
    WinHttp,
    Crypt,
}

impl Library {
    /// The name of the file.
    pub open spec fn file(self) -> Seq<char> {
        match self {
            Library::Winsock => "Ws2_32.dll"@,
            Library::WinHttp => "WinHttp.dll"@,
            Library::Crypt => "Crypt32.dll"@,
        }
    }

    /// The name of the file.
    pub fn name(&self) -> (name: &'static str)
        ensures
            name@ == self.file(),
    {
        match self {
            Library::Winsock => "Ws2_32.dll",
            Library::WinHttp => "WinHttp.dll",
            Library::Crypt => "Crypt32.dll",
        }
    }
}

/// What is to be done next.
#[derive(Clone, Copy, Debug, PartialEq, Eq, Structural)]
pub enum Step {
    Load(Library),
    EnableSocket,
    EnableNetwork,
    CreateReadyEvent,
    SignalReady,
    Done,
}

/// The first step, and the event that it begins with.
pub open spec fn first() -> (Step, Seq<char>) {
    (Step::Load(Library::Winsock), "dll attached; loading network hook dependencies"@)
}

/// The step after another one succeeded, and the event of it.
pub open spec fn succeeded(step: Step) -> (Step, Option<Seq<char>>) {
    match step {
        Step::Load(Library::Winsock) => (Step::Load(Library::WinHttp), None),
        Step::Load(Library::WinHttp) => (Step::Load(Library::Crypt), None),
        Step::Load(Library::Crypt) => (
            Step::EnableSocket,
            Some("network hook dependencies loaded before GameAssembly.dll"@),
        ),
        Step::EnableSocket => (Step::EnableNetwork, None),
        Step::EnableNetwork => (
            Step::CreateReadyEvent,
            Some("all network hooks initialized before GameAssembly.dll"@),
        ),
        Step::CreateReadyEvent => (Step::SignalReady, None),
        Step::SignalReady => (Step::Done, Some("launcher readiness signaled"@)),
        Step::Done => (Step::Done, None),
    }
}

/// The event of a step that failed; nothing is done after it.
pub open spec fn failed(step: Step, error: Seq<char>) -> Option<Seq<char>> {
    match step {
        Step::Load(library) => Some(
            "network dependency load failed: "@ + library.file() + ": "@ + error,
        ),
        Step::EnableSocket => Some("socket initialization failed: "@ + error),
        Step::EnableNetwork => Some("network initialization failed: "@ + error),
        Step::CreateReadyEvent => Some("launcher readiness event creation failed: "@ + error),
        Step::SignalReady => Some("launcher readiness signal failed: "@ + error),
        Step::Done => None,
    }
}

/// The first step, and the event that it begins with.
pub fn first_step() -> (begin: (Step, &'static str))
    ensures
        (begin.0, begin.1@) == first(),
{
    (Step::Load(Library::Winsock), "dll attached; loading network hook dependencies")
}

/// The text of an event, if there is one.
pub open spec fn words_of(event: Option<String>) -> Option<Seq<char>> {
    match event {
        Some(text) => Some(text@),
        None => None,
    }
}

fn joined(front: &str, back: &str) -> (text: String)
    ensures
        text@ == front@ + back@,
{
    let mut text = front.to_owned();
    text.append(back);
    text
}

/// The step after another one, given what came of that, and the event of it.
pub fn next_step(step: Step, result: Result<(), &str>) -> (next: (Step, Option<String>))
    ensures
        (next.0, words_of(next.1)) == match result {
            Ok(_) => succeeded(step),
            Err(error) => (Step::Done, failed(step, error@)),
        },
{
    let error = match result {
        Ok(_) => return after_success(step),
        Err(error) => error,
    };
    let event = match step {
        Step::Load(library) => {
            let mut text = joined("network dependency load failed: ", library.name());
            text.append(": ");
            text.append(error);
            Some(text)
        },
        Step::EnableSocket => Some(joined("socket initialization failed: ", error)),
        Step::EnableNetwork => Some(joined("network initialization failed: ", error)),
        Step::CreateReadyEvent => Some(joined("launcher readiness event creation failed: ", error)),
        Step::SignalReady => Some(joined("launcher readiness signal failed: ", error)),
        Step::Done => None,
    };
    (Step::Done, event)
}

fn after_success(step: Step) -> (next: (Step, Option<String>))
    ensures
        (next.0, words_of(next.1)) == succeeded(step),
{
    match step {
        Step::Load(Library::Winsock) => (Step::Load(Library::WinHttp), None),
        Step::Load(Library::WinHttp) => (Step::Load(Library::Crypt), None),
        Step::Load(Library::Crypt) => (
            Step::EnableSocket,
            Some("network hook dependencies loaded before GameAssembly.dll".to_owned()),
        ),
        Step::EnableSocket => (Step::EnableNetwork, None),
        Step::EnableNetwork => (
            Step::CreateReadyEvent,
            Some("all network hooks initialized before GameAssembly.dll".to_owned()),
        ),
        Step::CreateReadyEvent => (Step::SignalReady, None),
        Step::SignalReady => (Step::Done, Some("launcher readiness signaled".to_owned())),
        Step::Done => (Step::Done, None),
    }
}

// The launcher.

/// The name of the event by which a process tells the launcher that its hooks are in place.
pub open spec fn event_name(process_id: u32) -> Seq<char> {
    "Local\\SonettoNetworkReady-"@ + decimal(process_id as nat)
}

/// The name of the event by which a process tells the launcher that its hooks are in place.
pub fn ready_event_name(process_id: u32) -> (name: String)
    ensures
        name@ == event_name(process_id),
        !name@.contains('\0'),
{
    let mut name = "Local\\SonettoNetworkReady-".to_owned();
    append_decimal(&mut name, process_id as u128);
    proof {
        reveal_strlit("Local\\SonettoNetworkReady-");
        lemma_decimal_holds_no_nul(process_id as nat);
        assert(!("Local\\SonettoNetworkReady-"@.contains('\0')));
    }
    name
}

/// The constant `WAIT_OBJECT_0` of `windows::Win32::Foundation`, which is 0.
#[verifier::external_body]
fn wait_object() -> (code: u32)
    ensures
        code == 0,
{
    windows::Win32::Foundation::WAIT_OBJECT_0.0
}

/// What becomes of the process that the launcher holds.
pub enum Launch {
    Resume,
    /// It is ended, after a message if there is one.
    Terminate(Option<String>),
}

/// Decides about the process; `wait` is what came of waiting for its event, where the library came
/// into it at all.
pub fn launch(wait: Option<u32>) -> (decision: Launch)
    ensures
        match wait {
            Some(code) => if code == 0 {
                decision is Resume
            } else {
                &&& decision matches Launch::Terminate(Some(text))
                &&& text@ == "Network hooks did not become ready within "@ + decimal(
                    (HOOK_READY_TIMEOUT_MS / 1000) as nat,
                ) + " seconds; game launch aborted."@
            },
            None => decision matches Launch::Terminate(text) && text is None,
        },
{
    let code = match wait {
        Some(code) => code,
        None => return Launch::Terminate(None),
    };
    if code == wait_object() {
        return Launch::Resume;
    }
    let mut text = "Network hooks did not become ready within ".to_owned();
    append_decimal(&mut text, (HOOK_READY_TIMEOUT_MS / 1000) as u128);
    text.append(" seconds; game launch aborted.");
    Launch::Terminate(Some(text))
}

proof fn lemma_decimal_holds_no_nul(n: nat)
    ensures
        !decimal(n).contains('\0'),
    decreases n,
{
    if n >= 10 {
        lemma_decimal_holds_no_nul(n / 10);
    }
}

// Laws.

/// The step that is reached after so many results.
pub open spec fn step_after(results: Seq<Result<(), Seq<char>>>) -> Step
    decreases results.len(),
{
    if results.len() == 0 {
        first().0
    } else {
        let step = step_after(results.drop_last());
        match results.last() {
            Ok(_) => succeeded(step).0,
            Err(_) => Step::Done,
        }
    }
}

/// The launcher is told that the hooks are in place only after every step before succeeded: the
/// three libraries, both modules and the event.
pub proof fn readiness_follows_every_success(results: Seq<Result<(), Seq<char>>>)
    ensures
        step_after(results) == Step::SignalReady <==> results.len() == 6 && forall|i: int|
            0 <= i < 6 ==> #[trigger] results[i] is Ok,
{
    lemma_step_after(results);
}

/// Nothing is done after a step that failed.
pub proof fn failure_ends_the_startup(results: Seq<Result<(), Seq<char>>>, at: int)
    requires
        0 <= at < results.len(),
        results[at] is Err,
    ensures
        step_after(results) == Step::Done,
{
    lemma_step_after(results);
}

/// The step that stands at a place in the order.
pub open spec fn step_at(at: int) -> Step {
    if at == 0 {
        Step::Load(Library::Winsock)
    } else if at == 1 {
        Step::Load(Library::WinHttp)
    } else if at == 2 {
        Step::Load(Library::Crypt)
    } else if at == 3 {
        Step::EnableSocket
    } else if at == 4 {
        Step::EnableNetwork
    } else if at == 5 {
        Step::CreateReadyEvent
    } else if at == 6 {
        Step::SignalReady
    } else {
        Step::Done
    }
}

proof fn lemma_step_after(results: Seq<Result<(), Seq<char>>>)
    ensures
        step_after(results) == if forall|i: int|
            0 <= i < results.len() ==> #[trigger] results[i] is Ok {
            step_at(results.len() as int)
        } else {
            Step::Done
        },
    decreases results.len(),
{
    if results.len() > 0 {
        let before = results.drop_last();
        lemma_step_after(before);
        assert forall|i: int| 0 <= i < before.len() implies #[trigger] before[i] == results[i] by {}
        if forall|i: int| 0 <= i < before.len() ==> #[trigger] before[i] is Ok {
            if results.last() is Ok {
                assert forall|i: int| 0 <= i < results.len() implies #[trigger] results[i] is Ok by {
                    if i < before.len() {
                        assert(before[i] is Ok);
                    }
                }
            }
        } else {
            let i = choose|i: int| 0 <= i < before.len() && !(#[trigger] before[i] is Ok);
            assert(!(results[i] is Ok));
        }
    }
}

/// Different processes tell it by different events.
pub proof fn event_names_are_distinct(first_id: u32, second_id: u32)
    ensures
        event_name(first_id) == event_name(second_id) <==> first_id == second_id,
{
    let front = "Local\\SonettoNetworkReady-"@;
    if event_name(first_id) == event_name(second_id) {
        let first = decimal(first_id as nat);
        let second = decimal(second_id as nat);
        assert(event_name(first_id).skip(front.len() as int) == first);
        assert(event_name(second_id).skip(front.len() as int) == second);
        lemma_decimal_is_injective(first_id as nat, second_id as nat);
    }
}

proof fn lemma_decimal_is_injective(m: nat, n: nat)
    requires
        decimal(m) == decimal(n),
    ensures
        m == n,
    decreases m,
{
    lemma_decimal_len(m);
    lemma_decimal_len(n);
    assert(decimal(m).last() == digit((m % 10) as int));
    assert(decimal(n).last() == digit((n % 10) as int));
    if m >= 10 {
        assert(decimal(m).drop_last() == decimal(m / 10));
        assert(decimal(n).drop_last() == decimal(n / 10));
        lemma_decimal_is_injective(m / 10, n / 10);
    }
}

proof fn lemma_decimal_len(n: nat)
    ensures
        decimal(n).len() >= 1,
        decimal(n).len() == 1 <==> n < 10,
    decreases n,
{
    if n >= 10 {
        lemma_decimal_len(n / 10);
    }
}

/// With nothing but successes the libraries are loaded first, in their order, then the modules are
/// enabled, that for connections first, and then the launcher is told.
pub proof fn steps_follow_in_order(results: Seq<Result<(), Seq<char>>>)
    requires
        forall|i: int| 0 <= i < results.len() ==> #[trigger] results[i] is Ok,
    ensures
        results.len() == 0 ==> step_after(results) == Step::Load(Library::Winsock),
        results.len() == 1 ==> step_after(results) == Step::Load(Library::WinHttp),
        results.len() == 2 ==> step_after(results) == Step::Load(Library::Crypt),
        results.len() == 3 ==> step_after(results) == Step::EnableSocket,
        results.len() == 4 ==> step_after(results) == Step::EnableNetwork,
        results.len() == 5 ==> step_after(results) == Step::CreateReadyEvent,
        results.len() == 6 ==> step_after(results) == Step::SignalReady,
        results.len() > 6 ==> step_after(results) == Step::Done,
{
    lemma_step_after(results);
}

/// A failure is reported with the step that failed and the error, and a success where it ends the
/// loading, the enabling or the startup.
pub proof fn steps_are_reported(error: Seq<char>)
    ensures
        failed(Step::Load(Library::Winsock), error) == Some(
            "network dependency load failed: "@ + "Ws2_32.dll"@ + ": "@ + error,
        ),
        failed(Step::Load(Library::WinHttp), error) == Some(
            "network dependency load failed: "@ + "WinHttp.dll"@ + ": "@ + error,
        ),
        failed(Step::Load(Library::Crypt), error) == Some(
            "network dependency load failed: "@ + "Crypt32.dll"@ + ": "@ + error,
        ),
        failed(Step::EnableSocket, error) == Some("socket initialization failed: "@ + error),
        failed(Step::EnableNetwork, error) == Some("network initialization failed: "@ + error),
        failed(Step::CreateReadyEvent, error) == Some(
            "launcher readiness event creation failed: "@ + error,
        ),
        failed(Step::SignalReady, error) == Some("launcher readiness signal failed: "@ + error),
        failed(Step::Done, error) is None,
        succeeded(Step::SignalReady).1 == Some("launcher readiness signaled"@),
        first().1 == "dll attached; loading network hook dependencies"@,
        succeeded(Step::Load(Library::Winsock)).1 is None,
        succeeded(Step::Load(Library::WinHttp)).1 is None,
        succeeded(Step::Load(Library::Crypt)).1 == Some(
            "network hook dependencies loaded before GameAssembly.dll"@,
        ),
        succeeded(Step::EnableSocket).1 is None,
        succeeded(Step::CreateReadyEvent).1 is None,
        succeeded(Step::Done) == (Step::Done, None::<Seq<char>>),
        succeeded(Step::EnableNetwork).1 == Some(
            "all network hooks initialized before GameAssembly.dll"@,
        ),
{
}

/// The launcher waits fifteen seconds.
pub proof fn the_launcher_waits_fifteen_seconds(milliseconds: int)
    ensures
        milliseconds >= HOOK_READY_TIMEOUT_MS <==> milliseconds >= 15 * 1000,
{
}

/// The event of a process is named by its number.
pub proof fn events_are_named_by_the_process(process_id: u32, number: Seq<char>)
    requires
        is_numeral(number),
        value_of(number) == process_id,
    ensures
        event_name(process_id) == "Local\\SonettoNetworkReady-"@ + number,
{
    numbers_are_written_as_numerals(process_id as nat, number);
}

}
