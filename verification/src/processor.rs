//! Talking to an adapter: how the connection comes about, the numbers of the
//! requests, and which answer belongs to which.

use crate::number::{decimal, unsigned_text};
use crate::protocol::{
    Either, ProtocolMessage, ProtocolMessageType, RequestArguments, Response,
    ResponseResult,
};
use crate::schema::DisconnectArguments;
use crate::text::texts;
use crate::value::NvimValue;
use crate::whitespace::{split_whitespace, words};
use vstd::prelude::*;

verus! {

/// How an adapter is reached.
#[derive(Debug)]
pub enum Connection {
    /// It listens on this port.
    Port(u16),
    /// This command is run, and talks over its standard streams.
    Command(String, Vec<String>),
    /// It is to be started, on a port that is free.
    Start,
}

/// How an adapter is reached: on a port that is given, or by a command that is
/// given, or else it is started. A command without words is none.
pub fn connection(existing_debugger_port: Option<u16>, dap_command: Option<String>) -> (r: Option<
    Connection,
>)
    ensures
        match (existing_debugger_port, dap_command) {
            (Some(port), _) => r == Some(Connection::Port(port)),
            (None, Some(command)) => match r {
                Some(Connection::Command(cmd, args)) => words(command@) == seq![cmd@] + texts(
                    args@,
                ),
                Some(_) => false,
                None => words(command@).len() == 0,
            },
            (None, None) => r == Some(Connection::Start),
        },
{
    if let Some(port) = existing_debugger_port {
        return Some(Connection::Port(port));
    }
    match dap_command {
        Some(command) => {
            let mut args = split_whitespace(command.as_str());
            if args.len() == 0 {
                return None;
            }
            let ghost all = args@;
            let cmd = args.remove(0);
            assert(texts(all) =~= seq![cmd@] + texts(args@));
            Some(Connection::Command(cmd, args))
        },
        None => Some(Connection::Start),
    }
}

/// What is told when a command has no words.
pub const NO_COMMAND_PROVIDED: &'static str = "No command provided";

/// How often connecting to a port is given up after.
pub const CONNECT_ATTEMPTS: u32 = 50;

/// For how many milliseconds is waited after an attempt to connect failed.
pub const CONNECT_PAUSE_MILLIS: u64 = 100;

/// Connecting to a port: the number of the attempt that is under way.
#[derive(Clone, Copy, Debug, PartialEq, Eq, Structural)]
pub struct ConnectRun {
    pub attempt: u32,
}

impl ConnectRun {
    /// The first attempt.
    pub fn new() -> (r: ConnectRun)
        ensures
            r.attempt == 1,
    {
        ConnectRun { attempt: 1 }
    }

    /// The attempt failed. There is another one, after the pause, if this was not
    /// the last before the limit.
    pub fn failed(self) -> (r: Option<ConnectRun>)
        ensures
            r == (if self.attempt < CONNECT_ATTEMPTS - 1 {
                Some(ConnectRun { attempt: (self.attempt + 1) as u32 })
            } else {
                None
            }),
    {
        if self.attempt < CONNECT_ATTEMPTS - 1 {
            Some(ConnectRun { attempt: self.attempt + 1 })
        } else {
            None
        }
    }
}

/// What is told when no connection came about.
pub fn connect_failure() -> (r: String)
    ensures
        r@ == "Couldn't connect to server after "@ + decimal(CONNECT_ATTEMPTS as nat)
            + " attempts, bailing"@,
{
    let n = unsigned_text(CONNECT_ATTEMPTS as u64);
    "Couldn't connect to server after ".to_string().concat(n.as_str()).concat(
        " attempts, bailing",
    )
}

/// Where an adapter on a port of this machine is reached.
pub fn local_address(port: u16) -> (r: String)
    ensures
        r@ == "127.0.0.1:"@ + decimal(port as nat),
{
    let n = unsigned_text(port as u64);
    "127.0.0.1:".to_string().concat(n.as_str())
}

/// A stream of an adapter that is logged.
#[derive(Clone, Copy, Debug, PartialEq, Eq, Structural)]
pub enum OutputStream {
    Stdout,
    Stderr,
}

/// The line of the log for a line that the adapter wrote.
pub fn stream_line(stream: OutputStream, line: &str) -> (r: String)
    ensures
        r@ == (match stream {
            OutputStream::Stdout => "Debugger stdout: "@,
            OutputStream::Stderr => "Debugger stderr: "@,
        }) + line@,
{
    match stream {
        OutputStream::Stdout => "Debugger stdout: ".to_string().concat(line),
        OutputStream::Stderr => "Debugger stderr: ".to_string().concat(line),
    }
}

/// The request that ends a session and the program with it.
pub fn disconnect_request() -> (r: RequestArguments)
    ensures
        r == RequestArguments::disconnect(
            DisconnectArguments {
                restart: Some(false),
                suspend_debuggee: None,
                terminate_debuggee: Some(true),
            },
        ),
{
    RequestArguments::disconnect(
        DisconnectArguments {
            restart: Some(false),
            suspend_debuggee: None,
            terminate_debuggee: Some(true),
        },
    )
}

/// The numbers of messages: from one on, and from nought again after the last.
#[derive(Debug)]
pub struct SequenceIds {
    pub next: u32,
}

impl SequenceIds {
    /// The numbers from one on.
    pub fn new() -> (r: SequenceIds)
        ensures
            r.next == 1,
    {
        SequenceIds { next: 1 }
    }

    /// The message with the next number.
    pub fn message(&mut self, type_: ProtocolMessageType) -> (r: ProtocolMessage)
        ensures
            r == (ProtocolMessage { seq: Either::First(old(self).next), type_ }),
            final(self).next == old(self).next.wrapping_add(1),
    {
        let seq: u32 = self.next;
        self.next = seq.wrapping_add(1);
        ProtocolMessage { seq: Either::First(seq), type_ }
    }

    /// The request with the next number, and that number.
    pub fn request(&mut self, request_args: RequestArguments) -> (r: (u32, ProtocolMessage))
        ensures
            r.0 == old(self).next,
            r.1 == (ProtocolMessage {
                seq: Either::First(r.0),
                type_: ProtocolMessageType::Request(request_args),
            }),
            final(self).next == old(self).next.wrapping_add(1),
    {
        let seq: u32 = self.next;
        (seq, self.message(ProtocolMessageType::Request(request_args)))
    }
}

/// The number of the `n`-th message from a number on.
pub open spec fn nth_id(first: u32, n: nat) -> u32
    decreases n,
{
    if n == 0 {
        first
    } else {
        nth_id(first, (n - 1) as nat).wrapping_add(1)
    }
}

/// No number comes twice among as many messages as there are numbers.
pub proof fn ids_do_not_repeat(first: u32, m: nat, n: nat)
    requires
        m < n < 0x1_0000_0000,
    ensures
        nth_id(first, m) != nth_id(first, n),
{
    nth_id_counts(first, m);
    nth_id_counts(first, n);
}

proof fn nth_id_counts(first: u32, n: nat)
    ensures
        nth_id(first, n) as int == (first + n) % 0x1_0000_0000,
    decreases n,
{
    if n > 0 {
        nth_id_counts(first, (n - 1) as nat);
    }
}

/// Whether a message is the answer to the request with that number.
pub open spec fn answers(message: ProtocolMessage, seq_id: u32) -> bool {
    message.type_ matches ProtocolMessageType::Response(r) && r.request_seq == Either::<
        u32,
        String,
    >::First(seq_id)
}

/// Whether a message is the answer to the request with that number. Answers are
/// told apart by numbers.
pub fn is_response_to(message: &ProtocolMessage, seq_id: u32) -> (r: bool)
    requires
        message.type_ matches ProtocolMessageType::Response(response) ==> response.request_seq
            is First,
    ensures
        r == answers(*message, seq_id),
{
    match &message.type_ {
        ProtocolMessageType::Response(response) => *response.request_seq.first() == seq_id,
        _ => false,
    }
}

/// What was asked for, unless the adapter tells of a failure.
pub fn accepted(response: Response) -> (r: Result<ResponseResult, Response>)
    ensures
        match r {
            Ok(result) => response.success && result == response.result,
            Err(back) => !response.success && back == response,
        },
{
    if response.success {
        Ok(response.result)
    } else {
        Err(response)
    }
}

/// What comes over a connection.
#[derive(Debug)]
pub enum StreamItem {
    Message(ProtocolMessage),
    /// A message was not understood, for this reason.
    NotUnderstood(String),
    /// Reading failed, for this reason.
    Broken(String),
    Closed,
}

/// What to do with what came over a connection.
#[derive(Debug)]
pub enum StreamAction {
    /// Hand the message to everybody who waits for one.
    Broadcast(ProtocolMessage),
    /// Tell the user of this.
    Report(String),
    Stop,
}

/// What to do with what came over a connection.
pub fn stream_action(item: StreamItem) -> (r: StreamAction)
    ensures
        match item {
            StreamItem::Message(m) => r == StreamAction::Broadcast(m),
            StreamItem::NotUnderstood(why) => r matches StreamAction::Report(text) && text@
                == "An decoder error occurred: "@ + why@,
            StreamItem::Broken(why) => r matches StreamAction::Report(text) && text@
                == "Frame decoder error: "@ + why@,
            StreamItem::Closed => r == StreamAction::Stop,
        },
{
    match item {
        StreamItem::Message(m) => StreamAction::Broadcast(m),
        StreamItem::NotUnderstood(why) => StreamAction::Report(
            "An decoder error occurred: ".to_string().concat(why.as_str()),
        ),
        StreamItem::Broken(why) => StreamAction::Report(
            "Frame decoder error: ".to_string().concat(why.as_str()),
        ),
        StreamItem::Closed => StreamAction::Stop,
    }
}

/// For how many seconds an answer is waited for, if nothing else is set.
pub const DEFAULT_TIMEOUT_SECONDS: u64 = 30;

/// After how many nanoseconds the setting is looked up again.
pub const TIMEOUT_REFRESH_NANOS: u64 = 60_000_000_000;

/// For how long an answer is waited for, and when that was last looked up.
#[derive(Clone, Copy, Debug, PartialEq, Eq, Structural)]
pub struct RequestTimeout {
    pub seconds: u64,
    pub last_set_nanos: u64,
}

impl RequestTimeout {
    /// The usual time, as if it was just looked up.
    pub fn new(now_nanos: u64) -> (r: RequestTimeout)
        ensures
            r.seconds == DEFAULT_TIMEOUT_SECONDS,
            r.last_set_nanos == now_nanos,
    {
        RequestTimeout { seconds: DEFAULT_TIMEOUT_SECONDS, last_set_nanos: now_nanos }
    }

    /// Whether the setting has to be looked up again.
    pub fn is_stale(&self, now_nanos: u64) -> (r: bool)
        requires
            self.last_set_nanos <= now_nanos,
        ensures
            r == (now_nanos - self.last_set_nanos > TIMEOUT_REFRESH_NANOS),
    {
        now_nanos - self.last_set_nanos > TIMEOUT_REFRESH_NANOS
    }

    /// Takes the setting over: a number that is not negative, or else the usual
    /// time.
    pub fn set(&mut self, now_nanos: u64, variable: &Option<NvimValue>)
        ensures
            final(self).last_set_nanos == now_nanos,
            final(self).seconds == (match variable {
                Some(NvimValue::Unsigned(n)) => *n,
                _ => DEFAULT_TIMEOUT_SECONDS,
            }),
    {
        self.last_set_nanos = now_nanos;
        self.seconds = match variable {
            Some(value) => match value.as_u64() {
                Some(n) => n,
                None => DEFAULT_TIMEOUT_SECONDS,
            },
            None => DEFAULT_TIMEOUT_SECONDS,
        };
    }
}

/// A request gets a number, and the next one the number after it. An answer is for the
/// request whose number it tells, and for no other.
pub proof fn answer_is_for_its_number(
    before: SequenceIds,
    args: RequestArguments,
    after: SequenceIds,
    sent: (u32, ProtocolMessage),
    message: &ProtocolMessage,
    response: Response,
    asked: u32,
    r: bool,
)
    requires
        exists|ids: &mut SequenceIds|
            *ids == before && *final(ids) == after && #[trigger] call_ensures(
                SequenceIds::request,
                (ids, args),
                sent,
            ),
        message.type_ == ProtocolMessageType::Response(response),
        response.request_seq == sent.1.seq,
        call_ensures(is_response_to, (message, asked), r),
    ensures
        sent.0 == before.next,
        sent.1.type_ == ProtocolMessageType::Request(args),
        sent.1.seq matches Either::First(n) && n == sent.0,
        before.next < u32::MAX ==> after.next == before.next + 1,
        before.next == u32::MAX ==> after.next == 0,
        r <==> asked == sent.0,
{
}

/// What is no answer answers nothing.
pub proof fn only_answers_answer(message: &ProtocolMessage, asked: u32, r: bool)
    requires
        !(message.type_ is Response),
        call_ensures(is_response_to, (message, asked), r),
    ensures
        !r,
{
}

/// An adapter is reached on the port that is given, whatever command is given too. A
/// command is run with its words as arguments. Else the adapter is started.
pub proof fn given_port_comes_first(
    port: Option<u16>,
    command: Option<String>,
    r: Option<Connection>,
)
    requires
        call_ensures(connection, (port, command), r),
    ensures
        port matches Some(p) ==> r == Some(Connection::Port(p)),
        port is None && command is None ==> r == Some(Connection::Start),
        port is None && command is Some ==> match r {
            Some(Connection::Command(first, args)) => {
                let all = words(command->0@);
                &&& all.len() == args@.len() + 1
                &&& first@ == all[0]
                &&& forall|i: int|
                    0 <= i < args@.len() ==> (#[trigger] args@[i])@ == all[i + 1]
            },
            Some(_) => false,
            None => words(command->0@).len() == 0,
        },
{
    if let Some(Connection::Command(first, args)) = r {
        if port is None && command is Some {
            let all = words(command->0@);
            assert(all == seq![first@] + texts(args@));
            assert(texts(args@).len() == args@.len());
            assert forall|i: int| 0 <= i < args@.len() implies (#[trigger] args@[i])@
                == all[i + 1] by {
                assert(all[i + 1] == texts(args@)[i]);
            }
        }
    }
}

/// The attempts to connect are counted one by one up to the last.
pub proof fn attempts_are_counted(run: ConnectRun, r: Option<ConnectRun>)
    requires
        call_ensures(ConnectRun::failed, (run,), r),
    ensures
        r is Some <==> run.attempt + 1 < CONNECT_ATTEMPTS,
        r matches Some(next) ==> next.attempt == run.attempt + 1,
{
}

/// What was asked for is accepted where the adapter tells that it went well, and else the
/// whole answer is given back.
pub proof fn only_success_is_accepted(response: Response, r: Result<ResponseResult, Response>)
    requires
        call_ensures(accepted, (response,), r),
    ensures
        response.success ==> r == Ok::<ResponseResult, Response>(response.result),
        !response.success ==> r == Err::<ResponseResult, Response>(response),
{
}

/// The time that is set counts, where it is a number that is not negative; else the usual
/// time does. Right after that it is not looked up again, and it is once enough time has
/// gone by.
pub proof fn set_time_counts(
    before: RequestTimeout,
    now: u64,
    variable: &Option<NvimValue>,
    after: RequestTimeout,
    held: &RequestTimeout,
    later: u64,
    stale: bool,
)
    requires
        exists|t: &mut RequestTimeout|
            *t == before && *final(t) == after && #[trigger] call_ensures(
                RequestTimeout::set,
                (t, now, variable),
                (),
            ),
        *held == after,
        now <= later,
        call_ensures(RequestTimeout::is_stale, (held, later), stale),
    ensures
        *variable matches Some(NvimValue::Unsigned(n)) ==> after.seconds == n,
        !(*variable matches Some(NvimValue::Unsigned(_))) ==> after.seconds
            == DEFAULT_TIMEOUT_SECONDS,
        stale <==> later - now > TIMEOUT_REFRESH_NANOS,
{
}

/// A message is handed on as it is, and a closed connection ends it.
pub proof fn messages_are_handed_on(item: StreamItem, r: StreamAction)
    requires
        call_ensures(stream_action, (item,), r),
    ensures
        item matches StreamItem::Message(m) ==> r == StreamAction::Broadcast(m),
        r is Stop <==> item is Closed,
        r is Report <==> item is NotUnderstood || item is Broken,
{
}

/// What the adapter writes is told with the stream that it came from, the adapter is asked
/// for at its port on this machine, and a session that ends takes its program along.
pub proof fn adapter_is_at_its_port(
    stream: OutputStream,
    line: &str,
    written: String,
    port: u16,
    other: u16,
    address: String,
    other_address: String,
    r: RequestArguments,
)
    requires
        call_ensures(stream_line, (stream, line), written),
        call_ensures(local_address, (port,), address),
        call_ensures(local_address, (other,), other_address),
        call_ensures(disconnect_request, (), r),
    ensures
        stream is Stdout ==> written@ == "Debugger stdout: "@ + line@,
        stream is Stderr ==> written@ == "Debugger stderr: "@ + line@,
        address@ == "127.0.0.1:"@ + decimal(port as nat),
        address@ == other_address@ ==> port == other,
        r matches RequestArguments::disconnect(a) && a.terminate_debuggee == Some(true) && a.restart
            == Some(false),
{
    let host = "127.0.0.1:"@;
    if address@ == other_address@ {
        assert(address@.skip(host.len() as int) =~= decimal(port as nat));
        assert(other_address@.skip(host.len() as int) =~= decimal(other as nat));
        crate::number::decimal_is_injective(port as nat, other as nat);
    }
}

} // verus!
