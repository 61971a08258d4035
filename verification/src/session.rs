//! Setting a session up, from an empty screen to a running program, and where the
//! messages of the adapter go.

use crate::protocol::{EventBody, ProtocolMessage, ProtocolMessageType, RequestArguments};
use vstd::prelude::*;

verus! {

/// The two ways to set a session up.
#[derive(Clone, Copy, Debug, PartialEq, Eq, Structural)]
pub enum SetupStyle {
    /// An adapter that is told where to run the program: the terminal is waited
    /// for if the program runs in one, and a failing launch ends the waiting.
    Watched,
    /// The terminal is waited for unless a running program is attached to.
    Plain,
}

/// What has to be done next.
#[derive(Clone, Copy, Debug, PartialEq, Eq, Structural)]
pub enum SetupStage {
    CreateUi,
    InitHandler,
    HandleMessages,
    LaunchProgram,
    AwaitTerminal,
    SetBreakpoints,
    ConfigurationDone,
    /// The answers to the launch and to the end of the configuration are waited
    /// for. These two tell which came.
    AwaitAnswers(bool, bool),
    LogSuccess,
    Complete,
}

/// How far setting a session up has come.
#[derive(Clone, Copy, Debug, PartialEq, Eq, Structural)]
pub struct SetupRun {
    pub style: SetupStyle,
    pub attaching: bool,
    pub stage: SetupStage,
}

/// What happens while a session is set up.
#[derive(Debug)]
pub enum SetupEvent {
    /// What was to be done is done.
    Done,
    /// What was to be done failed, for this reason.
    Failed(String),
    /// The request to launch was sent, and this tells whether the program runs in
    /// a terminal of Neovim.
    Launched(bool),
    /// The answer to the launch: whether it went well, and the answer as text.
    LaunchAnswered(bool, String),
    LaunchLost(String),
    TerminalSpawned,
    TerminalLost(String),
    ConfigurationAnswered,
    ConfigurationLost(String),
}

/// For how many seconds the terminal is waited for.
pub const TERMINAL_TIMEOUT_SECONDS: u64 = 60;

/// What the two answers lead to.
pub open spec fn answers_stage(launch: bool, configuration: bool) -> SetupStage {
    if launch && configuration {
        SetupStage::LogSuccess
    } else {
        SetupStage::AwaitAnswers(launch, configuration)
    }
}

/// Whether the terminal is waited for.
pub open spec fn terminal_awaited(run: SetupRun, integrated_terminal: bool) -> bool {
    match run.style {
        SetupStyle::Watched => integrated_terminal,
        SetupStyle::Plain => !run.attaching,
    }
}

/// How far setting up comes with an event, or why it fails. An event that nothing
/// waits for changes nothing.
pub open spec fn setup_after(run: SetupRun, event: SetupEvent) -> Result<SetupRun, Seq<char>> {
    match (run.stage, event) {
        (_, SetupEvent::Failed(why)) => Err(why@),
        (SetupStage::CreateUi, SetupEvent::Done) => Ok(
            SetupRun { stage: SetupStage::InitHandler, ..run },
        ),
        (SetupStage::InitHandler, SetupEvent::Done) => Ok(
            SetupRun { stage: SetupStage::HandleMessages, ..run },
        ),
        (SetupStage::HandleMessages, SetupEvent::Done) => Ok(
            SetupRun { stage: SetupStage::LaunchProgram, ..run },
        ),
        (SetupStage::LaunchProgram, SetupEvent::Launched(integrated)) => Ok(
            SetupRun {
                stage: if terminal_awaited(run, integrated) {
                    SetupStage::AwaitTerminal
                } else {
                    SetupStage::SetBreakpoints
                },
                ..run
            },
        ),
        (SetupStage::AwaitTerminal, SetupEvent::TerminalSpawned) => Ok(
            SetupRun { stage: SetupStage::SetBreakpoints, ..run },
        ),
        (SetupStage::AwaitTerminal, SetupEvent::TerminalLost(why)) => Err(why@),
        (SetupStage::AwaitTerminal, SetupEvent::LaunchAnswered(success, shown)) => if run.style
            == SetupStyle::Watched && !success {
            Err("Error launching program: "@ + shown@)
        } else {
            Ok(run)
        },
        (SetupStage::AwaitTerminal, SetupEvent::LaunchLost(why)) => if run.style
            == SetupStyle::Watched {
            Err("Error launching program: "@ + why@)
        } else {
            Ok(run)
        },
        (SetupStage::SetBreakpoints, SetupEvent::Done) => Ok(
            SetupRun { stage: SetupStage::ConfigurationDone, ..run },
        ),
        (SetupStage::ConfigurationDone, SetupEvent::Done) => Ok(
            SetupRun { stage: SetupStage::AwaitAnswers(false, false), ..run },
        ),
        (SetupStage::AwaitAnswers(_, configuration), SetupEvent::LaunchAnswered(_, _)) => Ok(
            SetupRun { stage: answers_stage(true, configuration), ..run },
        ),
        (SetupStage::AwaitAnswers(launch, _), SetupEvent::ConfigurationAnswered) => Ok(
            SetupRun { stage: answers_stage(launch, true), ..run },
        ),
        (SetupStage::AwaitAnswers(false, _), SetupEvent::LaunchLost(why)) => Err(why@),
        (SetupStage::AwaitAnswers(_, false), SetupEvent::ConfigurationLost(why)) => Err(why@),
        (SetupStage::LogSuccess, SetupEvent::Done) => Ok(
            SetupRun { stage: SetupStage::Complete, ..run },
        ),
        _ => Ok(run),
    }
}

impl SetupRun {
    /// Nothing was done yet.
    pub open spec fn start(style: SetupStyle, attaching: bool) -> SetupRun {
        SetupRun { style, attaching, stage: SetupStage::CreateUi }
    }

    /// Nothing was done yet.
    pub fn new(style: SetupStyle, attaching: bool) -> (r: SetupRun)
        ensures
            r == SetupRun::start(style, attaching),
    {
        SetupRun { style, attaching, stage: SetupStage::CreateUi }
    }

    fn at(self, stage: SetupStage) -> (r: Result<SetupRun, String>)
        ensures
            r == Ok::<SetupRun, String>(SetupRun { stage, ..self }),
    {
        Ok(SetupRun { style: self.style, attaching: self.attaching, stage })
    }

    fn with_answers(self, launch: bool, configuration: bool) -> (r: Result<SetupRun, String>)
        ensures
            r == Ok::<SetupRun, String>(
                SetupRun { stage: answers_stage(launch, configuration), ..self },
            ),
    {
        if launch && configuration {
            self.at(SetupStage::LogSuccess)
        } else {
            self.at(SetupStage::AwaitAnswers(launch, configuration))
        }
    }

    /// How far setting up comes with an event, or why it fails.
    pub fn next(self, event: SetupEvent) -> (r: Result<SetupRun, String>)
        ensures
            match r {
                Ok(run) => setup_after(self, event) == Ok::<SetupRun, Seq<char>>(run),
                Err(e) => setup_after(self, event) == Err::<SetupRun, Seq<char>>(e@),
            },
    {
        let watched = self.style == SetupStyle::Watched;
        match event {
            SetupEvent::Failed(why) => Err(why),
            SetupEvent::Done => match self.stage {
                SetupStage::CreateUi => self.at(SetupStage::InitHandler),
                SetupStage::InitHandler => self.at(SetupStage::HandleMessages),
                SetupStage::HandleMessages => self.at(SetupStage::LaunchProgram),
                SetupStage::SetBreakpoints => self.at(SetupStage::ConfigurationDone),
                SetupStage::ConfigurationDone => self.at(SetupStage::AwaitAnswers(false, false)),
                SetupStage::LogSuccess => self.at(SetupStage::Complete),
                _ => Ok(self),
            },
            SetupEvent::Launched(integrated) => match self.stage {
                SetupStage::LaunchProgram => if (watched && integrated) || (!watched
                    && !self.attaching) {
                    self.at(SetupStage::AwaitTerminal)
                } else {
                    self.at(SetupStage::SetBreakpoints)
                },
                _ => Ok(self),
            },
            SetupEvent::LaunchAnswered(success, shown) => match self.stage {
                SetupStage::AwaitTerminal => if watched && !success {
                    Err("Error launching program: ".to_string().concat(shown.as_str()))
                } else {
                    Ok(self)
                },
                SetupStage::AwaitAnswers(_, configuration) => self.with_answers(
                    true,
                    configuration,
                ),
                _ => Ok(self),
            },
            SetupEvent::LaunchLost(why) => match self.stage {
                SetupStage::AwaitTerminal => if watched {
                    Err("Error launching program: ".to_string().concat(why.as_str()))
                } else {
                    Ok(self)
                },
                SetupStage::AwaitAnswers(false, _) => Err(why),
                _ => Ok(self),
            },
            SetupEvent::TerminalSpawned => match self.stage {
                SetupStage::AwaitTerminal => self.at(SetupStage::SetBreakpoints),
                _ => Ok(self),
            },
            SetupEvent::TerminalLost(why) => match self.stage {
                SetupStage::AwaitTerminal => Err(why),
                _ => Ok(self),
            },
            SetupEvent::ConfigurationAnswered => match self.stage {
                SetupStage::AwaitAnswers(launch, _) => self.with_answers(launch, true),
                _ => Ok(self),
            },
            SetupEvent::ConfigurationLost(why) => match self.stage {
                SetupStage::AwaitAnswers(_, false) => Err(why),
                _ => Ok(self),
            },
        }
    }

    /// What the log says when everything is set up.
    pub fn success_message(self) -> (r: String)
        ensures
            r@ == (match self.style {
                SetupStyle::Watched => "DAP Debugger and program launched successfully"@,
                SetupStyle::Plain => "Debugger and program launched successfully"@,
            }),
    {
        match self.style {
            SetupStyle::Watched => "DAP Debugger and program launched successfully".to_string(),
            SetupStyle::Plain => "Debugger and program launched successfully".to_string(),
        }
    }
}

/// How far setting up comes with several events.
pub open spec fn setup_with(run: SetupRun, events: Seq<SetupEvent>) -> Result<SetupRun, Seq<char>>
    decreases events.len(),
{
    if events.len() == 0 {
        Ok(run)
    } else {
        match setup_with(run, events.drop_last()) {
            Ok(before) => setup_after(before, events.last()),
            Err(e) => Err(e),
        }
    }
}

/// How many stages were left behind, at least.
pub open spec fn stage_rank(stage: SetupStage) -> nat {
    match stage {
        SetupStage::CreateUi => 0,
        SetupStage::InitHandler => 1,
        SetupStage::HandleMessages => 2,
        SetupStage::LaunchProgram => 3,
        SetupStage::AwaitTerminal => 4,
        SetupStage::SetBreakpoints => 5,
        SetupStage::ConfigurationDone => 6,
        SetupStage::AwaitAnswers(launch, configuration) => if launch || configuration {
            8
        } else {
            7
        },
        SetupStage::LogSuccess => 9,
        SetupStage::Complete => 10,
    }
}

/// Setting up never goes back to a stage that it left.
pub proof fn setup_goes_forward(run: SetupRun, event: SetupEvent)
    ensures
        setup_after(run, event) matches Ok(next) ==> {
            &&& next.style == run.style
            &&& next.attaching == run.attaching
            &&& next == run || stage_rank(run.stage) < stage_rank(next.stage)
        },
{
}

/// The program was launched, in a terminal or not.
pub open spec fn launched_in(events: Seq<SetupEvent>) -> bool {
    exists|i: int| 0 <= i < events.len() && #[trigger] events[i] is Launched
}

/// The launch was answered.
pub open spec fn launch_answered_in(events: Seq<SetupEvent>) -> bool {
    exists|i: int| 0 <= i < events.len() && #[trigger] events[i] is LaunchAnswered
}

/// The end of the configuration was answered.
pub open spec fn configuration_answered_in(events: Seq<SetupEvent>) -> bool {
    exists|i: int| 0 <= i < events.len() && #[trigger] events[i] is ConfigurationAnswered
}

/// The program runs in its terminal.
pub open spec fn terminal_in(events: Seq<SetupEvent>) -> bool {
    exists|i: int| 0 <= i < events.len() && #[trigger] events[i] is TerminalSpawned
}

/// Whether a stage tells that the launch was answered.
spec fn launch_noted(stage: SetupStage) -> bool {
    match stage {
        SetupStage::AwaitAnswers(launch, _) => launch,
        _ => stage_rank(stage) >= 9,
    }
}

/// Whether a stage tells that the end of the configuration was answered.
spec fn configuration_noted(stage: SetupStage) -> bool {
    match stage {
        SetupStage::AwaitAnswers(_, configuration) => configuration,
        _ => stage_rank(stage) >= 9,
    }
}

proof fn what_was_met(style: SetupStyle, attaching: bool, events: Seq<SetupEvent>)
    ensures
        setup_with(SetupRun::start(style, attaching), events) matches Ok(run) ==> {
            &&& run.style == style
            &&& run.attaching == attaching
            &&& stage_rank(run.stage) >= 4 ==> launched_in(events)
            &&& stage_rank(run.stage) >= 5 && style == SetupStyle::Plain && !attaching
                ==> terminal_in(events)
            &&& launch_noted(run.stage) ==> launch_answered_in(events)
            &&& configuration_noted(run.stage) ==> configuration_answered_in(events)
        },
    decreases events.len(),
{
    let start = SetupRun::start(style, attaching);
    if events.len() > 0 {
        let fewer = events.drop_last();
        what_was_met(style, attaching, fewer);
        assert(forall|i: int| 0 <= i < fewer.len() ==> fewer[i] == #[trigger] events[i]);
        assert(events.last() == events[events.len() - 1]);
        assert(launched_in(fewer) ==> launched_in(events));
        assert(terminal_in(fewer) ==> terminal_in(events));
        assert(launch_answered_in(fewer) ==> launch_answered_in(events));
        assert(configuration_answered_in(fewer) ==> configuration_answered_in(events));
        if setup_with(start, fewer) is Ok {
            let before = setup_with(start, fewer)->Ok_0;
            setup_goes_forward(before, events.last());
            assert(events.last() is Launched ==> launched_in(events));
            assert(events.last() is TerminalSpawned ==> terminal_in(events));
            assert(events.last() is LaunchAnswered ==> launch_answered_in(events));
            assert(events.last() is ConfigurationAnswered ==> configuration_answered_in(events));
        }
    }
}

/// A session is set up only when the program was launched and both the launch and
/// the end of the configuration were answered, and, without attaching, when the
/// program runs in its terminal, if that is waited for in any case.
pub proof fn complete_means_answered(style: SetupStyle, attaching: bool, events: Seq<SetupEvent>)
    requires
        setup_with(SetupRun::start(style, attaching), events) matches Ok(run) && run.stage
            == SetupStage::Complete,
    ensures
        launched_in(events),
        launch_answered_in(events),
        configuration_answered_in(events),
        style == SetupStyle::Plain && !attaching ==> terminal_in(events),
{
    what_was_met(style, attaching, events);
}

/// Whoever waits for the terminal goes on only when the program runs in it.
pub proof fn terminal_is_waited_for(run: SetupRun, events: Seq<SetupEvent>)
    requires
        run.stage == SetupStage::AwaitTerminal,
        setup_with(run, events) matches Ok(end) && end.stage != SetupStage::AwaitTerminal,
    ensures
        terminal_in(events),
    decreases events.len(),
{
    if events.len() > 0 {
        let fewer = events.drop_last();
        let before = setup_with(run, fewer)->Ok_0;
        assert(setup_with(run, fewer) is Ok);
        if before.stage == SetupStage::AwaitTerminal {
            assert(events.last() is TerminalSpawned);
            assert(events[events.len() - 1] is TerminalSpawned);
        } else {
            terminal_is_waited_for(run, fewer);
            let i = choose|i: int| 0 <= i < fewer.len() && #[trigger] fewer[i] is TerminalSpawned;
            assert(events[i] is TerminalSpawned);
        }
    }
}

/// Where a message of the adapter goes.
#[derive(Debug)]
pub enum MessageRoute {
    /// To what answers requests, with the number of the request.
    Request(u32, RequestArguments),
    /// To who waits for it, and nowhere else.
    Awaited,
    /// To what follows events.
    Event(EventBody),
}

/// Where a message of the adapter goes. Requests have numbers.
pub fn route_message(message: ProtocolMessage) -> (r: MessageRoute)
    requires
        message.type_ is Request ==> message.seq is First,
    ensures
        r == (match message.type_ {
            ProtocolMessageType::Request(args) => MessageRoute::Request(
                message.seq->First_0,
                args,
            ),
            ProtocolMessageType::Response(_) => MessageRoute::Awaited,
            ProtocolMessageType::Event(event) => MessageRoute::Event(event),
        }),
{
    match message.type_ {
        ProtocolMessageType::Request(args) => MessageRoute::Request(*message.seq.first(), args),
        ProtocolMessageType::Response(_) => MessageRoute::Awaited,
        ProtocolMessageType::Event(event) => MessageRoute::Event(event),
    }
}

/// What the log says when no message could be received.
pub fn receive_failure(why: &str) -> (r: String)
    ensures
        r@ == "Error receiving message: "@ + why@,
{
    "Error receiving message: ".to_string().concat(why)
}

/// What the log says when a message could not be dealt with.
pub fn message_failure(why: &str) -> (r: String)
    ensures
        r@ == "Error handling message: "@ + why@,
{
    "Error handling message: ".to_string().concat(why)
}

/// Setting up fails exactly where something that was to be done failed, or where what is
/// waited for is lost: the terminal, or with a watched launch the launch itself, or an
/// answer that is still waited for.
pub proof fn setup_fails_where_something_is_lost(
    run: SetupRun,
    event: SetupEvent,
    r: Result<SetupRun, String>,
)
    requires
        call_ensures(SetupRun::next, (run, event), r),
    ensures
        r is Err <==> match event {
            SetupEvent::Failed(_) => true,
            SetupEvent::TerminalLost(_) => run.stage == SetupStage::AwaitTerminal,
            SetupEvent::LaunchAnswered(success, _) => run.stage == SetupStage::AwaitTerminal
                && run.style == SetupStyle::Watched && !success,
            SetupEvent::LaunchLost(_) => (run.stage == SetupStage::AwaitTerminal && run.style
                == SetupStyle::Watched) || (run.stage matches SetupStage::AwaitAnswers(launch, _)
                && !launch),
            SetupEvent::ConfigurationLost(_) => run.stage matches SetupStage::AwaitAnswers(_, done)
                && !done,
            _ => false,
        },
        event matches SetupEvent::Failed(why) ==> (r matches Err(e) && e@ == why@),
        event matches SetupEvent::TerminalLost(why) ==> (r matches Err(e) ==> e@ == why@),
{
}

/// What is done leads from each stage to the one after it, and no stage is skipped: the
/// window, the adapter, the messages, the launch, the terminal if it is waited for, the
/// breakpoints, the end of the configuration, both answers, and the log.
pub proof fn setup_takes_one_stage_after_the_other(
    run: SetupRun,
    event: SetupEvent,
    next: SetupRun,
)
    requires
        call_ensures(SetupRun::next, (run, event), Ok(next)),
    ensures
        next.style == run.style,
        next.attaching == run.attaching,
        next.stage == SetupStage::InitHandler <==> (run.stage == SetupStage::CreateUi
            && event is Done) || (run.stage == SetupStage::InitHandler && !(event is Done)),
        next.stage == SetupStage::HandleMessages <==> (run.stage == SetupStage::InitHandler
            && event is Done) || (run.stage == SetupStage::HandleMessages && !(event is Done)),
        next.stage == SetupStage::LaunchProgram <==> (run.stage == SetupStage::HandleMessages
            && event is Done) || (run.stage == SetupStage::LaunchProgram && !(event is Launched)),
        next.stage == SetupStage::AwaitTerminal <==> (run.stage == SetupStage::LaunchProgram && (
        event matches SetupEvent::Launched(integrated) && (if run.style == SetupStyle::Watched {
            integrated
        } else {
            !run.attaching
        }))) || (run.stage == SetupStage::AwaitTerminal && !(event is TerminalSpawned)),
        next.stage == SetupStage::SetBreakpoints <==> (run.stage == SetupStage::LaunchProgram && (
        event matches SetupEvent::Launched(integrated) && (if run.style == SetupStyle::Watched {
            !integrated
        } else {
            run.attaching
        }))) || (run.stage == SetupStage::AwaitTerminal && event is TerminalSpawned) || (run.stage
            == SetupStage::SetBreakpoints && !(event is Done)),
        next.stage == SetupStage::ConfigurationDone <==> (run.stage == SetupStage::SetBreakpoints
            && event is Done) || (run.stage == SetupStage::ConfigurationDone && !(event is Done)),
        run.stage == SetupStage::ConfigurationDone && event is Done ==> next.stage
            == SetupStage::AwaitAnswers(false, false),
        run.stage matches SetupStage::AwaitAnswers(launch, configuration) ==> {
            let launched = launch || event is LaunchAnswered;
            let configured = configuration || event is ConfigurationAnswered;
            (event is LaunchAnswered || event is ConfigurationAnswered) ==> next.stage == (if launched
                && configured {
                SetupStage::LogSuccess
            } else {
                SetupStage::AwaitAnswers(launched, configured)
            })
        },
        next.stage == SetupStage::Complete <==> (run.stage == SetupStage::LogSuccess
            && event is Done) || run.stage == SetupStage::Complete,
{
}

/// A message goes to one place: a request to what answers it, under its number, an answer
/// to who waits for it, and an event to what follows events.
pub proof fn message_goes_where_it_belongs(message: ProtocolMessage, r: MessageRoute)
    requires
        call_ensures(route_message, (message,), r),
    ensures
        message.type_ is Response <==> r is Awaited,
        message.type_ matches ProtocolMessageType::Event(event) ==> r == MessageRoute::Event(event),
        message.type_ matches ProtocolMessageType::Request(args) ==> (message.seq matches
            crate::protocol::Either::First(n) ==> r == MessageRoute::Request(n, args)),
{
}

} // verus!
