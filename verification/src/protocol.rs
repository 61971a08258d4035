//! The messages of the debug adapter protocol.
#![allow(non_camel_case_types)]

use crate::json::Json;
use crate::schema::{
    BreakpointEventBody, Capabilities, CapabilitiesEventBody, ContinueArguments,
    ContinueResponseBody, ContinuedEventBody, DisconnectArguments, ExitedEventBody,
    InitializeRequestArguments, InvalidatedEventBody, LaunchRequestArguments, ModuleEventBody,
    NextArguments, OutputEventBody, PauseArguments, ProcessEventBody,
    RunInTerminalRequestArguments, RunInTerminalResponseBody, ScopesArguments, ScopesResponseBody,
    SetBreakpointsArguments, SetBreakpointsResponseBody, SetExceptionBreakpointsArguments,
    SetFunctionBreakpointsArguments, SourceArguments, SourceResponseBody, StackTraceArguments,
    StackTraceResponseBody, StepInArguments, StoppedEventBody, TerminatedEventBody,
    ThreadEventBody, ThreadsResponseBody, VariablesArguments, VariablesResponseBody,
};
use vstd::prelude::*;

verus! {

/// One of two things.
#[derive(Debug, Copy, Clone)]
pub enum Either<T1, T2> {
    First(T1),
    Second(T2),
}

impl<T1, T2> Either<T1, T2> {
    /// The first thing, which it must be.
    pub fn first(&self) -> (r: &T1)
        requires
            self is First,
        ensures
            *self == Either::<T1, T2>::First(*r),
    {
        match self {
            Either::First(x) => x,
            Either::Second(_) => vstd::pervasive::unreached(),
        }
    }

    /// The second thing, which it must be.
    pub fn second(&self) -> (r: &T2)
        requires
            self is Second,
        ensures
            *self == Either::<T1, T2>::Second(*r),
    {
        match self {
            Either::First(_) => vstd::pervasive::unreached(),
            Either::Second(x) => x,
        }
    }
}

/// An object without members.
#[derive(Debug, Copy, Clone)]
pub struct Empty {}

/// A message, with its number.
#[derive(Debug)]
pub struct ProtocolMessage {
    pub seq: Either<u32, String>,
    pub type_: ProtocolMessageType,
}

/// The three types of messages.
#[derive(Debug)]
pub enum ProtocolMessageType {
    Request(RequestArguments),
    Response(Response),
    Event(EventBody),
}

/// What a request asks for.
#[derive(Debug)]
pub enum RequestArguments {
    initialize(InitializeRequestArguments),
    launch(Either<LaunchRequestArguments, Json>),
    attach(Json),
    setBreakpoints(SetBreakpointsArguments),
    setFunctionBreakpoints(SetFunctionBreakpointsArguments),
    setExceptionBreakpoints(SetExceptionBreakpointsArguments),
    configurationDone(Option<Empty>),
    pause(PauseArguments),
    continue_(ContinueArguments),
    next(NextArguments),
    stepIn(StepInArguments),
    threads(Option<Empty>),
    stackTrace(StackTraceArguments),
    scopes(ScopesArguments),
    source(SourceArguments),
    variables(VariablesArguments),
    disconnect(DisconnectArguments),
    runInTerminal(RunInTerminalRequestArguments),
    unknown,
}

/// The answer to the request with the number `request_seq`.
#[derive(Debug)]
pub struct Response {
    pub request_seq: Either<u32, String>,
    pub success: bool,
    pub result: ResponseResult,
}

/// What was asked for, or why it could not be had.
#[derive(Debug)]
pub enum ResponseResult {
    Success { body: ResponseBody },
    Error { command: String, message: String, show_user: Option<bool> },
}

/// What was asked for.
#[derive(Debug)]
pub enum ResponseBody {
    initialize(Capabilities),
    launch(Option<Empty>),
    attach(Option<Empty>),
    setBreakpoints(SetBreakpointsResponseBody),
    setFunctionBreakpoints(SetBreakpointsResponseBody),
    setExceptionBreakpoints(Option<Empty>),
    configurationDone(Option<Empty>),
    pause(Option<Empty>),
    continue_(ContinueResponseBody),
    next(Option<Empty>),
    stepIn(Option<Empty>),
    threads(ThreadsResponseBody),
    stackTrace(StackTraceResponseBody),
    scopes(ScopesResponseBody),
    source(SourceResponseBody),
    variables(VariablesResponseBody),
    disconnect(Option<Empty>),
    runInTerminal(RunInTerminalResponseBody),
}

/// What happened.
#[derive(Debug)]
pub enum EventBody {
    initialized(Option<Empty>),
    output(OutputEventBody),
    breakpoint(BreakpointEventBody),
    capabilities(CapabilitiesEventBody),
    continued(ContinuedEventBody),
    exited(ExitedEventBody),
    module(ModuleEventBody),
    terminated(TerminatedEventBody),
    thread(ThreadEventBody),
    invalidated(InvalidatedEventBody),
    stopped(StoppedEventBody),
    process(ProcessEventBody),
}

} // verus!
