use vstd::prelude::*;

use crate::error::CommandError;
use crate::registry::{lookup, CommandRegistry};
use crate::version::{get_version, version_of, HostContext};

verus! {

/// The host-side handlers that a command name can stand for.
#[derive(Debug, Clone, Copy, PartialEq, Eq)]
pub enum Handler {
    /// Reports the application's version.
    AppVersion,
}

/// One call from the UI layer: a command name and its named arguments.
pub struct InvocationRequest {
    pub name: String,
    pub args: Vec<(String, String)>,
}

/// A response with its text payload as characters.
pub open spec fn response_view(r: Result<String, CommandError>) -> Result<Seq<char>, CommandError> {
    match r {
        Ok(s) => Ok(s@),
        Err(e) => Err(e),
    }
}

/// What running `h` in `ctx` answers.
pub open spec fn handler_output(h: Handler, ctx: HostContext) -> Result<Seq<char>, CommandError> {
    match h {
        Handler::AppVersion => Ok(version_of(ctx)),
    }
}

/// What dispatching a call of `name` answers, given the registry's table.
pub open spec fn dispatch_result(
    table: Map<Seq<char>, Handler>,
    ctx: HostContext,
    name: Seq<char>,
) -> Result<Seq<char>, CommandError> {
    match lookup(table, name) {
        Ok(h) => handler_output(h, ctx),
        Err(e) => Err(e),
    }
}

/// Runs one handler. The arguments are handed over for handlers that take
/// some; the version handler takes none and ignores them.
pub fn run_handler(h: Handler, ctx: &HostContext, args: &Vec<(String, String)>) -> (r: Result<
    String,
    CommandError,
>)
    ensures
        response_view(r) == handler_output(h, *ctx),
{
    match h {
        Handler::AppVersion => Ok(get_version(ctx)),
    }
}

/// Where the dispatcher stands in serving one call.
pub enum Phase {
    /// Waiting for a request.
    Idle,
    /// Running the handler that the request resolved to.
    Executing(Handler),
    /// Holding the response until it is delivered.
    Responding(Result<String, CommandError>),
}

/// Serves calls from the UI layer one at a time: resolves the name, runs the
/// handler and hands back its response, then waits for the next call.
pub struct Dispatcher {
    phase: Phase,
    args: Vec<(String, String)>,
}

impl Dispatcher {
    pub closed spec fn view(&self) -> Phase {
        self.phase
    }

    /// A dispatcher waiting for its first request.
    pub fn new() -> (r: Self)
        ensures
            r@ is Idle,
    {
        Dispatcher { phase: Phase::Idle, args: Vec::new() }
    }

    /// Where the dispatcher stands.
    pub fn phase(&self) -> (r: &Phase)
        ensures
            *r == self@,
    {
        &self.phase
    }

    /// Takes a request: on to running its handler where the name resolves,
    /// straight to responding with `UnknownCommand` where it does not.
    pub fn receive(&mut self, registry: &CommandRegistry<Handler>, request: InvocationRequest)
        requires
            old(self)@ is Idle,
            registry.wf(),
        ensures
            match lookup(registry@, request.name@) {
                Ok(h) => final(self)@ == Phase::Executing(h),
                Err(e) => final(self)@ == Phase::Responding(Err(e)),
            },
    {
        match registry.resolve(request.name.as_str()) {
            Ok(h) => {
                self.phase = Phase::Executing(*h);
                self.args = request.args;
            },
            Err(e) => {
                self.phase = Phase::Responding(Err(e));
            },
        }
    }

    /// Runs the handler of the current request and holds its response,
    /// failure included.
    pub fn execute(&mut self, ctx: &HostContext)
        requires
            old(self)@ is Executing,
        ensures
            final(self)@ is Responding,
            response_view(final(self)@->Responding_0) == handler_output(
                old(self)@->Executing_0,
                *ctx,
            ),
    {
        if let Phase::Executing(h) = self.phase {
            let response = run_handler(h, ctx, &self.args);
            self.phase = Phase::Responding(response);
            self.args = Vec::new();
        }
    }

    /// Hands the held response back and waits for the next request.
    pub fn deliver(&mut self) -> (r: Result<String, CommandError>)
        requires
            old(self)@ is Responding,
        ensures
            final(self)@ is Idle,
            r == old(self)@->Responding_0,
    {
        let mut phase = Phase::Idle;
        std::mem::swap(&mut phase, &mut self.phase);
        match phase {
            Phase::Responding(response) => response,
            // not reached: the phase was Responding
            _ => Err(CommandError::UnknownCommand),
        }
    }

    /// Serves one request from start to end.
    pub fn serve(
        &mut self,
        registry: &CommandRegistry<Handler>,
        ctx: &HostContext,
        request: InvocationRequest,
    ) -> (r: Result<String, CommandError>)
        requires
            old(self)@ is Idle,
            registry.wf(),
        ensures
            final(self)@ is Idle,
            response_view(r) == dispatch_result(registry@, *ctx, request.name@),
    {
        self.receive(registry, request);
        if let Phase::Executing(_) = self.phase {
            self.execute(ctx);
        }
        self.deliver()
    }
}

/// Answers one call from the UI layer with a fresh dispatcher.
pub fn dispatch(registry: &CommandRegistry<Handler>, ctx: &HostContext, request: InvocationRequest) -> (r:
    Result<String, CommandError>)
    requires
        registry.wf(),
    ensures
        response_view(r) == dispatch_result(registry@, *ctx, request.name@),
{
    let mut dispatcher = Dispatcher::new();
    dispatcher.serve(registry, ctx, request)
}

} // verus!
