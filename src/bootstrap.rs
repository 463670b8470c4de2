use vstd::prelude::*;

use crate::dispatch::{dispatch_result, Handler};
use crate::registry::{entries_view, register_all, registered, CommandRegistry};
use crate::version::{version_of, HostContext};

verus! {

/// The name under which the UI asks for the application's version.
pub open spec fn app_version_name() -> Seq<char> {
    "app_version"@
}

/// The line written once at startup in a development build.
pub open spec fn startup_marker() -> Seq<char> {
    "Basalt desktop initialized"@
}

/// Every command that the application offers, by name.
pub open spec fn command_table() -> Map<Seq<char>, Handler> {
    map![app_version_name() => Handler::AppVersion]
}

/// The registry with every command that the application offers.
pub fn build_registry() -> (r: CommandRegistry<Handler>)
    ensures
        r.wf(),
        r@ == command_table(),
{
    let mut entries: Vec<(String, Handler)> = Vec::new();
    entries.push(("app_version".to_owned(), Handler::AppVersion));
    proof {
        reveal_strlit("app_version");
        let all = entries_view(entries@);
        assert(all.len() == 1);
        assert(all.drop_last() =~= Seq::<(Seq<char>, Handler)>::empty());
        assert(registered(all.drop_last()) == Map::<Seq<char>, Handler>::empty());
        assert(all.last() == (app_version_name(), Handler::AppVersion));
        assert(registered(all) =~= command_table());
    }
    match register_all(entries) {
        Ok(registry) => registry,
        // not reached: the names above are distinct
        Err(_) => CommandRegistry::new(),
    }
}

/// The diagnostic lines that startup writes: the marker alone in a
/// development build, nothing in a production build.
pub fn startup_diagnostics(development: bool) -> (r: Vec<String>)
    ensures
        development ==> r@.len() == 1 && r@[0]@ == startup_marker(),
        !development ==> r@.len() == 0,
{
    let mut lines: Vec<String> = Vec::new();
    if development {
        lines.push("Basalt desktop initialized".to_owned());
    }
    lines
}

/// Dispatching the version command answers exactly what the version
/// resolver reports.
pub proof fn lemma_dispatch_version_matches_resolver(ctx: HostContext)
    ensures
        dispatch_result(command_table(), ctx, app_version_name()) == Ok::<
            Seq<char>,
            crate::error::CommandError,
        >(version_of(ctx)),
{
}

} // verus!
