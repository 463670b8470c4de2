use vstd::prelude::*;

verus! {

/// What the host knows of the application from its build: its name and its
/// semantic version. Fixed for the life of the process.
pub struct HostContext {
    pub name: String,
    pub version: String,
}

/// The version that the build configured, as the resolver reports it.
pub open spec fn version_of(ctx: HostContext) -> Seq<char> {
    ctx.version@
}

impl HostContext {
    /// The context for an application of the given name and version.
    pub fn new(name: String, version: String) -> (r: Self)
        ensures
            r.name@ == name@,
            r.version@ == version@,
    {
        HostContext { name, version }
    }
}

/// The application's semantic version, verbatim as the build configured it.
pub fn get_version(ctx: &HostContext) -> (r: String)
    ensures
        r@ == version_of(*ctx),
{
    ctx.version.clone()
}

} // verus!
