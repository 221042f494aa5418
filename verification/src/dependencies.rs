//! Checking that the external tools are installed and working.

use vstd::prelude::*;

verus! {

/// An external program the encoder needs.
#[derive(Clone, Copy, Debug, PartialEq, Eq, Structural)]
pub enum Tool {
    Ffmpeg,
    Mediainfo,
}

/// What probing a tool found.
#[derive(Clone, Copy, Debug, PartialEq, Eq, Structural)]
pub enum ToolStatus {
    /// Not found in `PATH`.
    NotFound,
    /// Found, but it could not be started.
    FailedToRun,
    /// Its version query exited unsuccessfully.
    Failed,
    /// Found, and its version query succeeded.
    Working,
}

/// A tool that is missing or broken.
#[derive(Clone, Copy, Debug, PartialEq, Eq, Structural)]
pub struct DependencyError {
    pub tool: Tool,
    pub status: ToolStatus,
}

/// The program name looked up in `PATH`.
pub open spec fn tool_program(t: Tool) -> Seq<char> {
    match t {
        Tool::Ffmpeg => "ffmpeg"@,
        Tool::Mediainfo => "mediainfo"@,
    }
}

/// The argument that asks the tool for its version.
pub open spec fn tool_version_flag(t: Tool) -> Seq<char> {
    match t {
        Tool::Ffmpeg => "-version"@,
        Tool::Mediainfo => "--version"@,
    }
}

impl Tool {
    /// The program name looked up in `PATH`.
    pub fn program(&self) -> (s: String)
        ensures
            s@ == tool_program(*self),
    {
        match self {
            Tool::Ffmpeg => "ffmpeg".to_owned(),
            Tool::Mediainfo => "mediainfo".to_owned(),
        }
    }

    /// The argument that asks the tool for its version.
    pub fn version_flag(&self) -> (s: String)
        ensures
            s@ == tool_version_flag(*self),
    {
        match self {
            Tool::Ffmpeg => "-version".to_owned(),
            Tool::Mediainfo => "--version".to_owned(),
        }
    }
}

/// Probes ffmpeg, then mediainfo, with `probe`, stopping at the first tool
/// that is not working.
pub fn check_dependencies<F: Fn(Tool) -> ToolStatus>(probe: &F) -> (r: Result<(), DependencyError>)
    requires
        forall|t: Tool| call_requires(*probe, (t,)),
    ensures
        match r {
            Ok(()) => call_ensures(*probe, (Tool::Ffmpeg,), ToolStatus::Working) && call_ensures(
                *probe,
                (Tool::Mediainfo,),
                ToolStatus::Working,
            ),
            Err(e) => e.status != ToolStatus::Working && call_ensures(*probe, (e.tool,), e.status)
                && (e.tool == Tool::Mediainfo ==> call_ensures(
                *probe,
                (Tool::Ffmpeg,),
                ToolStatus::Working,
            )),
        },
{
    let ffmpeg = probe(Tool::Ffmpeg);
    if ffmpeg != ToolStatus::Working {
        return Err(DependencyError { tool: Tool::Ffmpeg, status: ffmpeg });
    }
    let mediainfo = probe(Tool::Mediainfo);
    if mediainfo != ToolStatus::Working {
        return Err(DependencyError { tool: Tool::Mediainfo, status: mediainfo });
    }
    Ok(())
}

} // verus!
