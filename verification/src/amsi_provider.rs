//! The AMSI provider: what runs inside a scripting host.
use vstd::prelude::*;

pub mod client;
pub mod decision;
pub mod decode;
pub mod executor;
pub mod json;
pub mod provider;
pub mod registration;

use crate::text::{a_text_stands_where_it_was_put, contains_text, lower_chars, lowered, occurs};

verus! {

/// A host application whose name holds a text, in whatever case.
pub open spec fn names(app: Seq<char>, part: Seq<char>) -> bool {
    occurs(part, lowered(app))
}

/// The language token of a host application.
pub open spec fn language_of(app: Seq<char>) -> Seq<char> {
    if names(app, "powershell"@) || names(app, "pwsh"@) {
        "powershell"@
    } else if names(app, "cscript"@) || names(app, "wscript"@) {
        "cscript"@
    } else if names(app, "mshta"@) {
        "mshta"@
    } else if names(app, "dotnet"@) || names(app, "clr"@) || names(app, ".net"@) {
        "dotnet"@
    } else {
        "other"@
    }
}

/// Maps the name of a host application to the `language` token that the
/// daemon's `runtime.scan_buffer` takes.
pub fn language_from_app(app: &str) -> (r: &'static str)
    ensures
        r@ == language_of(app@),
{
    let lower: Vec<char> = lower_chars(app);
    if contains_text(&lower, "powershell") || contains_text(&lower, "pwsh") {
        "powershell"
    } else if contains_text(&lower, "cscript") || contains_text(&lower, "wscript") {
        // Ambiguous between JScript and VBScript; the daemon takes it for
        // JScript.
        "cscript"
    } else if contains_text(&lower, "mshta") {
        "mshta"
    } else if contains_text(&lower, "dotnet") || contains_text(&lower, "clr") || contains_text(
        &lower,
        ".net",
    ) {
        "dotnet"
    } else {
        "other"
    }
}

/// The case of a host application's name does not matter.
pub proof fn the_case_of_the_name_does_not_matter(a: Seq<char>, b: Seq<char>)
    requires
        lowered(a) == lowered(b),
    ensures
        language_of(a) == language_of(b),
{
}

/// What a host application is taken for goes by the names that stand in its own,
/// the more specific hosts before the runtime that they share; one with none of
/// these names is another host.
pub proof fn a_host_is_known_by_its_name(app: Seq<char>)
    ensures
        language_of(app) == "powershell"@ <==> occurs("powershell"@, lowered(app)) || occurs(
            "pwsh"@,
            lowered(app),
        ),
        language_of(app) == "cscript"@ <==> (occurs("cscript"@, lowered(app)) || occurs(
            "wscript"@,
            lowered(app),
        )) && language_of(app) != "powershell"@,
        language_of(app) == "mshta"@ <==> occurs("mshta"@, lowered(app)) && language_of(app)
            != "powershell"@ && language_of(app) != "cscript"@,
        language_of(app) == "dotnet"@ <==> (occurs("dotnet"@, lowered(app)) || occurs(
            "clr"@,
            lowered(app),
        ) || occurs(".net"@, lowered(app))) && language_of(app) != "powershell"@ && language_of(app)
            != "cscript"@ && language_of(app) != "mshta"@,
        language_of(app) == "other"@ <==> language_of(app) != "powershell"@ && language_of(app)
            != "cscript"@ && language_of(app) != "mshta"@ && language_of(app) != "dotnet"@,
{
    reveal_strlit("powershell");
    reveal_strlit("cscript");
    reveal_strlit("mshta");
    reveal_strlit("dotnet");
    reveal_strlit("other");
    assert("mshta"@[0] != "other"@[0]);
}

/// A host application of PowerShell is taken for one wherever its name stands and
/// whatever stands around it.
pub proof fn powershell_is_known_anywhere(before: Seq<char>, after: Seq<char>, app: Seq<char>)
    requires
        lowered(app) == before + "powershell"@ + after || lowered(app) == before + "pwsh"@ + after,
    ensures
        language_of(app) == "powershell"@,
{
    a_text_stands_where_it_was_put(before, "powershell"@, after);
    a_text_stands_where_it_was_put(before, "pwsh"@, after);
}

} // verus!
