//! Resolving the name of a font to a file with the `kpsewhich` tool of a TeX
//! distribution. Running the tool is the caller's part; what the tool is
//! asked and what its answer means is decided here.

use crate::errors::{DviousError, DviousResult, Failure};
use vstd::prelude::*;
use vstd::string::StringExecFns;

verus! {

/// Whether `c` is white space to `str::trim`, that is, whether it has the
/// Unicode property `White_Space`.
pub uninterp spec fn is_white_space(c: char) -> bool;

/// Whether `inner` is what is left of `text` when white space, and nothing
/// else, is taken from its two ends.
pub open spec fn is_within_white_space(inner: Seq<char>, text: Seq<char>) -> bool {
    exists|start: int, end: int|
        {
            &&& 0 <= start <= end <= text.len()
            &&& inner == #[trigger] text.subrange(start, end)
            &&& forall|i: int| 0 <= i < start ==> is_white_space(#[trigger] text[i])
            &&& forall|i: int| end <= i < text.len() ==> is_white_space(#[trigger] text[i])
        }
}

/// Whether `trimmed` is `text` without the white space at its two ends.
pub open spec fn is_trimmed(trimmed: Seq<char>, text: Seq<char>) -> bool {
    &&& is_within_white_space(trimmed, text)
    &&& trimmed.len() > 0 ==> !is_white_space(trimmed.first()) && !is_white_space(trimmed.last())
}

/// `str::trim` gives the part of the text between its leading and its
/// trailing white space, which is empty where the text is all white space.
pub assume_specification[ str::trim ](text: &str) -> (trimmed: &str)
    ensures
        is_within_white_space(trimmed@, text@),
        trimmed@.len() > 0 ==> !is_white_space(trimmed@.first()) && !is_white_space(
            trimmed@.last(),
        ),
;

/// The message of a run that did not succeed.
pub open spec fn nonzero_status_message() -> Seq<char> {
    "Kpsewhich finished with nonzero status code!"@
}

/// The arguments that ask the tool for the file of format `file_format`
/// that belongs to the font `name`.
pub fn kpsewhich_arguments(name: String, file_format: &str) -> (arguments: Vec<String>)
    ensures
        arguments@.len() == 2,
        arguments@[0]@ == "--format="@ + file_format@,
        arguments@[1]@ == name@,
{
    let mut format = String::from_str("--format=");
    format.append(file_format);
    let mut arguments = Vec::new();
    arguments.push(format);
    arguments.push(name);
    arguments
}

/// The arguments that ask the tool for the packed bitmaps of the font `name`.
pub fn pk_arguments(name: String) -> (arguments: Vec<String>)
    ensures
        arguments@.len() == 2,
        arguments@[0]@ == "--format=pk"@,
        arguments@[1]@ == name@,
{
    proof {
        reveal_strlit("--format=");
        reveal_strlit("pk");
        reveal_strlit("--format=pk");
        assert("--format="@ + "pk"@ =~= "--format=pk"@);
    }
    kpsewhich_arguments(name, "pk")
}

/// The arguments that ask the tool for the metrics of the font `name`.
pub fn tfm_arguments(name: String) -> (arguments: Vec<String>)
    ensures
        arguments@.len() == 2,
        arguments@[0]@ == "--format=tfm"@,
        arguments@[1]@ == name@,
{
    proof {
        reveal_strlit("--format=");
        reveal_strlit("tfm");
        reveal_strlit("--format=tfm");
        assert("--format="@ + "tfm"@ =~= "--format=tfm"@);
    }
    kpsewhich_arguments(name, "tfm")
}

/// What a finished run of the tool means: where it exited with status zero,
/// the path is what it printed, without the white space around it; any other
/// exit is an error of the resolver.
pub fn kpsewhich_result(succeeded: bool, output: &str) -> (result: DviousResult<String>)
    ensures
        match result {
            Ok(path) => succeeded && is_trimmed(path@, output@),
            Err(error) => !succeeded && error@ == Failure::Kpsewhich(nonzero_status_message()),
        },
{
    if succeeded {
        let s = String::from_str(output.trim());
        Ok(s)
    } else {
        Err(
            DviousError::KpsewhichError(
                String::from_str("Kpsewhich finished with nonzero status code!"),
            ),
        )
    }
}

} // verus!
