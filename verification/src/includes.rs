//! The rules for `include:` entries of a profile read from disk.

use vstd::prelude::*;
use crate::dict::Dict;
use crate::error::{ErrorModel, YcallrError};
use crate::models::command::quoted;
use crate::models::types::Command;
use crate::profile_store::{join_path, path_join};
use crate::text::{is_blank, is_blank_str};

verus! {

/// What an `include:` entry of command `path` is refused for before its file is
/// read: inline sub-commands beside it, a blank path, or no directory to read from.
pub open spec fn include_problem(path: Seq<char>, has_inline_commands: bool, fragment: Seq<char>, has_base_dir: bool) -> Option<
    Seq<char>,
> {
    if has_inline_commands {
        Some("Command '"@ + path + "': cannot use both 'include' and inline 'commands'"@)
    } else if is_blank(fragment) {
        Some("Command '"@ + path + "': 'include' path cannot be empty"@)
    } else if !has_base_dir {
        Some("Command '"@ + path + "': 'include' requires parsing from a YAML file on disk"@)
    } else {
        None
    }
}

/// The file an `include:` entry names: an absolute path as it is, a relative
/// one joined onto the directory of the file that holds the entry.
pub fn resolve_include_path(base_dir: &str, fragment: &str) -> (r: String)
    ensures
        r@ == path_join(base_dir@, fragment@),
{
    join_path(base_dir, fragment)
}

/// Checks an `include:` entry of command `command_path` before its file is read.
pub fn check_include(command_path: &str, has_inline_commands: bool, fragment: &str, has_base_dir: bool) -> (r: Result<
    (),
    YcallrError,
>)
    ensures
        match include_problem(command_path@, has_inline_commands, fragment@, has_base_dir) {
            Some(m) => r matches Err(e) && e@ == ErrorModel::InvalidDefinition(m),
            None => r is Ok,
        },
{
    if has_inline_commands {
        return Err(
            YcallrError::InvalidDefinition(
                quoted("Command '", command_path, "': cannot use both 'include' and inline 'commands'"),
            ),
        );
    }
    if is_blank_str(fragment) {
        return Err(YcallrError::InvalidDefinition(quoted("Command '", command_path, "': 'include' path cannot be empty")));
    }
    if !has_base_dir {
        return Err(
            YcallrError::InvalidDefinition(
                quoted("Command '", command_path, "': 'include' requires parsing from a YAML file on disk"),
            ),
        );
    }
    Ok(())
}

/// The error for an include that is already being read further up.
pub fn circular_include_error(command_path: &str, fragment: &str) -> (r: YcallrError)
    ensures
        r@ == ErrorModel::InvalidDefinition(
            "Command '"@ + command_path@ + "': circular include detected for '"@ + fragment@ + "'"@,
        ),
{
    let mut m = quoted("Command '", command_path, "': circular include detected for '");
    m.append(fragment);
    m.append("'");
    YcallrError::InvalidDefinition(m)
}

/// The texts of a list of strings.
pub open spec fn stack_texts(v: Seq<String>) -> Seq<Seq<char>> {
    Seq::new(v.len(), |i: int| v[i]@)
}

/// Enters the include file `canonical` (its resolved path; `shown` is how the
/// entry names it) while reading command `command_path`: refused as circular
/// when a file further up is the same one; otherwise it is pushed on the
/// stack of files being read.
pub fn enter_include(stack: &mut Vec<String>, canonical: &str, command_path: &str, shown: &str) -> (r: Result<
    (),
    YcallrError,
>)
    ensures
        stack_texts(old(stack)@).contains(canonical@) ==> (r matches Err(e) && e@ == ErrorModel::InvalidDefinition(
            "Command '"@ + command_path@ + "': circular include detected for '"@ + shown@ + "'"@,
        )) && final(stack)@ == old(stack)@,
        !stack_texts(old(stack)@).contains(canonical@) ==> r is Ok && stack_texts(final(stack)@) == stack_texts(
            old(stack)@,
        ).push(canonical@),
{
    let mut i: usize = 0;
    while i < stack.len()
        invariant
            i <= stack@.len(),
            forall|k: int| 0 <= k < i ==> stack@[k]@ != canonical@,
        decreases stack@.len() - i,
    {
        if crate::text::str_eq(stack[i].as_str(), canonical) {
            assert(stack_texts(stack@)[i as int] == canonical@);
            return Err(circular_include_error(command_path, shown));
        }
        i = i + 1;
    }
    assert(!stack_texts(stack@).contains(canonical@)) by {
        if stack_texts(stack@).contains(canonical@) {
            let k = choose|k: int| 0 <= k < stack_texts(stack@).len() && stack_texts(stack@)[k] == canonical@;
            assert(stack@[k]@ == canonical@);
        }
    }
    let ghost before = stack@;
    stack.push(crate::text::owned(canonical));
    assert(stack_texts(stack@) =~= stack_texts(before).push(canonical@));
    Ok(())
}

/// Leaves the include file read last: the stack without its top entry.
pub fn leave_include(stack: &mut Vec<String>)
    ensures
        old(stack)@.len() > 0 ==> final(stack)@ == old(stack)@.drop_last(),
        old(stack)@.len() == 0 ==> final(stack)@ == old(stack)@,
{
    if stack.len() > 0 {
        let _ = stack.pop();
    }
}

/// `<prefix>.<name>`, the path of a sub-command.
pub fn child_command_path(prefix: &str, name: &str) -> (r: String)
    ensures
        r@ == prefix@ + "."@ + name@,
{
    quoted(prefix, ".", name)
}

/// Inline sub-commands as a command keeps them: none when the table is empty.
pub fn inline_sub_commands(resolved: Dict<Command>) -> (r: Option<Dict<Command>>)
    ensures
        resolved.entries@.len() == 0 ==> r is None,
        resolved.entries@.len() > 0 ==> r == Some(resolved),
{
    if resolved.len() == 0 {
        None
    } else {
        Some(resolved)
    }
}

/// Whether a fragment's top-level `commands` key can stand for the fragment:
/// only when it is the fragment's one key.
pub fn wrapped_fragment_ok(key_count: usize) -> (r: bool)
    ensures
        r == (key_count == 1),
{
    key_count == 1
}

} // verus!
