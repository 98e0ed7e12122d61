//! Operations on a whole API profile.

use vstd::prelude::*;
use crate::dict::lookup;
use crate::error::YcallrError;
use crate::models::command::{descend, lemma_lookup_commands, str_views};
use crate::models::details::{sub_names, CommandDetails};
use crate::models::types::{ApiDefinition, ApiModel, Command, CommandModel};
use crate::models::validation::{api_ok, check_name, name_ok, validate_api_for_client};
use crate::text::{owned, sorted, split_char, split_on};

verus! {

broadcast use vstd::std_specs::vec::group_vec_axioms;

/// The command a dotted path names: the first piece among the profile's
/// commands, the rest below it.
pub open spec fn find_command(api: ApiModel, path: Seq<char>) -> Result<CommandModel, Seq<char>> {
    let parts = split_on(path, '.');
    let name = parts[0];
    match lookup(api.commands, name) {
        None => Err(name),
        Some(c) => if parts.len() == 1 {
            Ok(c)
        } else {
            descend(c, parts.drop_first())
        },
    }
}

/// Names of the sub-commands of a command model.
pub open spec fn model_sub_names(c: CommandModel) -> Seq<String> {
    match c.commands {
        Some(es) => Seq::new(es.len(), |i: int| es[i].0),
        None => Seq::empty(),
    }
}

pub proof fn lemma_split_nonempty(s: Seq<char>, c: char)
    ensures
        split_on(s, c).len() >= 1,
{
}

/// What the basic checks find wrong with a profile's name and base URL.
pub open spec fn basic_problem(name: Seq<char>, base_url: Seq<char>) -> Option<Seq<char>> {
    match crate::models::validation::name_problem(name) {
        Some(m) => Some(m),
        None => if base_url.len() == 0 {
            Some("Base URL cannot be empty"@)
        } else {
            None
        },
    }
}

impl ApiDefinition {
    /// Basic checks: a non-empty name of letters, digits and `-`, and a base URL.
    pub fn validate(&self) -> (r: Result<(), YcallrError>)
        ensures
            r is Ok <==> (name_ok(self.name@) && self.base_url@.len() > 0),
            crate::error::unit_result(r) == match basic_problem(self.name@, self.base_url@) {
                Some(m) => Err(crate::error::ErrorModel::InvalidDefinition(m)),
                None => Ok::<(), crate::error::ErrorModel>(()),
            },
    {
        let checked = check_name(self.name.as_str());
        match checked {
            Ok(()) => {},
            Err(e) => {
                return Err(e);
            },
        }
        if self.base_url.as_str().is_empty() {
            return Err(YcallrError::InvalidDefinition(owned("Base URL cannot be empty")));
        }
        Ok(())
    }

    /// Validation for running a client (full rules, loopback hosts allowed).
    pub fn validate_for_client(&self) -> (r: Result<(), YcallrError>)
        ensures
            r is Ok <==> api_ok(*self, false),
            crate::error::unit_result(r) == crate::models::validation::problem_result(
                crate::models::validation::api_problem(*self, false),
            ),
    {
        validate_api_for_client(self)
    }

    /// The command at a dotted path such as `repos.issues.list`.
    pub fn get_command(&self, path: &str) -> (r: Result<&Command, YcallrError>)
        ensures
            match r {
                Ok(c) => find_command(self@, path@) == Ok::<CommandModel, Seq<char>>(c@),
                Err(e) => e matches YcallrError::CommandNotFound(m) && find_command(self@, path@)
                    == Err::<CommandModel, Seq<char>>(m@),
            },
    {
        let pieces = split_char(path, '.');
        let ghost pv = split_on(path@, '.');
        proof {
            lemma_split_nonempty(path@, '.');
        }
        let mut parts: Vec<&str> = Vec::new();
        let mut i: usize = 0;
        while i < pieces.len()
            invariant
                i <= pieces@.len(),
                pieces@.len() == pv.len(),
                forall|k: int| 0 <= k < pieces@.len() ==> (#[trigger] pieces@[k])@ == pv[k],
                parts@.len() == i,
                forall|k: int| 0 <= k < i ==> (#[trigger] parts@[k])@ == pv[k],
            decreases pieces@.len() - i,
        {
            parts.push(pieces[i].as_str());
            i = i + 1;
        }
        assert(str_views(parts@) =~= pv);
        let name = parts[0];
        proof {
            lemma_lookup_commands(self.commands.entries@, name@);
        }
        let cmd = match self.commands.get(name) {
            None => {
                return Err(YcallrError::CommandNotFound(owned(name)));
            },
            Some(c) => c,
        };
        if parts.len() == 1 {
            Ok(cmd)
        } else {
            let rest = vstd::slice::slice_subrange(parts.as_slice(), 1, parts.len());
            assert(str_views(rest@) =~= pv.drop_first());
            cmd.get_command_recursive(rest)
        }
    }

    /// Details of the command at `path`.
    pub fn command_details(&self, path: &str) -> (r: Result<CommandDetails, YcallrError>)
        ensures
            match r {
                Ok(d) => find_command(self@, path@) is Ok && d.path@ == path@ && d.description
                    == find_command(self@, path@)->Ok_0.description && d.endpoint == find_command(
                    self@,
                    path@,
                )->Ok_0.endpoint && d.method == find_command(self@, path@)->Ok_0.method
                    && d.headers.entries@ == find_command(self@, path@)->Ok_0.headers
                    && d.params.entries@ == find_command(self@, path@)->Ok_0.params,
                Err(e) => e matches YcallrError::CommandNotFound(m) && find_command(self@, path@)
                    == Err::<CommandModel, Seq<char>>(m@),
            },
    {
        let cmd = self.get_command(path)?;
        Ok(cmd.details_at_path(path))
    }

    /// Sorted names of the sub-commands of the command at `path`.
    pub fn list_subcommands(&self, path: &str) -> (r: Result<Vec<String>, YcallrError>)
        ensures
            match r {
                Ok(names) => find_command(self@, path@) is Ok && sorted(names@)
                    && names@.to_multiset() == model_sub_names(find_command(self@, path@)->Ok_0).to_multiset(),
                Err(e) => e matches YcallrError::CommandNotFound(m) && find_command(self@, path@)
                    == Err::<CommandModel, Seq<char>>(m@),
            },
    {
        let cmd = self.get_command(path)?;
        let names = cmd.subcommand_names();
        proof {
            if cmd.commands is Some {
                crate::models::types::lemma_sub_commands_model(*cmd);
            }
            assert(model_sub_names(cmd@) =~= sub_names(*cmd));
        }
        Ok(names)
    }
}

} // verus!
