//! Descriptions of commands for listing and inspection.

use vstd::prelude::*;
use crate::dict::Dict;

use crate::models::types::{copy_params, copy_strings, Command, HttpMethod, Parameter};
use crate::text::{owned, sort_strings, sorted};

verus! {

/// What a command is, as shown to a user.
#[derive(Debug, PartialEq)]
pub struct CommandDetails {
    pub path: String,
    pub description: Option<String>,
    pub endpoint: Option<String>,
    pub method: Option<HttpMethod>,
    pub is_leaf: bool,
    pub is_branch: bool,
    pub is_callable: bool,
    pub auth: Option<String>,
    pub headers: Dict<String>,
    pub params: Dict<Parameter>,
    pub has_body: bool,
    pub has_responses: bool,
    pub subcommands: Vec<String>,
}

/// The names of the sub-commands of `c` (none when it has no table).
pub open spec fn sub_names(c: Command) -> Seq<String> {
    match c.commands {
        Some(d) => Seq::new(d.entries@.len(), |i: int| d.entries@[i].0),
        None => Seq::empty(),
    }
}

impl Command {
    /// Sub-command names in ascending order.
    pub fn subcommand_names(&self) -> (r: Vec<String>)
        ensures
            r@.to_multiset() == sub_names(*self).to_multiset(),
            sorted(r@),
    {
        match &self.commands {
            Some(commands) => {
                let mut names = commands.keys();
                assert(names@ =~= sub_names(*self));
                sort_strings(&mut names);
                names
            },
            None => {
                let names: Vec<String> = Vec::new();
                assert(names@ =~= sub_names(*self));
                names
            },
        }
    }

    /// Whether the command can be called (it is a leaf).
    pub fn is_callable(&self) -> (b: bool)
        ensures
            b == (self.endpoint is Some && self.method is Some),
    {
        self.is_leaf()
    }

    /// Details of this command, reported under `path`.
    pub fn details_at_path(&self, path: &str) -> (d: CommandDetails)
        ensures
            d.path@ == path@,
            d.description == self.description,
            d.endpoint == self.endpoint,
            d.method == self.method,
            d.is_leaf == (self.endpoint is Some && self.method is Some),
            d.is_branch == (self.commands is Some && self.commands->0.entries@.len() > 0),
            d.is_callable == d.is_leaf,
            d.auth == self.auth,
            d.headers.entries@ == self.headers.entries@,
            d.params.entries@ == self.params.entries@,
            d.has_body == self.body is Some,
            d.has_responses == self.responses is Some,
            d.subcommands@.to_multiset() == sub_names(*self).to_multiset(),
            sorted(d.subcommands@),
    {
        CommandDetails {
            path: owned(path),
            description: self.description.clone(),
            endpoint: self.endpoint.clone(),
            method: self.method,
            is_leaf: self.is_leaf(),
            is_branch: self.is_branch(),
            is_callable: self.is_callable(),
            auth: self.auth.clone(),
            headers: copy_strings(&self.headers),
            params: copy_params(&self.params),
            has_body: self.body.is_some(),
            has_responses: self.responses.is_some(),
            subcommands: self.subcommand_names(),
        }
    }
}

} // verus!
