//! A stand-in client that answers with prepared responses and records calls.

use vstd::prelude::*;
use crate::call_engine::types::ApiResponse;
use crate::dict::{lookup, Dict};
use crate::error::{ErrorModel, YcallrError};
use crate::json::JsonValue;
use crate::models::types::copy_strings;
use crate::text::{owned, str_eq};

verus! {

broadcast use vstd::std_specs::vec::group_vec_axioms;

/// One recorded call.
#[derive(Debug)]
pub struct MockCall {
    pub command: String,
    pub params: Dict<String>,
    pub body: Option<JsonValue>,
}

impl Clone for MockCall {
    fn clone(&self) -> (r: Self)
        ensures
            r.command == self.command,
            r.params.entries@ == self.params.entries@,
            r.body.is_some() == self.body.is_some(),
            self.body matches Some(b) ==> r.body->0@ == b@,
    {
        MockCall {
            command: self.command.clone(),
            params: copy_strings(&self.params),
            body: match &self.body {
                Some(b) => Some(b.clone()),
                None => None,
            },
        }
    }
}

/// A client that answers each command with the response set for it.
pub struct MockApiClient {
    pub responses: Dict<ApiResponse>,
    pub calls: Vec<MockCall>,
}

/// Number of recorded calls of `command`.
pub open spec fn calls_of(calls: Seq<MockCall>, command: Seq<char>) -> nat
    decreases calls.len(),
{
    if calls.len() == 0 {
        0
    } else {
        calls_of(calls.drop_last(), command) + if calls.last().command@ == command {
            1nat
        } else {
            0nat
        }
    }
}

impl MockApiClient {
    /// A mock with no responses and no calls.
    pub fn new() -> (r: Self)
        ensures
            r.responses.entries@.len() == 0,
            r.calls@.len() == 0,
    {
        MockApiClient { responses: Dict::new(), calls: Vec::new() }
    }

    /// Sets the response for `command`.
    pub fn expect(&mut self, command: &str, response: ApiResponse)
        ensures
            final(self).calls@ == old(self).calls@,
            lookup(final(self).responses.entries@, command@) == Some(response),
            forall|other: Seq<char>|
                other != command@ ==> #[trigger] lookup(final(self).responses.entries@, other) == lookup(
                    old(self).responses.entries@,
                    other,
                ),
    {
        let ghost before = self.responses.entries@;
        let k = owned(command);
        let ghost kv = k;
        let ghost rv = response;
        self.responses.insert(k, response);
        proof {
            assert(self.responses.entries@ == crate::dict::inserted(before, kv, rv));
            crate::dict::law_inserted_lookup(before, kv, rv, command@);
            assert forall|other: Seq<char>| other != command@ implies #[trigger] lookup(self.responses.entries@, other)
                == lookup(before, other) by {
                crate::dict::law_inserted_lookup(before, kv, rv, other);
            }
        }
    }

    /// Records the call, then answers with the response set for `command`.
    pub fn call(&mut self, command: &str, params: &Dict<String>, body: Option<&JsonValue>) -> (r: Result<ApiResponse, YcallrError>)
        ensures
            final(self).responses == old(self).responses,
            final(self).calls@.len() == old(self).calls@.len() + 1,
            final(self).calls@.drop_last() == old(self).calls@,
            final(self).calls@.last().command@ == command@,
            final(self).calls@.last().params.entries@ == params.entries@,
            final(self).calls@.last().body.is_some() == body.is_some(),
            body matches Some(b) ==> final(self).calls@.last().body->0@ == b@,
            match lookup(old(self).responses.entries@, command@) {
                Some(resp) => r matches Ok(x) && x.status == resp.status && x.headers.entries@ == resp.headers.entries@
                    && x.body@ == resp.body@ && x.message == resp.message,
                None => r matches Err(e) && e@ == ErrorModel::CommandNotFound(command@),
            },
    {
        let call = MockCall {
            command: owned(command),
            params: copy_strings(params),
            body: match body {
                Some(b) => Some(b.clone()),
                None => None,
            },
        };
        let ghost before = self.calls@;
        self.calls.push(call);
        assert(self.calls@.drop_last() =~= before);
        match self.responses.get(command) {
            Some(resp) => Ok(resp.clone()),
            None => Err(YcallrError::CommandNotFound(owned(command))),
        }
    }

    /// The recorded calls, oldest first.
    pub fn calls(&self) -> (r: &[MockCall])
        ensures
            r@ == self.calls@,
    {
        self.calls.as_slice()
    }

    /// The most recent call.
    pub fn last_call(&self) -> (r: Option<&MockCall>)
        ensures
            match r {
                Some(c) => self.calls@.len() > 0 && *c == self.calls@.last(),
                None => self.calls@.len() == 0,
            },
    {
        if self.calls.len() == 0 {
            None
        } else {
            Some(&self.calls[self.calls.len() - 1])
        }
    }

    /// Whether `command` was called.
    pub fn was_called(&self, command: &str) -> (r: bool)
        ensures
            r == (calls_of(self.calls@, command@) > 0),
    {
        self.call_count(command) > 0
    }

    /// How many times `command` was called.
    pub fn call_count(&self, command: &str) -> (r: usize)
        ensures
            r == calls_of(self.calls@, command@),
    {
        let mut n: usize = 0;
        let mut i: usize = 0;
        while i < self.calls.len()
            invariant
                i <= self.calls@.len(),
                n == calls_of(self.calls@.take(i as int), command@),
                n <= i,
            decreases self.calls@.len() - i,
        {
            assert(self.calls@.take(i + 1).drop_last() =~= self.calls@.take(i as int));
            if str_eq(self.calls[i].command.as_str(), command) {
                n = n + 1;
            }
            i = i + 1;
        }
        assert(self.calls@.take(self.calls@.len() as int) =~= self.calls@);
        n
    }
}

/// A call is counted: after calling `command`, it was called once more than before.
pub proof fn law_call_is_counted(before: Seq<MockCall>, after: Seq<MockCall>, command: Seq<char>)
    requires
        after.len() == before.len() + 1,
        after.drop_last() == before,
        after.last().command@ == command,
    ensures
        calls_of(after, command) == calls_of(before, command) + 1,
        calls_of(after, command) > 0,
{
}

/// Calling one command leaves the counts of the others as they were.
pub proof fn law_call_counts_only_its_command(before: Seq<MockCall>, after: Seq<MockCall>, command: Seq<char>, other: Seq<char>)
    requires
        after.len() == before.len() + 1,
        after.drop_last() == before,
        after.last().command@ == command,
        other != command,
    ensures
        calls_of(after, other) == calls_of(before, other),
{
}

} // verus!
