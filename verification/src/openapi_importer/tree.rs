//! The nested command tree built from operations, and the GitHub defaults applied to it.

use vstd::prelude::*;
use crate::dict::{
    first_index, insert_pair, lemma_first_index, pair_views, put, seq_pair_index, Dict,
};
use crate::models::types::{Command, HttpMethod};

use crate::openapi_importer::operations::{opt_text, responses_found, OpFound, OperationSpec};
use crate::openapi_importer::params::{body_found, param_views, BodyFound, ParamFound};
use crate::openapi_importer::responses::ResponsesFound;

use vstd::set_lib::{lemma_int_range, lemma_len_subset, lemma_map_size, set_int_range};
use crate::text::{lemma_decimal_injective, decimal, owned, str_eq, usize_decimal};

verus! {

broadcast use vstd::std_specs::vec::group_vec_axioms;

/// A command as values, with its sub-commands.
pub struct CmdFound {
    pub description: Option<Seq<char>>,
    pub endpoint: Option<Seq<char>>,
    pub method: Option<HttpMethod>,
    pub auth: Option<Seq<char>>,
    pub headers: Seq<(Seq<char>, Seq<char>)>,
    pub params: Seq<(Seq<char>, ParamFound)>,
    pub body: Option<BodyFound>,
    pub responses: Option<ResponsesFound>,
    pub commands: Option<Seq<(Seq<char>, CmdFound)>>,
}

/// A command as values.
pub open spec fn cmd_found(c: Command) -> CmdFound
    decreases c,
{
    CmdFound {
        description: opt_text(c.description),
        endpoint: opt_text(c.endpoint),
        method: c.method,
        auth: opt_text(c.auth),
        headers: pair_views(c.headers.entries@),
        params: param_views(c.params.entries@),
        body: body_found(c.body),
        responses: responses_found(c.responses),
        commands: match c.commands {
            Some(d) => Some(
                Seq::new(
                    d.entries@.len(),
                    |i: int|
                        if 0 <= i < d.entries@.len() {
                            (d.entries@[i].0@, cmd_found(d.entries@[i].1))
                        } else {
                            arbitrary()
                        },
                ),
            ),
            None => None,
        },
    }
}

/// A command table as values.
pub open spec fn cmds_found(es: Seq<(String, Command)>) -> Seq<(Seq<char>, CmdFound)> {
    Seq::new(es.len(), |i: int| (es[i].0@, cmd_found(es[i].1)))
}

pub proof fn lemma_sub_found(c: Command)
    requires
        c.commands is Some,
    ensures
        cmd_found(c).commands == Some(cmds_found(c.commands->0.entries@)),
{
    assert(cmd_found(c).commands->0 =~= cmds_found(c.commands->0.entries@));
}

/// Position of the first command named `k`.
pub open spec fn cmd_index(s: Seq<(Seq<char>, CmdFound)>, k: Seq<char>) -> Option<int>
    decreases s.len(),
{
    if s.len() == 0 {
        None
    } else if s[0].0 == k {
        Some(0)
    } else {
        match cmd_index(s.drop_first(), k) {
            Some(i) => Some(i + 1),
            None => None,
        }
    }
}

/// The table after storing `c` under `k`.
pub open spec fn cmd_put(s: Seq<(Seq<char>, CmdFound)>, k: Seq<char>, c: CmdFound) -> Seq<(Seq<char>, CmdFound)> {
    match cmd_index(s, k) {
        Some(i) => s.update(i, (k, c)),
        None => s.push((k, c)),
    }
}

proof fn lemma_cmd_index(es: Seq<(String, Command)>, k: Seq<char>)
    ensures
        cmd_index(cmds_found(es), k) == first_index(es, k),
    decreases es.len(),
{
    if es.len() > 0 {
        assert(cmds_found(es).drop_first() =~= cmds_found(es.drop_first()));
        lemma_cmd_index(es.drop_first(), k);
    }
}

/// Stores `c` under `k` in a command table.
fn put_command(d: &mut Dict<Command>, k: String, c: Command)
    ensures
        cmds_found(final(d).entries@) == cmd_put(cmds_found(old(d).entries@), k@, cmd_found(c)),
{
    proof {
        lemma_cmd_index(d.entries@, k@);
        lemma_first_index(d.entries@, k@);
    }
    let ghost before = d.entries@;
    let ghost kv = k@;
    let ghost cv = cmd_found(c);
    d.insert(k, c);
    proof {
        match first_index(before, kv) {
            Some(j) => {
                assert(cmds_found(d.entries@) =~= cmds_found(before).update(j, (kv, cv)));
            },
            None => {
                assert(cmds_found(d.entries@) =~= cmds_found(before).push((kv, cv)));
            },
        }
    }
}

// ------------------------------------------------------------------ leaves

/// The headers of an operation's command: a body adds `Content-Type: application/json`
/// unless a `Content-Type` header is declared.
pub open spec fn leaf_headers(op: OpFound) -> Seq<(Seq<char>, Seq<char>)> {
    if op.body is Some && seq_pair_index(op.headers, "Content-Type"@) is None {
        insert_pair(op.headers, "Content-Type"@, "application/json"@)
    } else {
        op.headers
    }
}

/// The callable command an operation becomes.
pub open spec fn op_command(op: OpFound) -> CmdFound {
    CmdFound {
        description: op.description,
        endpoint: Some(op.endpoint),
        method: Some(op.method),
        auth: op.auth,
        headers: leaf_headers(op),
        params: op.params,
        body: op.body,
        responses: op.responses,
        commands: None,
    }
}

impl OperationSpec {
    /// The callable command this operation becomes.
    pub fn to_command(self) -> (r: Command)
        ensures
            cmd_found(r) == op_command(self.found()),
    {
        let mut headers = self.headers;
        proof {
            crate::dict::lemma_pair_index(headers.entries@, "Content-Type"@);
            lemma_first_index(headers.entries@, "Content-Type"@);
        }
        if self.body.is_some() && !headers.contains_key("Content-Type") {
            put(&mut headers, owned("Content-Type"), owned("application/json"));
        }
        Command {
            description: self.description,
            endpoint: Some(self.endpoint),
            method: Some(self.method),
            auth: self.auth,
            headers,
            params: self.params,
            body: self.body,
            responses: self.responses,
            commands: None,
        }
    }
}

// ------------------------------------------------------------------ placing operations

/// `<base>-<n>`.
pub open spec fn candidate_key(base: Seq<char>, n: nat) -> Seq<char> {
    base + "-"@ + decimal(n)
}

/// The first of `<base>-<n>`, `<base>-<n+1>`, ... (up to `<base>-<bound>`) that the table lacks.
pub open spec fn free_key(s: Seq<(Seq<char>, CmdFound)>, base: Seq<char>, n: nat, bound: nat) -> Seq<char>
    decreases bound - n,
{
    if n >= bound {
        candidate_key(base, bound)
    } else if cmd_index(s, candidate_key(base, n)) is None {
        candidate_key(base, n)
    } else {
        free_key(s, base, n + 1, bound)
    }
}

/// How far the search for a free numbered key goes: two past the table's size
/// (a table of `n` entries lacks one of `n + 1` keys), within `usize`.
pub open spec fn key_bound(len: nat) -> nat {
    if len + 2 <= usize::MAX {
        len + 2
    } else {
        usize::MAX as nat
    }
}

/// A key `<base>-<n>` (smallest `n` from 2) that the table lacks.
pub open spec fn unique_key(s: Seq<(Seq<char>, CmdFound)>, base: Seq<char>) -> Seq<char> {
    free_key(s, base, 2, key_bound(s.len()))
}

/// The table with a callable command stored under `key`; an existing command
/// there with the same endpoint and method is kept, a different one keeps its
/// place and the new command takes a numbered key.
pub open spec fn merge_leaf(s: Seq<(Seq<char>, CmdFound)>, key: Seq<char>, leaf: CmdFound) -> Seq<(Seq<char>, CmdFound)> {
    match cmd_index(s, key) {
        Some(i) => if leaf.endpoint is Some && s[i].1.endpoint == leaf.endpoint && leaf.method is Some
            && s[i].1.method == leaf.method {
            s
        } else {
            cmd_put(s, unique_key(s, key), leaf)
        },
        None => cmd_put(s, key, leaf),
    }
}

/// A group command: no endpoint, an empty sub-command table.
pub open spec fn group_command() -> CmdFound {
    CmdFound {
        description: None,
        endpoint: None,
        method: None,
        auth: None,
        headers: Seq::empty(),
        params: Seq::empty(),
        body: None,
        responses: None,
        commands: Some(Seq::empty()),
    }
}

/// The table with a callable command placed under the group path `segs`.
pub open spec fn tree_insert(s: Seq<(Seq<char>, CmdFound)>, segs: Seq<Seq<char>>, key: Seq<char>, leaf: CmdFound) -> Seq<
    (Seq<char>, CmdFound),
>
    decreases segs.len(),
{
    if segs.len() == 0 {
        merge_leaf(s, key, leaf)
    } else {
        let seg = segs[0];
        let s1 = match cmd_index(s, seg) {
            Some(_) => s,
            None => s.push((seg, group_command())),
        };
        let entry = s1[cmd_index(s1, seg)->0].1;
        let children = match entry.commands {
            Some(c) => c,
            None => Seq::empty(),
        };
        cmd_put(s1, seg, CmdFound { commands: Some(tree_insert(children, segs.drop_first(), key, leaf)), ..entry })
    }
}

/// The command tree of a list of operations, placed in order.
pub open spec fn build_tree(ops: Seq<OpFound>) -> Seq<(Seq<char>, CmdFound)>
    decreases ops.len(),
{
    if ops.len() == 0 {
        Seq::empty()
    } else {
        let t = build_tree(ops.drop_last());
        tree_insert(t, ops.last().static_segments, ops.last().command_name, op_command(ops.last()))
    }
}

/// Position bounds of `cmd_index`.
pub proof fn lemma_cmd_index_found(s: Seq<(Seq<char>, CmdFound)>, k: Seq<char>)
    ensures
        match cmd_index(s, k) {
            Some(i) => 0 <= i < s.len() && s[i].0 == k,
            None => forall|j: int| 0 <= j < s.len() ==> (#[trigger] s[j]).0 != k,
        },
    decreases s.len(),
{
    if s.len() > 0 && s[0].0 != k {
        lemma_cmd_index_found(s.drop_first(), k);
        assert forall|j: int| 0 < j < s.len() implies s[j] == s.drop_first()[j - 1] by {}
    }
}

proof fn lemma_candidate_injective(base: Seq<char>, a: nat, b: nat)
    requires
        candidate_key(base, a) == candidate_key(base, b),
    ensures
        a == b,
{
    let p = base + "-"@;
    assert(candidate_key(base, a).skip(p.len() as int) =~= decimal(a));
    assert(candidate_key(base, b).skip(p.len() as int) =~= decimal(b));
    lemma_decimal_injective(a, b);
}

/// A table of `n` entries holds at most `n` of the keys `<base>-2`, `<base>-3`, ...
proof fn lemma_candidates_fit(s: Seq<(Seq<char>, CmdFound)>, base: Seq<char>, m: int)
    requires
        2 <= m,
        forall|k: int| 2 <= k < m ==> (#[trigger] cmd_index(s, candidate_key(base, k as nat))) is Some,
    ensures
        m - 2 <= s.len(),
{
    let x = set_int_range(2, m);
    let f = |k: int| cmd_index(s, candidate_key(base, k as nat))->0;
    lemma_int_range(2, m);
    assert forall|a: int, b: int| x.contains(a) && x.contains(b) && #[trigger] f(a) == #[trigger] f(b) implies a == b by {
        lemma_cmd_index_found(s, candidate_key(base, a as nat));
        lemma_cmd_index_found(s, candidate_key(base, b as nat));
        lemma_candidate_injective(base, a as nat, b as nat);
    }
    let y = x.map(f);
    lemma_map_size(x, y, f);
    lemma_int_range(0, s.len() as int);
    assert forall|v: int| y.contains(v) implies set_int_range(0, s.len() as int).contains(v) by {
        let a = choose|a: int| x.contains(a) && f(a) == v;
        lemma_cmd_index_found(s, candidate_key(base, a as nat));
    }
    lemma_len_subset(y, set_int_range(0, s.len() as int));
}

proof fn lemma_free_key_absent(s: Seq<(Seq<char>, CmdFound)>, base: Seq<char>, n: nat)
    requires
        2 <= n <= s.len() + 2,
        forall|k: int| 2 <= k < n ==> (#[trigger] cmd_index(s, candidate_key(base, k as nat))) is Some,
    ensures
        cmd_index(s, free_key(s, base, n, s.len() + 2)) is None,
    decreases s.len() + 2 - n,
{
    let bound = (s.len() + 2) as nat;
    if n >= bound {
        if cmd_index(s, candidate_key(base, bound)) is Some {
            assert forall|k: int| 2 <= k < bound + 1 implies (#[trigger] cmd_index(
                s,
                candidate_key(base, k as nat),
            )) is Some by {
                if k == bound {
                } else {
                    assert(k < n);
                }
            }
            lemma_candidates_fit(s, base, bound + 1int);
        }
    } else if cmd_index(s, candidate_key(base, n)) is None {
    } else {
        lemma_free_key_absent(s, base, n + 1);
    }
}

proof fn lemma_free_key_first(s: Seq<(Seq<char>, CmdFound)>, base: Seq<char>, n: nat)
    requires
        2 <= n <= s.len() + 2,
        forall|k: int| 2 <= k < n ==> (#[trigger] cmd_index(s, candidate_key(base, k as nat))) is Some,
    ensures
        exists|m: nat|
            n <= m <= s.len() + 2 && free_key(s, base, n, s.len() + 2) == candidate_key(base, m) && forall|k: int|
                2 <= k < m ==> (#[trigger] cmd_index(s, candidate_key(base, k as nat))) is Some,
    decreases s.len() + 2 - n,
{
    let bound = (s.len() + 2) as nat;
    if n >= bound {
        assert(free_key(s, base, n, bound) == candidate_key(base, bound));
    } else if cmd_index(s, candidate_key(base, n)) is None {
        assert(free_key(s, base, n, bound) == candidate_key(base, n));
    } else {
        assert forall|k: int| 2 <= k < n + 1 implies (#[trigger] cmd_index(s, candidate_key(base, k as nat))) is Some by {
            if k < n {
            }
        }
        lemma_free_key_first(s, base, n + 1);
    }
}

/// The numbered key a clashing command gets is `<base>-<n>` for the smallest
/// `n` from 2 that the table does not use yet.
pub proof fn law_unique_key_is_first_free(s: Seq<(Seq<char>, CmdFound)>, base: Seq<char>)
    requires
        s.len() + 2 <= usize::MAX,
    ensures
        exists|n: nat|
            2 <= n && unique_key(s, base) == candidate_key(base, n) && cmd_index(s, candidate_key(base, n)) is None
                && forall|k: int| 2 <= k < n ==> (#[trigger] cmd_index(s, candidate_key(base, k as nat))) is Some,
{
    lemma_free_key_first(s, base, 2);
    lemma_free_key_absent(s, base, 2);
}

/// Placing a callable command never drops or replaces a command already in the
/// table: the table before is the start of the table after, which has at most
/// one entry more (a clashing name gets the first free `<name>-<n>` key).
pub proof fn law_merge_leaf_keeps_table(s: Seq<(Seq<char>, CmdFound)>, key: Seq<char>, leaf: CmdFound)
    requires
        s.len() + 2 <= usize::MAX,
    ensures
        s.len() <= merge_leaf(s, key, leaf).len() <= s.len() + 1,
        forall|i: int| 0 <= i < s.len() ==> (#[trigger] merge_leaf(s, key, leaf)[i]) == s[i],
{
    match cmd_index(s, key) {
        Some(i) => {
            if !(leaf.endpoint is Some && s[i].1.endpoint == leaf.endpoint && leaf.method is Some
                && s[i].1.method == leaf.method) {
                lemma_free_key_absent(s, key, 2);
            }
        },
        None => {},
    }
}

/// A key `<base>-<n>`, with the smallest `n` from 2, that the table lacks.
pub fn unique_command_key(commands: &Dict<Command>, base: &str) -> (r: String)
    ensures
        r@ == unique_key(cmds_found(commands.entries@), base@),
{
    let ghost s = cmds_found(commands.entries@);
    let len = commands.len();
    let bound: usize = if len <= usize::MAX - 2 {
        len + 2
    } else {
        usize::MAX
    };
    let mut n: usize = 2;
    while n < bound
        invariant
            s == cmds_found(commands.entries@),
            bound == key_bound(s.len()),
            2 <= n <= bound,
            free_key(s, base@, 2, bound as nat) == free_key(s, base@, n as nat, bound as nat),
        decreases bound - n,
    {
        let mut candidate = owned(base);
        candidate.append("-");
        candidate.append(usize_decimal(n).as_str());
        proof {
            lemma_cmd_index(commands.entries@, candidate@);
        }
        if !commands.contains_key(candidate.as_str()) {
            proof {
                lemma_first_index(commands.entries@, candidate@);
            }
            return candidate;
        }
        proof {
            lemma_first_index(commands.entries@, candidate@);
        }
        n = n + 1;
    }
    let mut candidate = owned(base);
    candidate.append("-");
    candidate.append(usize_decimal(bound).as_str());
    candidate
}

/// Stores a callable command under `key` (see `merge_leaf`).
fn merge_leaf_exec(commands: &mut Dict<Command>, key: String, leaf: Command)
    ensures
        cmds_found(final(commands).entries@) == merge_leaf(cmds_found(old(commands).entries@), key@, cmd_found(leaf)),
{
    proof {
        lemma_cmd_index(commands.entries@, key@);
        lemma_first_index(commands.entries@, key@);
    }
    match commands.position(key.as_str()) {
        Some(i) => {
            let same = match (&commands.entries[i].1.endpoint, &leaf.endpoint, &commands.entries[i].1.method, &leaf.method) {
                (Some(e), Some(le), Some(m), Some(lm)) => str_eq(e.as_str(), le.as_str()) && *m == *lm,
                _ => false,
            };
            if same {
                return;
            }
            let alt = unique_command_key(commands, key.as_str());
            put_command(commands, alt, leaf);
        },
        None => {
            put_command(commands, key, leaf);
        },
    }
}

/// An empty group command.
fn group() -> (r: Command)
    ensures
        cmd_found(r) == group_command(),
{
    let r = Command {
        description: None,
        endpoint: None,
        method: None,
        auth: None,
        headers: Dict::new(),
        params: Dict::new(),
        body: None,
        responses: None,
        commands: Some(Dict::new()),
    };
    assert(cmd_found(r).headers =~= Seq::<(Seq<char>, Seq<char>)>::empty());
    assert(cmd_found(r).params =~= Seq::<(Seq<char>, ParamFound)>::empty());
    assert(cmd_found(r).commands->0 =~= Seq::<(Seq<char>, CmdFound)>::empty());
    r
}

/// Places a callable command under the group path `segs[idx..]`.
pub fn insert_at_segments(commands: &mut Dict<Command>, segs: &Vec<String>, idx: usize, key: String, leaf: Command)
    requires
        idx <= segs@.len(),
    ensures
        cmds_found(final(commands).entries@) == tree_insert(
            cmds_found(old(commands).entries@),
            Seq::new(segs@.len(), |i: int| segs@[i]@).skip(idx as int),
            key@,
            cmd_found(leaf),
        ),
    decreases segs@.len() - idx,
{
    let ghost sv = Seq::new(segs@.len(), |i: int| segs@[i]@).skip(idx as int);
    if idx == segs.len() {
        assert(sv.len() == 0);
        merge_leaf_exec(commands, key, leaf);
        return;
    }
    assert(sv[0] == segs@[idx as int]@);
    assert(sv.drop_first() =~= Seq::new(segs@.len(), |i: int| segs@[i]@).skip(idx + 1));
    let seg = &segs[idx];
    let ghost s0 = cmds_found(commands.entries@);
    proof {
        lemma_cmd_index(commands.entries@, seg@);
    }
    if !commands.contains_key(seg.as_str()) {
        proof {
            lemma_first_index(commands.entries@, seg@);
        }
        let g = group();
        let ghost before = commands.entries@;
        commands.entries.push((seg.clone(), g));
        assert(cmds_found(commands.entries@) =~= s0.push((seg@, group_command())));
        assert(commands.entries@[commands.entries@.len() - 1].0@ == seg@);
    } else {
        proof {
            lemma_first_index(commands.entries@, seg@);
        }
    }
    let ghost s1 = cmds_found(commands.entries@);
    proof {
        lemma_cmd_index(commands.entries@, seg@);
        lemma_first_index(commands.entries@, seg@);
    }
    let i = match commands.position(seg.as_str()) {
        Some(i) => i,
        None => {
            assert(false);
            0
        },
    };
    let (k, entry) = commands.entries.remove(i);
    let ghost rest = commands.entries@;
    let Command { description, endpoint, method, auth, headers, params, body, responses, commands: sub } = entry;
    let mut children = match sub {
        Some(c) => c,
        None => Dict::new(),
    };
    proof {
        if entry.commands is Some {
            lemma_sub_found(entry);
        } else {
            assert(cmds_found(children.entries@) =~= Seq::<(Seq<char>, CmdFound)>::empty());
        }
    }
    insert_at_segments(&mut children, segs, idx + 1, key, leaf);
    let updated = Command { description, endpoint, method, auth, headers, params, body, responses, commands: Some(children) };
    proof {
        lemma_sub_found(updated);
    }
    commands.entries.insert(i, (k, updated));
    proof {
        assert(cmds_found(commands.entries@) =~= s1.update(
            i as int,
            (seg@, CmdFound { commands: Some(cmds_found(children.entries@)), ..s1[i as int].1 }),
        ));
    }
}

} // verus!
