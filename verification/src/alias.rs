//! Saved requests ("aliases"): a map from numeric ids to the arguments of a
//! listing, stored by the application in `~/.config/clickdown/aliases.json`.

use std::collections::HashMap;
use vstd::prelude::*;
use vstd::std_specs::iter::IteratorSpec;
use crate::cli::Args;
use crate::utils::{path_push, push_path};
use crate::text::{copy_str, concat3, pad_right, pad_right_str, usize_to_string, decimal, spaces};

verus! {

broadcast use vstd::std_specs::hash::group_hash_axioms;

/// What a saved alias shows when it runs.
#[derive(Clone, Copy, PartialEq, Eq, Structural)]
pub enum AliasType {
    Task,
    TaskDetails,
}

/// The arguments an alias keeps: only those that select what to show.
pub struct ArgsDTO {
    pub team_id: String,
    pub space_id: String,
    pub folder_id: String,
    pub list_id: String,
    pub task_id: String,
    pub status: String,
    pub search: String,
    pub assignee: String,
    pub thread_id: String,
}

/// A saved alias.
pub struct AliasEntity {
    pub alias_type: AliasType,
    pub name: String,
    pub args: ArgsDTO,
}

/// Whether every argument of `a` is empty.
pub open spec fn is_empty_dto(a: ArgsDTO) -> bool {
    &&& a.team_id@.len() == 0
    &&& a.space_id@.len() == 0
    &&& a.folder_id@.len() == 0
    &&& a.list_id@.len() == 0
    &&& a.task_id@.len() == 0
    &&& a.status@.len() == 0
    &&& a.search@.len() == 0
    &&& a.assignee@.len() == 0
    &&& a.thread_id@.len() == 0
}

impl Default for ArgsDTO {
    fn default() -> (r: Self)
        ensures
            is_empty_dto(r),
    {
        ArgsDTO {
            team_id: String::new(),
            space_id: String::new(),
            folder_id: String::new(),
            list_id: String::new(),
            task_id: String::new(),
            status: String::new(),
            search: String::new(),
            assignee: String::new(),
            thread_id: String::new(),
        }
    }
}

impl Default for AliasEntity {
    fn default() -> (r: Self)
        ensures
            r.alias_type == AliasType::Task,
            r.name@.len() == 0,
            is_empty_dto(r.args),
    {
        AliasEntity { args: ArgsDTO::default(), alias_type: AliasType::Task, name: String::new() }
    }
}

/// The id a newly saved alias gets in a map that holds `m`: one more than
/// the number of aliases.
pub open spec fn next_alias_id(m: Map<usize, AliasEntity>) -> int {
    m.len() + 1int
}

/// The file the aliases are kept in, under the home directory `home`.
pub fn get_alias_file_path_buf(home: &str) -> (r: String)
    ensures
        r@ == path_push(home@, ".config/clickdown/aliases.json"@),
{
    push_path(home, ".config/clickdown/aliases.json")
}

/// Saves `payload` under the id `mapping.len() + 1`, replacing an alias that
/// already has that id.
pub fn save_alias(mapping: &mut HashMap<usize, AliasEntity>, payload: AliasEntity)
    requires
        old(mapping)@.len() < usize::MAX,
    ensures
        final(mapping)@ == old(mapping)@.insert(next_alias_id(old(mapping)@) as usize, payload),
{
    let id: usize = mapping.len() + 1;
    mapping.insert(id, payload);
}

/// Removes the alias with id `alias_id`, if there is one.
pub fn delete_alias(mapping: &mut HashMap<usize, AliasEntity>, alias_id: usize)
    ensures
        final(mapping)@ == old(mapping)@.remove(alias_id),
{
    mapping.remove(&alias_id);
}


/// Whether `a` carries the arguments of `dto`, every other argument left
/// at its default.
pub open spec fn args_from_dto(a: Args, dto: ArgsDTO) -> bool {
    &&& a.token@.len() == 0
    &&& a.modify is None
    &&& a.add is None
    &&& a.delete is None
    &&& a.team_id@ == dto.team_id@
    &&& a.space_id@ == dto.space_id@
    &&& a.folder_id@ == dto.folder_id@
    &&& a.list_id@ == dto.list_id@
    &&& a.task_id@ == dto.task_id@
    &&& a.status@ == dto.status@
    &&& a.search@ == dto.search@
    &&& a.assignee@ == dto.assignee@
    &&& a.thread_id@ == dto.thread_id@
    &&& a.alias@.len() == 0
    &&& !a.list_alias
    &&& a.run@.len() == 0
    &&& a.alias_id@.len() == 0
}

/// The arguments that running a saved alias re-runs with.
pub fn args_of_alias(dto: &ArgsDTO) -> (r: Args)
    ensures
        args_from_dto(r, *dto),
{
    Args {
        folder_id: copy_str(dto.folder_id.as_str()),
        team_id: copy_str(dto.team_id.as_str()),
        space_id: copy_str(dto.space_id.as_str()),
        list_id: copy_str(dto.list_id.as_str()),
        task_id: copy_str(dto.task_id.as_str()),
        status: copy_str(dto.status.as_str()),
        search: copy_str(dto.search.as_str()),
        assignee: copy_str(dto.assignee.as_str()),
        thread_id: copy_str(dto.thread_id.as_str()),
        ..Default::default()
    }
}

/// The arguments to run for the alias with id `alias_id`; `None` when no
/// alias has that id.
pub fn run_alias(mapping: &HashMap<usize, AliasEntity>, alias_id: usize) -> (r: Option<Args>)
    ensures
        match r {
            None => !mapping@.contains_key(alias_id),
            Some(a) => mapping@.contains_key(alias_id) && args_from_dto(a, mapping@[alias_id].args),
        },
{
    match mapping.get(&alias_id) {
        None => None,
        Some(alias) => Some(args_of_alias(&alias.args)),
    }
}

/// Whether `line` is the listing line of the alias saved under `id` in `m`.
pub open spec fn lists_alias(line: Seq<char>, m: Map<usize, AliasEntity>, id: usize) -> bool {
    m.contains_key(id) && line == entry_line(id, m[id])
}

/// Whether `line` is the listing line of some alias of `m`.
pub open spec fn lists_some_alias(line: Seq<char>, m: Map<usize, AliasEntity>) -> bool {
    exists|id: usize| lists_alias(line, m, id)
}

/// The name an alias type is listed under.
pub open spec fn alias_type_name(t: AliasType) -> Seq<char> {
    match t {
        AliasType::Task => "task"@,
        AliasType::TaskDetails => "task_details"@,
    }
}

/// A line of the alias listing: three fields, each left-aligned in 15
/// columns, separated by one space.
pub open spec fn alias_line(id: Seq<char>, kind: Seq<char>, name: Seq<char>) -> Seq<char> {
    pad_right(id, 15) + " "@ + pad_right(kind, 15) + " "@ + pad_right(name, 15)
}

/// The listing line of the alias `e` saved under `id`.
pub open spec fn entry_line(id: usize, e: AliasEntity) -> Seq<char> {
    alias_line(decimal(id as nat), alias_type_name(e.alias_type), e.name@)
}

fn alias_type_text(t: AliasType) -> (r: String)
    ensures
        r@ == alias_type_name(t),
{
    match t {
        AliasType::Task => copy_str("task"),
        AliasType::TaskDetails => copy_str("task_details"),
    }
}

fn alias_line_text(id: &str, kind: &str, name: &str) -> (r: String)
    ensures
        r@ == alias_line(id@, kind@, name@),
{
    let a = pad_right_str(id, 15);
    let b = pad_right_str(kind, 15);
    let c = pad_right_str(name, 15);
    let ab = concat3(a.as_str(), " ", b.as_str());
    concat3(ab.as_str(), " ", c.as_str())
}

/// A listing made of one line for each key of a sequence that holds every
/// key of `m` once lists every alias of `m`, and nothing else.
proof fn lemma_listing_complete(m: Map<usize, AliasEntity>, keys: Seq<usize>, lines: Seq<Seq<char>>)
    requires
        keys.to_set() == m.dom(),
        lines.len() == keys.len() + 1,
        forall|i: int| #![trigger keys[i]] 0 <= i < keys.len() ==>
            m.contains_key(keys[i]) && lines[i + 1] == entry_line(keys[i], m[keys[i]]),
    ensures
        forall|k: usize| #[trigger] m.contains_key(k) ==>
            exists|i: int| 1 <= i < lines.len() && lines[i] == entry_line(k, m[k]),
        forall|i: int| 1 <= i < lines.len() ==> lists_some_alias(#[trigger] lines[i], m),
{
    assert forall|k: usize| #[trigger] m.contains_key(k) implies
        exists|i: int| 1 <= i < lines.len() && lines[i] == entry_line(k, m[k]) by {
        assert(keys.to_set().contains(k));
        let j: int = choose|j: int| 0 <= j < keys.len() && keys[j] == k;
        assert(lines[j + 1] == entry_line(keys[j], m[keys[j]]));
    }
    assert forall|i: int| 1 <= i < lines.len() implies lists_some_alias(#[trigger] lines[i], m) by {
        let j: int = i - 1;
        assert(m.contains_key(keys[j]));
        assert(lists_alias(lines[i], m, keys[j]));
    }
}

/// The lines that list the saved aliases: a header, then one line for each
/// alias, in the order in which the map yields its ids.
pub fn print_aliases(mapping: &HashMap<usize, AliasEntity>) -> (lines: Vec<String>)
    ensures
        lines@.len() == mapping@.len() + 1,
        lines@[0]@ == alias_line("ID"@, "Type"@, "Name"@),
        forall|k: usize| #[trigger] mapping@.contains_key(k) ==>
            exists|i: int| 1 <= i < lines@.len() && lines@[i]@ == entry_line(k, mapping@[k]),
        forall|i: int| 1 <= i < lines@.len() ==>
            lists_some_alias(#[trigger] lines@[i]@, mapping@),
{
    let mut lines: Vec<String> = Vec::new();
    lines.push(alias_line_text("ID", "Type", "Name"));
    let ghost keys = vstd::std_specs::hash::spec_keys_iter(mapping).remaining();
    for k in it: mapping.keys()
        invariant
            it.seq() == keys,
            keys == vstd::std_specs::hash::spec_keys_iter(mapping).remaining(),
            lines@.len() == it.index() + 1,
            lines@[0]@ == alias_line("ID"@, "Type"@, "Name"@),
            forall|i: int| #![trigger keys[i]] 0 <= i < it.index() ==>
                mapping@.contains_key(*keys[i]) &&
                lines@[i + 1]@ == entry_line(*keys[i], mapping@[*keys[i]]),
    {
        let ghost idx = it.index();
        assert(*keys[idx] == *k);
        assert(keys.unref().to_set().contains(*k)) by {
            assert(keys.unref()[idx] == *k);
        }
        match mapping.get(k) {
            Some(alias) => {
                let id_text = usize_to_string(*k);
                let kind = alias_type_text(alias.alias_type);
                let ghost old_lines = lines@;
                lines.push(alias_line_text(id_text.as_str(), kind.as_str(), alias.name.as_str()));
                assert forall|i: int| #![trigger keys[i]] 0 <= i < idx + 1 implies
                    mapping@.contains_key(*keys[i]) &&
                    lines@[i + 1]@ == entry_line(*keys[i], mapping@[*keys[i]]) by {
                    if i < idx {
                        assert(lines@[i + 1] == old_lines[i + 1]);
                    }
                }
            },
            None => {
                assert(false);
            },
        }
    }
    proof {
        let texts = lines@.map_values(|l: String| l@);
        lemma_listing_complete(mapping@, keys.unref(), texts);
        assert forall|i: int| 1 <= i < lines@.len() implies lists_some_alias(#[trigger] lines@[i]@, mapping@) by {
            assert(texts[i] == lines@[i]@);
        }
    }
    lines
}


// ---------------------------------------------------------------------------
// Laws
// ---------------------------------------------------------------------------

/// A saved alias can be run: right after `payload` is saved into `m`, the
/// map holds it under the id `m.len() + 1`, and every alias under another id
/// is kept.
pub proof fn lemma_saved_alias_is_found(m: Map<usize, AliasEntity>, payload: AliasEntity)
    requires
        m.len() < usize::MAX,
    ensures
        ({
            let id: usize = next_alias_id(m) as usize;
            let saved = m.insert(id, payload);
            &&& saved.contains_key(id)
            &&& saved[id] == payload
            &&& forall|k: usize| k != id ==> (#[trigger] saved.contains_key(k) <==> m.contains_key(k))
            &&& forall|k: usize| k != id && m.contains_key(k) ==> #[trigger] saved[k] == m[k]
        }),
{
}

/// Saving into a map that has no alias under `m.len() + 1` (as when the ids
/// are 1 to `m.len()`) adds one alias; deleting the new id then gives the
/// map back.
pub proof fn lemma_delete_undoes_save(m: Map<usize, AliasEntity>, payload: AliasEntity)
    requires
        m.dom().finite(),
        m.len() < usize::MAX,
        !m.contains_key(next_alias_id(m) as usize),
    ensures
        ({
            let id: usize = next_alias_id(m) as usize;
            &&& m.insert(id, payload).len() == m.len() + 1
            &&& m.insert(id, payload).remove(id) == m
        }),
{
    let id: usize = next_alias_id(m) as usize;
    assert(m.insert(id, payload).remove(id) =~= m);
}

/// A deleted alias is gone, and no other alias is touched.
pub proof fn lemma_deleted_alias_is_gone(m: Map<usize, AliasEntity>, id: usize)
    ensures
        !m.remove(id).contains_key(id),
        forall|k: usize| k != id ==> (#[trigger] m.remove(id).contains_key(k) <==> m.contains_key(k)),
        forall|k: usize| k != id && m.contains_key(k) ==> #[trigger] m.remove(id)[k] == m[k],
{
}

/// The id a listing line shows reads back, as `--run` and `--alias-id`
/// read it, as the id it was written from.
pub proof fn lemma_listed_id_reads_back(id: usize)
    ensures
        crate::text::parsed_usize(decimal(id as nat)) == Some(id),
{
    crate::text::lemma_parse_usize_of_decimal(id);
}

/// How many spaces follow a column text of `n` characters: up to a width
/// of 15, and none once the text is that wide.
pub open spec fn column_gap(n: nat) -> nat {
    if n < 15 {
        (15 - n) as nat
    } else {
        0
    }
}

/// A line of the alias listing shows the alias's id in decimal, its type
/// (`task` or `task_details`) and its name, each in full and followed by
/// spaces up to 15 characters, with one space between the columns: no
/// column is ever cut.
pub proof fn lemma_listing_line_in_full(id: usize, e: AliasEntity)
    ensures
        entry_line(id, e) == decimal(id as nat) + spaces(column_gap(decimal(id as nat).len())) + " "@
            + (if e.alias_type == AliasType::Task {
            "task"@
        } else {
            "task_details"@
        }) + spaces(column_gap(alias_type_name(e.alias_type).len())) + " "@ + e.name@ + spaces(
            column_gap(e.name@.len()),
        ),
{
    let idt = decimal(id as nat);
    let kind = alias_type_name(e.alias_type);
    let name = e.name@;
    assert(pad_right(idt, 15) =~= idt + spaces(column_gap(idt.len())));
    assert(pad_right(kind, 15) =~= kind + spaces(column_gap(kind.len())));
    assert(pad_right(name, 15) =~= name + spaces(column_gap(name.len())));
}

} // verus!
