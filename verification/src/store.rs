//! The task document: the saved scripts, grouped by the kind of task.
//!
//! The document is an object whose member `scripts` maps each kind of task to
//! the list of its saved entries.
use vstd::prelude::*;
use crate::json::{
    lemma_assoc_set, Json, JsonV, assoc_set, field_keys, fields_view, find_key, first_index, jsons_view,
    lemma_array_view, lemma_fields_keys, lemma_object_view, lookup,
    take_field, restore_field, lemma_replace_field,
};
use crate::text::join_lines;

verus! {

/// The kinds of task that the document schedules.
#[derive(Debug, Clone, Copy, PartialEq, Eq, Structural)]
pub enum TaskKind {
    DailyCheckin,
    CodeRedeem,
}

impl TaskKind {
    /// The member of `scripts` that lists the tasks of this kind.
    pub open spec fn section_spec(self) -> Seq<char> {
        match self {
            TaskKind::DailyCheckin => "daily_checkin"@,
            TaskKind::CodeRedeem => "redeem_promo_code"@,
        }
    }

    /// The Python module that runs a task of this kind.
    pub open spec fn module_spec(self) -> Seq<char> {
        match self {
            TaskKind::DailyCheckin => "daily_checkin"@,
            TaskKind::CodeRedeem => "promo_code_redeem"@,
        }
    }

    /// The error when the document lists no tasks of this kind.
    pub open spec fn missing_spec(self) -> Seq<char> {
        match self {
            TaskKind::DailyCheckin => "No daily_checkin tasks found"@,
            TaskKind::CodeRedeem => "No promo_code_redeem tasks found"@,
        }
    }

    /// The start of the error when an entry cannot be read as arguments.
    pub open spec fn parse_failure_prefix(self) -> Seq<char> {
        match self {
            TaskKind::DailyCheckin => "Failed to parse checkin data: "@,
            TaskKind::CodeRedeem => "Failed to parse code redeem data: "@,
        }
    }

    pub fn section(&self) -> (s: String)
        ensures
            s@ == self.section_spec(),
    {
        match self {
            TaskKind::DailyCheckin => String::from_str("daily_checkin"),
            TaskKind::CodeRedeem => String::from_str("redeem_promo_code"),
        }
    }

    pub fn module(&self) -> (s: String)
        ensures
            s@ == self.module_spec(),
    {
        match self {
            TaskKind::DailyCheckin => String::from_str("daily_checkin"),
            TaskKind::CodeRedeem => String::from_str("promo_code_redeem"),
        }
    }

    pub fn missing_message(&self) -> (s: String)
        ensures
            s@ == self.missing_spec(),
    {
        match self {
            TaskKind::DailyCheckin => String::from_str("No daily_checkin tasks found"),
            TaskKind::CodeRedeem => String::from_str("No promo_code_redeem tasks found"),
        }
    }

    /// The error reported when an entry of the document cannot be read as the
    /// arguments of a task of this kind; `detail` says why.
    pub fn parse_failure(&self, detail: &String) -> (s: String)
        ensures
            s@ == self.parse_failure_prefix() + detail@,
    {
        let prefix = match self {
            TaskKind::DailyCheckin => String::from_str("Failed to parse checkin data: "),
            TaskKind::CodeRedeem => String::from_str("Failed to parse code redeem data: "),
        };
        prefix.concat(detail.as_str())
    }
}

// ---------------------------------------------------------------------------
// Reading the document
// ---------------------------------------------------------------------------

/// `doc[key]`: the member `key` of an object, and null for anything else.
pub open spec fn member(doc: JsonV, key: Seq<char>) -> JsonV {
    match doc {
        JsonV::Object(fields) => match lookup(fields, key) {
            Some(v) => v,
            None => JsonV::Null,
        },
        _ => JsonV::Null,
    }
}

/// The entries listed under `scripts.<section>`, if that member is a list.
pub open spec fn task_entries(doc: JsonV, section: Seq<char>) -> Option<Seq<JsonV>> {
    match member(member(doc, "scripts"@), section) {
        JsonV::Array(items) => Some(items),
        _ => None,
    }
}

/// The members of an object; none for anything else.
pub open spec fn object_fields(doc: JsonV) -> Seq<(Seq<char>, JsonV)> {
    match doc {
        JsonV::Object(fields) => fields,
        _ => Seq::empty(),
    }
}

/// The items of a list; none for anything else.
pub open spec fn array_items(doc: JsonV) -> Seq<JsonV> {
    match doc {
        JsonV::Array(items) => items,
        _ => Seq::empty(),
    }
}

/// The tasks of one kind that a document schedules: those listed under
/// `scripts.<section>`; the error names the kind when there is no such list.
pub fn scheduled_tasks(doc: &Json, kind: TaskKind) -> (res: Result<&Vec<Json>, String>)
    ensures
        match task_entries(doc@, kind.section_spec()) {
            Some(items) => res matches Ok(v) && jsons_view(v@) == items,
            None => res matches Err(e) && e@ == kind.missing_spec(),
        },
{
    let scripts_key = String::from_str("scripts");
    let section = kind.section();
    if let Json::Object(top) = doc {
        proof {
            lemma_object_view(*top);
            lemma_fields_keys(top@);
        }
        if let Some(i) = find_key(top, &scripts_key) {
            if let Json::Object(scripts) = &top[i].1 {
                proof {
                    lemma_object_view(*scripts);
                    lemma_fields_keys(scripts@);
                }
                if let Some(k) = find_key(scripts, &section) {
                    if let Json::Array(items) = &scripts[k].1 {
                        proof {
                            lemma_array_view(*items);
                        }
                        return Ok(items);
                    }
                }
            }
        }
    }
    Err(kind.missing_message())
}

// ---------------------------------------------------------------------------
// Saving an entry
// ---------------------------------------------------------------------------

/// The document that stands in for one that cannot be read: `{"scripts": []}`.
pub open spec fn fresh_doc() -> JsonV {
    JsonV::Object(seq![("scripts"@, JsonV::Array(Seq::empty()))])
}

/// The document to save into: the one read, or the fresh one.
pub open spec fn loaded_doc(existing: Option<JsonV>) -> JsonV {
    match existing {
        Some(d) => d,
        None => fresh_doc(),
    }
}

/// A document that cannot be read counts as one with an empty list of
/// scripts and nothing else: it schedules no task of any kind.
pub proof fn law_unreadable_document(section: Seq<char>)
    ensures
        member(loaded_doc(None), "scripts"@) == JsonV::Array(Seq::empty()),
        object_fields(loaded_doc(None)).len() == 1,
        task_entries(loaded_doc(None), section) is None,
{
    let f = seq![("scripts"@, JsonV::Array(Seq::empty()))];
    crate::json::lemma_lookup_distinct(f, 0);
}

/// A document can take an entry when it is an object or null.
pub open spec fn can_save(doc: JsonV) -> bool {
    doc is Null || doc is Object
}

pub open spec fn opt_view(j: Option<Json>) -> Option<JsonV> {
    match j {
        Some(d) => Some(d@),
        None => None,
    }
}

/// `doc` after `data` is appended to the list `scripts.<mode>`. Where `scripts`
/// is not an object it is replaced by an empty one, and where `scripts.<mode>`
/// is not a list it is replaced by an empty one; every other member stays.
pub open spec fn saved_doc(doc: JsonV, mode: Seq<char>, data: JsonV) -> JsonV {
    let top = object_fields(doc);
    let scripts = object_fields(member(doc, "scripts"@));
    let entries = array_items(member(member(doc, "scripts"@), mode));
    JsonV::Object(
        assoc_set(
            top,
            "scripts"@,
            JsonV::Object(assoc_set(scripts, mode, JsonV::Array(entries.push(data)))),
        ),
    )
}

/// The fresh document `{"scripts": []}`.
pub fn fresh_document() -> (res: Json)
    ensures
        res@ == fresh_doc(),
{
    let empty: Vec<Json> = Vec::new();
    proof {
        lemma_array_view(empty);
        assert(jsons_view(empty@) =~= Seq::<JsonV>::empty());
    }
    let mut fields: Vec<(String, Json)> = Vec::new();
    fields.push((String::from_str("scripts"), Json::Array(empty)));
    proof {
        lemma_object_view(fields);
        assert(fields_view(fields@) =~= seq![("scripts"@, JsonV::Array(Seq::empty()))]);
    }
    Json::Object(fields)
}

/// Appends `data` to the entries of kind `mode` in a document: the one read,
/// or, where none could be read, the fresh document `{"scripts": []}`.
pub fn save_entry(existing: Option<Json>, mode: &String, data: Json) -> (res: Json)
    requires
        existing matches Some(d) ==> can_save(d@),
    ensures
        res@ == saved_doc(loaded_doc(opt_view(existing)), mode@, data@),
{
    let doc = match existing {
        Some(d) => d,
        None => fresh_document(),
    };
    let ghost d0 = doc@;
    let mut top: Vec<(String, Json)> = match doc {
        Json::Object(f) => f,
        _ => Vec::new(),
    };
    proof {
        if d0 is Object {
            lemma_object_view(top);
        }
        assert(fields_view(top@) =~= object_fields(d0));
        lemma_fields_keys(top@);
    }
    let ghost top0 = top@;
    let scripts_key = String::from_str("scripts");
    let found = take_field(&mut top, &scripts_key);
    let ghost scripts_doc = member(d0, "scripts"@);
    let (slot, mut scripts): (Option<usize>, Vec<(String, Json)>) = match found {
        Some((i, v)) => {
            assert(scripts_doc == v@);
            match v {
                Json::Object(sf) => {
                    proof {
                        lemma_object_view(sf);
                    }
                    (Some(i), sf)
                },
                _ => (Some(i), Vec::new()),
            }
        },
        None => (None, Vec::new()),
    };
    proof {
        assert(fields_view(scripts@) =~= object_fields(scripts_doc));
        lemma_fields_keys(scripts@);
    }
    let ghost scripts0 = scripts@;
    let found_m = take_field(&mut scripts, mode);
    let ghost entries_doc = member(scripts_doc, mode@);
    let (mslot, mut entries): (Option<usize>, Vec<Json>) = match found_m {
        Some((i, v)) => {
            assert(entries_doc == v@);
            match v {
                Json::Array(a) => {
                    proof {
                        lemma_array_view(a);
                    }
                    (Some(i), a)
                },
                _ => (Some(i), Vec::new()),
            }
        },
        None => (None, Vec::new()),
    };
    proof {
        assert(jsons_view(entries@) =~= array_items(entries_doc));
    }
    let ghost entries0 = entries@;
    entries.push(data);
    let new_list = Json::Array(entries);
    proof {
        lemma_array_view(entries);
        assert(jsons_view(entries@) =~= array_items(entries_doc).push(data@));
    }
    let mode_key = mode.clone();
    let ghost list_v = new_list;
    restore_field(&mut scripts, mslot, mode_key, new_list);
    proof {
        lemma_replace_field(scripts0, mslot, mode_key, list_v);
    }
    let new_scripts = Json::Object(scripts);
    proof {
        lemma_object_view(scripts);
    }
    let ghost scripts_v = new_scripts;
    restore_field(&mut top, slot, scripts_key, new_scripts);
    proof {
        lemma_replace_field(top0, slot, scripts_key, scripts_v);
        lemma_object_view(top);
    }
    Json::Object(top)
}

/// What is saved is read back: after an entry is saved under `mode`, the tasks
/// of that kind are the ones listed before (none, where there was no list),
/// followed by the new entry.
pub proof fn law_saved_entry_is_scheduled(doc: JsonV, mode: Seq<char>, data: JsonV)
    ensures
        task_entries(saved_doc(doc, mode, data), mode) == Some(
            array_items(member(member(doc, "scripts"@), mode)).push(data),
        ),
{
    let top = object_fields(doc);
    let scripts = object_fields(member(doc, "scripts"@));
    let entries = array_items(member(member(doc, "scripts"@), mode));
    let inner = JsonV::Object(assoc_set(scripts, mode, JsonV::Array(entries.push(data))));
    lemma_assoc_set(top, "scripts"@, inner, "scripts"@);
    lemma_assoc_set(scripts, mode, JsonV::Array(entries.push(data)), mode);
}

/// Saving an entry of one kind leaves the tasks of every other kind as they were.
pub proof fn law_save_keeps_other_sections(
    doc: JsonV,
    mode: Seq<char>,
    data: JsonV,
    section: Seq<char>,
)
    requires
        section != mode,
    ensures
        task_entries(saved_doc(doc, mode, data), section) == task_entries(doc, section),
{
    let top = object_fields(doc);
    let scripts = object_fields(member(doc, "scripts"@));
    let entries = array_items(member(member(doc, "scripts"@), mode));
    let inner = JsonV::Object(assoc_set(scripts, mode, JsonV::Array(entries.push(data))));
    lemma_assoc_set(top, "scripts"@, inner, "scripts"@);
    lemma_assoc_set(scripts, mode, JsonV::Array(entries.push(data)), section);
    if !(member(doc, "scripts"@) is Object) {
        assert(field_keys(scripts) =~= Seq::<Seq<char>>::empty());
        assert(first_index(field_keys(scripts), section) is None);
    }
}

/// Saving touches nothing but the list it appends to: every other member of
/// an object document stays as it was, and so does every other member of an
/// object `scripts`.
pub proof fn law_save_keeps_other_members(
    doc: JsonV,
    mode: Seq<char>,
    data: JsonV,
    key: Seq<char>,
    section: Seq<char>,
)
    ensures
        doc is Object && key != "scripts"@ ==> member(saved_doc(doc, mode, data), key) == member(
            doc,
            key,
        ),
        member(doc, "scripts"@) is Object && section != mode ==> member(
            member(saved_doc(doc, mode, data), "scripts"@),
            section,
        ) == member(member(doc, "scripts"@), section),
        member(saved_doc(doc, mode, data), "scripts"@) is Object,
{
    let top = object_fields(doc);
    let scripts = object_fields(member(doc, "scripts"@));
    let entries = array_items(member(member(doc, "scripts"@), mode));
    let inner = JsonV::Object(assoc_set(scripts, mode, JsonV::Array(entries.push(data))));
    lemma_assoc_set(top, "scripts"@, inner, key);
    lemma_assoc_set(top, "scripts"@, inner, "scripts"@);
    lemma_assoc_set(scripts, mode, JsonV::Array(entries.push(data)), section);
}

// ---------------------------------------------------------------------------
// Reporting a run
// ---------------------------------------------------------------------------

/// The line that reports the outcome of one task.
pub open spec fn outcome_line(r: Result<String, String>) -> Seq<char> {
    match r {
        Ok(s) => s@,
        Err(e) => "Error: "@ + e@,
    }
}

pub open spec fn outcome_lines(outcomes: Seq<Result<String, String>>) -> Seq<Seq<char>> {
    outcomes.map_values(|r: Result<String, String>| outcome_line(r))
}

/// One more task adds a line at the end of the report: its output, or
/// `Error: ` and its error, after a line break unless it is the first.
pub proof fn law_report_push(outcomes: Seq<Result<String, String>>, r: Result<String, String>)
    ensures
        join_lines(outcome_lines(outcomes.push(r)), "\n"@) == {
            let line = match r {
                Ok(s) => s@,
                Err(e) => "Error: "@ + e@,
            };
            if outcomes.len() == 0 {
                line
            } else {
                join_lines(outcome_lines(outcomes), "\n"@) + "\n"@ + line
            }
        },
{
    let lines = outcome_lines(outcomes);
    let longer = outcome_lines(outcomes.push(r));
    assert(longer =~= lines.push(outcome_line(r)));
    assert(longer.drop_last() =~= lines);
}

/// An empty run reports nothing.
pub proof fn law_report_empty()
    ensures
        join_lines(outcome_lines(Seq::empty()), "\n"@) == Seq::<char>::empty(),
{
    assert(outcome_lines(Seq::empty()) =~= Seq::<Seq<char>>::empty());
}

/// The report of a run: one line per task, in order, an error line starting
/// with `Error: `.
pub fn run_report(outcomes: &Vec<Result<String, String>>) -> (res: String)
    ensures
        res@ == join_lines(outcome_lines(outcomes@), "\n"@),
{
    let mut res = String::new();
    let mut i: usize = 0;
    while i < outcomes.len()
        invariant
            i <= outcomes.len(),
            res@ == join_lines(outcome_lines(outcomes@).take(i as int), "\n"@),
        decreases outcomes.len() - i,
    {
        let ghost before = res@;
        if i > 0 {
            res.append("\n");
        }
        match &outcomes[i] {
            Ok(s) => res.append(s.as_str()),
            Err(e) => {
                res.append("Error: ");
                res.append(e.as_str());
            },
        }
        let ghost lines = outcome_lines(outcomes@);
        assert(lines.take(i + 1).drop_last() =~= lines.take(i as int));
        assert(lines.take(i + 1).last() == outcome_line(outcomes@[i as int]));
        i = i + 1;
    }
    assert(outcome_lines(outcomes@).take(outcomes.len() as int) =~= outcome_lines(outcomes@));
    res
}

} // verus!
