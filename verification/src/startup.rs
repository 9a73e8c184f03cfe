//! Start-up state: the side tasks that gate the main window, the paths of the
//! task modules and of the task document, and the environment of the
//! embedded interpreter.
use vstd::prelude::*;
use crate::json::{fields_view, find_key, lemma_fields_keys, lemma_object_view, Json, JsonV};
use crate::store::member;

verus! {

// ---------------------------------------------------------------------------
// Side tasks
// ---------------------------------------------------------------------------

/// Which side tasks of the start-up have completed.
#[derive(Debug, Clone, Copy, PartialEq, Eq)]
pub struct SideTasks {
    pub updater: bool,
    pub dependencies: bool,
}

/// The side tasks after the one named `task` completes: `updater` or
/// `dependencies`; any other name changes nothing.
pub open spec fn completed(s: SideTasks, task: Seq<char>) -> SideTasks {
    SideTasks {
        updater: s.updater || task == "updater"@,
        dependencies: s.dependencies || task == "dependencies"@,
    }
}

impl SideTasks {
    /// Marks the side task named `task` as complete, and says whether the main
    /// window is to be shown: once the dependencies are in place.
    pub fn set_complete(&mut self, task: &String) -> (show_main: bool)
        ensures
            *final(self) == completed(*old(self), task@),
            show_main == final(self).dependencies,
    {
        if *task == String::from_str("updater") {
            self.updater = true;
        } else if *task == String::from_str("dependencies") {
            self.dependencies = true;
        }
        proof {
            reveal_strlit("updater");
            reveal_strlit("dependencies");
            assert("updater"@.len() != "dependencies"@.len());
            assert("updater"@ != "dependencies"@);
        }
        self.dependencies
    }
}

/// A completed side task stays completed, and once the dependencies complete
/// the main window is shown.
pub proof fn law_side_tasks_stay_complete(s: SideTasks, task: Seq<char>)
    ensures
        s.updater ==> completed(s, task).updater,
        s.dependencies ==> completed(s, task).dependencies,
        task == "dependencies"@ ==> completed(s, task).dependencies,
        completed(completed(s, task), task) == completed(s, task),
{
}

/// Each name completes its own task only: `updater` leaves the dependencies
/// as they were, `dependencies` leaves the updater as it was, and any other
/// name changes nothing.
pub proof fn law_side_task_names(s: SideTasks, task: Seq<char>)
    ensures
        task == "updater"@ ==> completed(s, task).updater && completed(s, task).dependencies
            == s.dependencies,
        task == "dependencies"@ ==> completed(s, task).dependencies && completed(s, task).updater
            == s.updater,
        task != "updater"@ && task != "dependencies"@ ==> completed(s, task) == s,
{
    reveal_strlit("updater");
    reveal_strlit("dependencies");
    assert("updater"@.len() != "dependencies"@.len());
}

// ---------------------------------------------------------------------------
// Module paths
// ---------------------------------------------------------------------------

/// The paths of the check-in module, of the promo code module and of the task
/// document, each set at most once, all by the first initialization.
#[derive(Debug)]
pub struct ModulePaths {
    initialized: bool,
    daily_checkin: Option<String>,
    promo_code: Option<String>,
    task_data: Option<String>,
}

pub struct ModulePathsV {
    pub initialized: bool,
    pub daily_checkin: Option<Seq<char>>,
    pub promo_code: Option<Seq<char>>,
    pub task_data: Option<Seq<char>>,
}

pub open spec fn opt_text(o: Option<String>) -> Option<Seq<char>> {
    match o {
        Some(s) => Some(s@),
        None => None,
    }
}

impl View for ModulePaths {
    type V = ModulePathsV;

    closed spec fn view(&self) -> ModulePathsV {
        ModulePathsV {
            initialized: self.initialized,
            daily_checkin: opt_text(self.daily_checkin),
            promo_code: opt_text(self.promo_code),
            task_data: opt_text(self.task_data),
        }
    }
}

/// A path that is set once keeps its first value.
pub open spec fn set_once(slot: Option<Seq<char>>, v: Seq<char>) -> Option<Seq<char>> {
    match slot {
        Some(s) => Some(s),
        None => Some(v),
    }
}

/// The paths after an initialization with the given values: the first one
/// sets every path not set yet; any later one changes nothing.
pub open spec fn initialized_paths(
    p: ModulePathsV,
    daily_checkin: Seq<char>,
    promo_code: Seq<char>,
    task_data: Seq<char>,
) -> ModulePathsV {
    if p.initialized {
        p
    } else {
        ModulePathsV {
            initialized: true,
            daily_checkin: set_once(p.daily_checkin, daily_checkin),
            promo_code: set_once(p.promo_code, promo_code),
            task_data: set_once(p.task_data, task_data),
        }
    }
}

fn store_once(slot: &mut Option<String>, v: String)
    ensures
        opt_text(*final(slot)) == set_once(opt_text(*old(slot)), v@),
{
    if slot.is_none() {
        *slot = Some(v);
    }
}

impl ModulePaths {
    /// No path set yet.
    pub fn new() -> (res: Self)
        ensures
            res@ == (ModulePathsV {
                initialized: false,
                daily_checkin: None,
                promo_code: None,
                task_data: None,
            }),
    {
        ModulePaths { initialized: false, daily_checkin: None, promo_code: None, task_data: None }
    }

    /// Records the resolved paths; only the first call has an effect.
    pub fn initialize_modules(&mut self, daily_checkin: String, promo_code: String, task_data: String)
        ensures
            final(self)@ == initialized_paths(old(self)@, daily_checkin@, promo_code@, task_data@),
    {
        if !self.initialized {
            self.initialized = true;
            store_once(&mut self.daily_checkin, daily_checkin);
            store_once(&mut self.promo_code, promo_code);
            store_once(&mut self.task_data, task_data);
        }
    }
}

/// The path of the check-in module, once initialized.
pub fn get_checkin(paths: &ModulePaths) -> (res: Option<&str>)
    ensures
        match res {
            Some(s) => paths@.daily_checkin == Some(s@),
            None => paths@.daily_checkin is None,
        },
{
    match &paths.daily_checkin {
        Some(s) => Some(s.as_str()),
        None => None,
    }
}

/// The path of the promo code module, once initialized.
pub fn get_promo_code(paths: &ModulePaths) -> (res: Option<&str>)
    ensures
        match res {
            Some(s) => paths@.promo_code == Some(s@),
            None => paths@.promo_code is None,
        },
{
    match &paths.promo_code {
        Some(s) => Some(s.as_str()),
        None => None,
    }
}

/// The path of the task document, once initialized.
pub fn get_task_data(paths: &ModulePaths) -> (res: Option<&str>)
    ensures
        match res {
            Some(s) => paths@.task_data == Some(s@),
            None => paths@.task_data is None,
        },
{
    match &paths.task_data {
        Some(s) => Some(s.as_str()),
        None => None,
    }
}

/// What is recorded is read back: after the first initialization each path is
/// the one given, and no later initialization changes any of them.
pub proof fn law_paths_set_once(
    p: ModulePathsV,
    a: Seq<char>,
    b: Seq<char>,
    c: Seq<char>,
    a2: Seq<char>,
    b2: Seq<char>,
    c2: Seq<char>,
)
    requires
        p == (ModulePathsV {
            initialized: false,
            daily_checkin: None,
            promo_code: None,
            task_data: None,
        }),
    ensures
        initialized_paths(p, a, b, c).daily_checkin == Some(a),
        initialized_paths(p, a, b, c).promo_code == Some(b),
        initialized_paths(p, a, b, c).task_data == Some(c),
        initialized_paths(initialized_paths(p, a, b, c), a2, b2, c2) == initialized_paths(
            p,
            a,
            b,
            c,
        ),
{
}

// ---------------------------------------------------------------------------
// The first configuration on Windows
// ---------------------------------------------------------------------------

/// The configuration record as read: an object, or the empty object where it
/// could not be read.
pub open spec fn config_doc(config: Option<JsonV>) -> JsonV {
    match config {
        Some(d) => d,
        None => JsonV::Object(Seq::empty()),
    }
}

/// The first configuration runs where there is no record of it, or where the
/// record's `initial_config` is `true`.
pub open spec fn needs_initial_config_spec(record_exists: bool, config: Option<JsonV>) -> bool {
    !record_exists || member(config_doc(config), "initial_config"@) == JsonV::Bool(true)
}

pub open spec fn opt_json_view(j: Option<Json>) -> Option<JsonV> {
    match j {
        Some(d) => Some(d@),
        None => None,
    }
}

/// Whether the first configuration of the embedded interpreter is to run;
/// `config` is the record read, where it could be read.
pub fn needs_initial_config(record_exists: bool, config: &Option<Json>) -> (res: bool)
    ensures
        res == needs_initial_config_spec(record_exists, opt_json_view(*config)),
{
    if !record_exists {
        return true;
    }
    let key = String::from_str("initial_config");
    match config {
        Some(Json::Object(fields)) => {
            proof {
                lemma_object_view(*fields);
                lemma_fields_keys(fields@);
            }
            match find_key(fields, &key) {
                Some(i) => match &fields[i].1 {
                    Json::Bool(b) => *b,
                    _ => false,
                },
                None => false,
            }
        },
        _ => false,
    }
}

/// The record written once the first configuration is done:
/// `{"initial_config": false}`.
pub open spec fn initial_config_done_spec() -> JsonV {
    JsonV::Object(seq![("initial_config"@, JsonV::Bool(false))])
}

pub fn initial_config_done() -> (res: Json)
    ensures
        res@ == initial_config_done_spec(),
{
    let mut fields: Vec<(String, Json)> = Vec::new();
    fields.push((String::from_str("initial_config"), Json::Bool(false)));
    proof {
        lemma_object_view(fields);
        assert(fields_view(fields@) =~= seq![("initial_config"@, JsonV::Bool(false))]);
    }
    Json::Object(fields)
}

/// The first configuration runs where no record exists; where one exists, it
/// runs exactly when the record's `initial_config` is `true`, and not where the
/// record cannot be read.
pub proof fn law_initial_config_decision(v: JsonV)
    ensures
        needs_initial_config_spec(false, None),
        forall|c: Option<JsonV>| needs_initial_config_spec(false, c),
        !needs_initial_config_spec(true, None),
        needs_initial_config_spec(true, Some(JsonV::Object(seq![("initial_config"@, v)])))
            == (v == JsonV::Bool(true)),
{
    crate::json::lemma_lookup_distinct(seq![("initial_config"@, v)], 0);
    assert(crate::json::field_keys(Seq::<(Seq<char>, JsonV)>::empty()) =~= Seq::<Seq<char>>::empty());
}

/// The first configuration runs once: after its record is written, it is not
/// run again.
pub proof fn law_initial_config_runs_once()
    ensures
        !needs_initial_config_spec(true, Some(initial_config_done_spec())),
{
    let fields = seq![("initial_config"@, JsonV::Bool(false))];
    crate::json::lemma_lookup_distinct(fields, 0);
}

// ---------------------------------------------------------------------------
// The environment of the embedded interpreter
// ---------------------------------------------------------------------------

/// The separator of the entries of `PATH`: `;` on Windows, `:` elsewhere.
pub open spec fn path_separator(windows: bool) -> Seq<char> {
    if windows {
        ";"@
    } else {
        ":"@
    }
}

/// Entries of `PATH` are separated by `;` on Windows and by `:` elsewhere.
pub proof fn law_path_separator()
    ensures
        path_separator(true) == ";"@,
        path_separator(false) == ":"@,
{
}

/// `PATH` extended by the interpreter's library and program directories.
pub fn search_path(windows: bool, current: &String, lib: &String, bin: &String) -> (res: String)
    ensures
        res@ == current@ + path_separator(windows) + lib@ + path_separator(windows) + bin@,
{
    let sep = if windows {
        ";"
    } else {
        ":"
    };
    let mut res = current.clone();
    res.append(sep);
    res.append(lib.as_str());
    res.append(sep);
    res.append(bin.as_str());
    res
}

/// Where the interpreter's files lie, relative to the application's data
/// directory: the library directory (the data directory itself on Windows),
/// and below it the interpreter, its programs and its site packages.
#[derive(Debug, PartialEq, Eq)]
pub struct InterpreterLayout {
    pub libs_subdir: Option<String>,
    pub python_subdir: String,
    pub bin_subdir: String,
    pub site_packages_subdir: String,
}

pub open spec fn layout_spec(windows: bool) -> (Option<Seq<char>>, Seq<char>, Seq<char>, Seq<char>) {
    if windows {
        (None, "Python311"@, "Python311\\Scripts"@, "Python311/site-packages"@)
    } else {
        (Some("Python311"@), "python3.11"@, "bin"@, "lib/python3.11/site-packages"@)
    }
}

/// The layout of the embedded interpreter on Windows, and of the user's
/// installation elsewhere.
pub fn interpreter_layout(windows: bool) -> (res: InterpreterLayout)
    ensures
        (opt_text(res.libs_subdir), res.python_subdir@, res.bin_subdir@, res.site_packages_subdir@)
            == layout_spec(windows),
{
    if windows {
        InterpreterLayout {
            libs_subdir: None,
            python_subdir: String::from_str("Python311"),
            bin_subdir: String::from_str("Python311\\Scripts"),
            site_packages_subdir: String::from_str("Python311/site-packages"),
        }
    } else {
        InterpreterLayout {
            libs_subdir: Some(String::from_str("Python311")),
            python_subdir: String::from_str("python3.11"),
            bin_subdir: String::from_str("bin"),
            site_packages_subdir: String::from_str("lib/python3.11/site-packages"),
        }
    }
}

} // verus!
