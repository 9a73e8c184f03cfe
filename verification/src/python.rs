//! Calls into the Python task modules: the keyword arguments of each task,
//! the script that runs a module, and the reading of what the module returns.
use vstd::prelude::*;
use crate::json::{
    assoc_set, distinct_keys, field_keys, first_index, lemma_assoc_set, lemma_assoc_set_distinct,
    lemma_first_index_none, lemma_first_index_some, lookup, fields_view, jsons_view, lemma_array_view, lemma_object_view, pairs_view,
    set_member, Json, JsonV,
};
use crate::text::join_lines;

verus! {

// ---------------------------------------------------------------------------
// Task arguments
// ---------------------------------------------------------------------------

/// The arguments of a daily check-in.
#[derive(Debug, PartialEq, Eq)]
pub struct CheckinArgs {
    pub game: String,
    pub account: Option<String>,
    pub password: Option<String>,
    pub hoyolab_id: Option<String>,
    pub cookies: Option<String>,
}

/// The arguments of a promo code redemption.
#[derive(Debug, PartialEq, Eq)]
pub struct PromoCodeArgs {
    pub game: String,
    pub account: Option<String>,
    pub password: Option<String>,
    pub hoyolab_id: Option<String>,
    pub cookies: Option<String>,
    pub uid: Option<String>,
    pub code: Option<String>,
}

/// The keyword argument `key` where `value` is present; none where it is absent.
pub open spec fn optional_arg(key: Seq<char>, value: Option<String>) -> Seq<(Seq<char>, Seq<char>)> {
    match value {
        Some(v) => seq![(key, v@)],
        None => Seq::empty(),
    }
}

impl CheckinArgs {
    /// `game` first, then each argument that is present, in a fixed order.
    pub open spec fn kwargs_spec(self) -> Seq<(Seq<char>, Seq<char>)> {
        seq![("game"@, self.game@)] + optional_arg("account"@, self.account) + optional_arg(
            "password"@,
            self.password,
        ) + optional_arg("hoyolab-id"@, self.hoyolab_id) + optional_arg("cookies"@, self.cookies)
    }

    /// The keyword arguments that the check-in module is called with.
    pub fn python_kwargs(&self) -> (res: Vec<(String, String)>)
        ensures
            pairs_view(res@) == self.kwargs_spec(),
    {
        let mut res: Vec<(String, String)> = Vec::new();
        push_arg(&mut res, "game", &self.game);
        push_optional(&mut res, "account", &self.account);
        push_optional(&mut res, "password", &self.password);
        push_optional(&mut res, "hoyolab-id", &self.hoyolab_id);
        push_optional(&mut res, "cookies", &self.cookies);
        assert(pairs_view(res@) =~= self.kwargs_spec());
        res
    }
}

impl PromoCodeArgs {
    /// `game` first, then each argument that is present, in a fixed order.
    pub open spec fn kwargs_spec(self) -> Seq<(Seq<char>, Seq<char>)> {
        seq![("game"@, self.game@)] + optional_arg("account"@, self.account) + optional_arg(
            "password"@,
            self.password,
        ) + optional_arg("hoyolab-id"@, self.hoyolab_id) + optional_arg("cookies"@, self.cookies)
            + optional_arg("uid"@, self.uid) + optional_arg("code"@, self.code)
    }

    /// The keyword arguments that the redemption module is called with.
    pub fn python_kwargs(&self) -> (res: Vec<(String, String)>)
        ensures
            pairs_view(res@) == self.kwargs_spec(),
    {
        let mut res: Vec<(String, String)> = Vec::new();
        push_arg(&mut res, "game", &self.game);
        push_optional(&mut res, "account", &self.account);
        push_optional(&mut res, "password", &self.password);
        push_optional(&mut res, "hoyolab-id", &self.hoyolab_id);
        push_optional(&mut res, "cookies", &self.cookies);
        push_optional(&mut res, "uid", &self.uid);
        push_optional(&mut res, "code", &self.code);
        assert(pairs_view(res@) =~= self.kwargs_spec());
        res
    }
}

/// One for a present optional argument, none for an absent one.
pub open spec fn present(o: Option<String>) -> int {
    if o is Some {
        1
    } else {
        0
    }
}

/// The check-in module gets `game` first, and one argument for each optional
/// field that is present, whatever the other fields are: `account`,
/// `password`, `hoyolab-id` and `cookies` each with the field's value.
pub proof fn law_checkin_kwargs(args: CheckinArgs)
    ensures
        args.kwargs_spec().len() == 1 + present(args.account) + present(args.password) + present(
            args.hoyolab_id,
        ) + present(args.cookies),
        args.kwargs_spec()[0] == ("game"@, args.game@),
        args.account matches Some(v) ==> args.kwargs_spec().contains(("account"@, v@)),
        args.password matches Some(v) ==> args.kwargs_spec().contains(("password"@, v@)),
        args.hoyolab_id matches Some(v) ==> args.kwargs_spec().contains(("hoyolab-id"@, v@)),
        args.cookies matches Some(v) ==> args.kwargs_spec().contains(("cookies"@, v@)),
{
    let kw = args.kwargs_spec();
    let a = present(args.account);
    let p = present(args.password);
    let h = present(args.hoyolab_id);
    if let Some(v) = args.account {
        assert(kw[1] == ("account"@, v@));
    }
    if let Some(v) = args.password {
        assert(kw[1 + a] == ("password"@, v@));
    }
    if let Some(v) = args.hoyolab_id {
        assert(kw[1 + a + p] == ("hoyolab-id"@, v@));
    }
    if let Some(v) = args.cookies {
        assert(kw[1 + a + p + h] == ("cookies"@, v@));
    }
}

/// The redemption module gets `game` first, and one argument for each optional
/// field that is present, whatever the other fields are: `account`,
/// `password`, `hoyolab-id`, `cookies`, `uid` and `code` each with the field's
/// value.
pub proof fn law_promo_code_kwargs(args: PromoCodeArgs)
    ensures
        args.kwargs_spec().len() == 1 + present(args.account) + present(args.password) + present(
            args.hoyolab_id,
        ) + present(args.cookies) + present(args.uid) + present(args.code),
        args.kwargs_spec()[0] == ("game"@, args.game@),
        args.account matches Some(v) ==> args.kwargs_spec().contains(("account"@, v@)),
        args.password matches Some(v) ==> args.kwargs_spec().contains(("password"@, v@)),
        args.hoyolab_id matches Some(v) ==> args.kwargs_spec().contains(("hoyolab-id"@, v@)),
        args.cookies matches Some(v) ==> args.kwargs_spec().contains(("cookies"@, v@)),
        args.uid matches Some(v) ==> args.kwargs_spec().contains(("uid"@, v@)),
        args.code matches Some(v) ==> args.kwargs_spec().contains(("code"@, v@)),
{
    let kw = args.kwargs_spec();
    let a = present(args.account);
    let p = present(args.password);
    let h = present(args.hoyolab_id);
    let c = present(args.cookies);
    let u = present(args.uid);
    if let Some(v) = args.account {
        assert(kw[1] == ("account"@, v@));
    }
    if let Some(v) = args.password {
        assert(kw[1 + a] == ("password"@, v@));
    }
    if let Some(v) = args.hoyolab_id {
        assert(kw[1 + a + p] == ("hoyolab-id"@, v@));
    }
    if let Some(v) = args.cookies {
        assert(kw[1 + a + p + h] == ("cookies"@, v@));
    }
    if let Some(v) = args.uid {
        assert(kw[1 + a + p + h + c] == ("uid"@, v@));
    }
    if let Some(v) = args.code {
        assert(kw[1 + a + p + h + c + u] == ("code"@, v@));
    }
}

fn push_arg(args: &mut Vec<(String, String)>, key: &str, value: &String)
    ensures
        pairs_view(final(args)@) == pairs_view(old(args)@).push((key@, value@)),
{
    args.push((String::from_str(key), value.clone()));
    assert(pairs_view(args@) =~= pairs_view(old(args)@).push((key@, value@)));
}

fn push_optional(args: &mut Vec<(String, String)>, key: &str, value: &Option<String>)
    ensures
        pairs_view(final(args)@) == pairs_view(old(args)@) + optional_arg(key@, *value),
{
    match value {
        Some(v) => {
            push_arg(args, key, v);
            assert(pairs_view(args@) =~= pairs_view(old(args)@) + optional_arg(key@, *value));
        },
        None => {
            assert(pairs_view(args@) =~= pairs_view(old(args)@) + optional_arg(key@, *value));
        },
    }
}

// ---------------------------------------------------------------------------
// The script that runs a task module
// ---------------------------------------------------------------------------

/// `key='value'`.
pub open spec fn assignment(arg: (Seq<char>, Seq<char>)) -> Seq<char> {
    arg.0 + "='"@ + arg.1 + "'"@
}

/// The keyword arguments as Python source: `k1='v1', k2='v2'`.
pub open spec fn kwargs_text(kwargs: Seq<(Seq<char>, Seq<char>)>) -> Seq<char> {
    join_lines(kwargs.map_values(|a: (Seq<char>, Seq<char>)| assignment(a)), ", "@)
}

/// No keyword arguments give no text.
pub proof fn law_kwargs_text_empty()
    ensures
        kwargs_text(Seq::empty()) == Seq::<char>::empty(),
{
    assert(Seq::<(Seq<char>, Seq<char>)>::empty().map_values(
        |a: (Seq<char>, Seq<char>)| assignment(a),
    ) =~= Seq::<Seq<char>>::empty());
}

/// One more keyword argument adds `, key='value'` at the end of the text (just
/// `key='value'` when it is the first): every argument is written, in order.
pub proof fn law_kwargs_text_push(
    kwargs: Seq<(Seq<char>, Seq<char>)>,
    arg: (Seq<char>, Seq<char>),
)
    ensures
        kwargs_text(kwargs.push(arg)) == if kwargs.len() == 0 {
            arg.0 + "='"@ + arg.1 + "'"@
        } else {
            kwargs_text(kwargs) + ", "@ + arg.0 + "='"@ + arg.1 + "'"@
        },
{
    let lines = kwargs.map_values(|a: (Seq<char>, Seq<char>)| assignment(a));
    let longer = kwargs.push(arg).map_values(|a: (Seq<char>, Seq<char>)| assignment(a));
    assert(longer =~= lines.push(assignment(arg)));
    assert(longer.drop_last() =~= lines);
    if kwargs.len() == 0 {
        assert(longer.len() == 1);
    } else {
        assert(kwargs_text(kwargs.push(arg)) == join_lines(lines, ", "@) + ", "@ + assignment(
            arg,
        ));
        assert(join_lines(lines, ", "@) + ", "@ + assignment(arg) =~= kwargs_text(kwargs) + ", "@
            + arg.0 + "='"@ + arg.1 + "'"@);
    }
}

/// Every keyword argument is written into the text as `key='value'`.
pub proof fn law_kwargs_text_has_every_argument(kwargs: Seq<(Seq<char>, Seq<char>)>, i: int)
    requires
        0 <= i < kwargs.len(),
    ensures
        exists|pre: Seq<char>, post: Seq<char>|
            kwargs_text(kwargs) == pre + (kwargs[i].0 + "='"@ + kwargs[i].1 + "'"@) + post,
    decreases kwargs.len(),
{
    let n = kwargs.len() - 1;
    let init = kwargs.drop_last();
    let last = kwargs[n];
    assert(init.push(last) =~= kwargs);
    law_kwargs_text_push(init, last);
    let a = kwargs[i].0 + "='"@ + kwargs[i].1 + "'"@;
    if i == n {
        let pre = if n == 0 {
            Seq::<char>::empty()
        } else {
            kwargs_text(init) + ", "@
        };
        let post = Seq::<char>::empty();
        assert(kwargs_text(kwargs) =~= pre + a + post);
    } else {
        law_kwargs_text_has_every_argument(init, i);
        let (pre, post) = choose|pre: Seq<char>, post: Seq<char>|
            kwargs_text(init) == pre + (init[i].0 + "='"@ + init[i].1 + "'"@) + post;
        assert(init[i] == kwargs[i]);
        let post2 = post + ", "@ + last.0 + "='"@ + last.1 + "'"@;
        assert(kwargs_text(kwargs) =~= pre + a + post2);
    }
}

/// The dotted path of a task module.
pub open spec fn dotted_module_spec(module: Seq<char>) -> Seq<char> {
    "src.hoyolab.auto_start."@ + module
}

pub open spec fn script_head() -> Seq<char> {
    "import argparse\nimport sys\nimport os\nproject_root = os.path.abspath(os.path.join(os.path.dirname(__file__), \"..\"))\n      \nsys.path.insert(0, project_root)\nimport "@
}

pub open spec fn script_middle() -> Seq<char> {
    " as task\n      \nargs = argparse.Namespace("@
}

pub open spec fn script_tail() -> Seq<char> {
    ")\n      \ndef main():\n     task.main(args)"@
}

/// The script that imports the task module and calls its `main` with the
/// keyword arguments.
pub open spec fn script_spec(module: Seq<char>, kwargs: Seq<(Seq<char>, Seq<char>)>) -> Seq<char> {
    script_head() + dotted_module_spec(module) + script_middle() + kwargs_text(kwargs)
        + script_tail()
}

/// The script imports the task module by its dotted path as `task`, builds
/// its arguments from every keyword argument, and calls the module's `main`
/// with them.
pub proof fn law_script_runs_module(module: Seq<char>, kwargs: Seq<(Seq<char>, Seq<char>)>)
    ensures
        exists|pre: Seq<char>, mid: Seq<char>|
            script_spec(module, kwargs) == pre + ("import src.hoyolab.auto_start."@ + module
                + " as task"@) + mid + ("args = argparse.Namespace("@ + kwargs_text(kwargs)
                + ")"@) + "\n      \ndef main():\n     task.main(args)"@,
{
    reveal_strlit("import argparse\nimport sys\nimport os\nproject_root = os.path.abspath(os.path.join(os.path.dirname(__file__), \"..\"))\n      \nsys.path.insert(0, project_root)\nimport ");
    reveal_strlit(" as task\n      \nargs = argparse.Namespace(");
    reveal_strlit(")\n      \ndef main():\n     task.main(args)");
    reveal_strlit("src.hoyolab.auto_start.");
    reveal_strlit("import src.hoyolab.auto_start.");
    reveal_strlit(" as task");
    reveal_strlit("args = argparse.Namespace(");
    reveal_strlit(")");
    reveal_strlit("\n      \ndef main():\n     task.main(args)");
    let head = script_head();
    let pre = head.take(head.len() - 7);
    let mid = seq!['\n', ' ', ' ', ' ', ' ', ' ', ' ', '\n'];
    assert(script_spec(module, kwargs) =~= pre + ("import src.hoyolab.auto_start."@ + module
        + " as task"@) + mid + ("args = argparse.Namespace("@ + kwargs_text(kwargs) + ")"@)
        + "\n      \ndef main():\n     task.main(args)"@);
}

/// The file name under which the script of a module is loaded.
pub fn script_file_name(module: &String) -> (res: String)
    ensures
        res@ == module@ + ".py"@,
{
    module.clone().concat(".py")
}

/// The dotted path of a task module: `src.hoyolab.auto_start.<module>`.
pub fn dotted_module(module: &String) -> (res: String)
    ensures
        res@ == dotted_module_spec(module@),
{
    String::from_str("src.hoyolab.auto_start.").concat(module.as_str())
}

/// The keyword arguments as Python source.
pub fn kwargs_source(kwargs: &Vec<(String, String)>) -> (res: String)
    ensures
        res@ == kwargs_text(pairs_view(kwargs@)),
{
    let ghost lines = pairs_view(kwargs@).map_values(|a: (Seq<char>, Seq<char>)| assignment(a));
    let mut res = String::new();
    let mut i: usize = 0;
    while i < kwargs.len()
        invariant
            i <= kwargs.len(),
            lines == pairs_view(kwargs@).map_values(|a: (Seq<char>, Seq<char>)| assignment(a)),
            res@ == join_lines(lines.take(i as int), ", "@),
        decreases kwargs.len() - i,
    {
        if i > 0 {
            res.append(", ");
        }
        res.append(kwargs[i].0.as_str());
        res.append("='");
        res.append(kwargs[i].1.as_str());
        res.append("'");
        assert(lines.take(i + 1).drop_last() =~= lines.take(i as int));
        assert(lines.take(i + 1).last() == assignment((kwargs@[i as int].0@, kwargs@[i as int].1@)));
        i = i + 1;
    }
    assert(lines.take(kwargs.len() as int) =~= lines);
    res
}

/// The Python source that runs a task module with the given keyword arguments.
pub fn python_script(module: &String, kwargs: &Vec<(String, String)>) -> (res: String)
    ensures
        res@ == script_spec(module@, pairs_view(kwargs@)),
{
    let mut code = String::from_str(
        "import argparse\nimport sys\nimport os\nproject_root = os.path.abspath(os.path.join(os.path.dirname(__file__), \"..\"))\n      \nsys.path.insert(0, project_root)\nimport ",
    );
    let path = dotted_module(module);
    code.append(path.as_str());
    code.append(" as task\n      \nargs = argparse.Namespace(");
    let args = kwargs_source(kwargs);
    code.append(args.as_str());
    code.append(")\n      \ndef main():\n     task.main(args)");
    code
}

// ---------------------------------------------------------------------------
// What a task module returns
// ---------------------------------------------------------------------------

/// A Python value as the task modules return it: lists and dicts are read
/// item by item; a dict key is held as the text it reads as, or as the error
/// met when reading it as text; any other value is held as its `repr`.
#[derive(Debug, PartialEq, Eq)]
pub enum PyValue {
    List(Vec<PyValue>),
    Dict(Vec<(Result<String, String>, PyValue)>),
    Str(String),
    Other(String),
}

/// The model of a Python value.
pub enum PyValueV {
    List(Seq<PyValueV>),
    Dict(Seq<(Result<Seq<char>, Seq<char>>, PyValueV)>),
    Str(Seq<char>),
    Other(Seq<char>),
}

pub open spec fn text_result_view(r: Result<String, String>) -> Result<Seq<char>, Seq<char>> {
    match r {
        Ok(s) => Ok(s@),
        Err(e) => Err(e@),
    }
}

pub open spec fn py_view(v: PyValue) -> PyValueV
    decreases v,
{
    match v {
        PyValue::List(items) => PyValueV::List(
            Seq::new(
                items.len() as nat,
                |i: int|
                    if 0 <= i < items.len() {
                        py_view(items@[i])
                    } else {
                        PyValueV::Other(Seq::empty())
                    },
            ),
        ),
        PyValue::Dict(entries) => PyValueV::Dict(
            Seq::new(
                entries.len() as nat,
                |i: int|
                    if 0 <= i < entries.len() {
                        (text_result_view(entries@[i].0), py_view(entries@[i].1))
                    } else {
                        (Err(Seq::empty()), PyValueV::Other(Seq::empty()))
                    },
            ),
        ),
        PyValue::Str(s) => PyValueV::Str(s@),
        PyValue::Other(r) => PyValueV::Other(r@),
    }
}

impl View for PyValue {
    type V = PyValueV;

    open spec fn view(&self) -> PyValueV {
        py_view(*self)
    }
}

/// The JSON that a Python value reads as: a list as a JSON list, a dict as a
/// JSON object (a later key replacing an earlier equal one where it stands),
/// a string as a JSON string, anything else as the JSON string of its `repr`.
/// The first key, in order, that cannot be read as text makes it fail.
pub open spec fn py_to_json(v: PyValueV) -> Result<JsonV, Seq<char>>
    decreases v,
{
    match v {
        PyValueV::List(items) => match py_list_to_json(items) {
            Ok(js) => Ok(JsonV::Array(js)),
            Err(e) => Err(e),
        },
        PyValueV::Dict(entries) => match py_dict_to_json(entries) {
            Ok(fields) => Ok(JsonV::Object(fields)),
            Err(e) => Err(e),
        },
        PyValueV::Str(s) => Ok(JsonV::Str(s)),
        PyValueV::Other(r) => Ok(JsonV::Str(r)),
    }
}

pub open spec fn py_list_to_json(items: Seq<PyValueV>) -> Result<Seq<JsonV>, Seq<char>>
    decreases items,
{
    if items.len() == 0 {
        Ok(Seq::empty())
    } else {
        match py_list_to_json(items.drop_last()) {
            Err(e) => Err(e),
            Ok(prev) => match py_to_json(items.last()) {
                Err(e) => Err(e),
                Ok(j) => Ok(prev.push(j)),
            },
        }
    }
}

pub open spec fn py_dict_to_json(entries: Seq<(Result<Seq<char>, Seq<char>>, PyValueV)>) -> Result<
    Seq<(Seq<char>, JsonV)>,
    Seq<char>,
>
    decreases entries,
{
    if entries.len() == 0 {
        Ok(Seq::empty())
    } else {
        match py_dict_to_json(entries.drop_last()) {
            Err(e) => Err(e),
            Ok(prev) => match entries.last().0 {
                Err(e) => Err(e),
                Ok(key) => match py_to_json(entries.last().1) {
                    Err(e) => Err(e),
                    Ok(j) => Ok(assoc_set(prev, key, j)),
                },
            },
        }
    }
}

pub open spec fn pys_view(items: Seq<PyValue>) -> Seq<PyValueV> {
    Seq::new(items.len() as nat, |i: int| py_view(items[i]))
}

pub open spec fn entries_view(entries: Seq<(Result<String, String>, PyValue)>) -> Seq<
    (Result<Seq<char>, Seq<char>>, PyValueV),
> {
    Seq::new(entries.len() as nat, |i: int| (text_result_view(entries[i].0), py_view(entries[i].1)))
}

pub open spec fn json_result_view(r: Result<Json, String>) -> Result<JsonV, Seq<char>> {
    match r {
        Ok(j) => Ok(j@),
        Err(e) => Err(e@),
    }
}

proof fn lemma_list_view(items: Vec<PyValue>)
    ensures
        py_view(PyValue::List(items)) == PyValueV::List(pys_view(items@)),
{
    assert(pys_view(items@) =~= match py_view(PyValue::List(items)) {
        PyValueV::List(a) => a,
        _ => Seq::empty(),
    });
}

proof fn lemma_dict_view(entries: Vec<(Result<String, String>, PyValue)>)
    ensures
        py_view(PyValue::Dict(entries)) == PyValueV::Dict(entries_view(entries@)),
{
    assert(entries_view(entries@) =~= match py_view(PyValue::Dict(entries)) {
        PyValueV::Dict(a) => a,
        _ => Seq::empty(),
    });
}

/// Once a prefix of a list fails, the whole list fails with the same error.
proof fn lemma_list_err_persists(items: Seq<PyValueV>, n: int, e: Seq<char>)
    requires
        0 <= n <= items.len(),
        py_list_to_json(items.take(n)) == Err::<Seq<JsonV>, Seq<char>>(e),
    ensures
        py_list_to_json(items) == Err::<Seq<JsonV>, Seq<char>>(e),
    decreases items.len() - n,
{
    if n < items.len() {
        assert(items.take(n + 1).drop_last() =~= items.take(n));
        lemma_list_err_persists(items, n + 1, e);
    } else {
        assert(items.take(n) =~= items);
    }
}

/// Once a prefix of a dict fails, the whole dict fails with the same error.
proof fn lemma_dict_err_persists(
    entries: Seq<(Result<Seq<char>, Seq<char>>, PyValueV)>,
    n: int,
    e: Seq<char>,
)
    requires
        0 <= n <= entries.len(),
        py_dict_to_json(entries.take(n)) == Err::<Seq<(Seq<char>, JsonV)>, Seq<char>>(e),
    ensures
        py_dict_to_json(entries) == Err::<Seq<(Seq<char>, JsonV)>, Seq<char>>(e),
    decreases entries.len() - n,
{
    if n < entries.len() {
        assert(entries.take(n + 1).drop_last() =~= entries.take(n));
        lemma_dict_err_persists(entries, n + 1, e);
    } else {
        assert(entries.take(n) =~= entries);
    }
}

/// Reads a value returned by a task module as JSON.
pub fn convert_to_json(obj: &PyValue) -> (res: Result<Json, String>)
    ensures
        json_result_view(res) == py_to_json(obj@),
    decreases obj,
{
    match obj {
        PyValue::List(items) => {
            proof {
                lemma_list_view(*items);
            }
            let ghost vs = pys_view(items@);
            let mut out: Vec<Json> = Vec::new();
            let mut i: usize = 0;
            assert(vs.take(0) =~= Seq::<PyValueV>::empty());
            assert(jsons_view(out@) =~= Seq::<JsonV>::empty());
            while i < items.len()
                invariant
                    i <= items.len(),
                    vs == pys_view(items@),
                    py_view(*obj) == PyValueV::List(vs),
                    *obj == PyValue::List(*items),
                    py_list_to_json(vs.take(i as int)) == Ok::<Seq<JsonV>, Seq<char>>(
                        jsons_view(out@),
                    ),
                decreases items.len() - i,
            {
                assert(vs.take(i + 1).drop_last() =~= vs.take(i as int));
                assert(vs.take(i + 1).last() == py_view(items@[i as int]));
                let ghost before = out@;
                assert(decreases_to!(*obj => items@[i as int]));
                match convert_to_json(&items[i]) {
                    Ok(j) => {
                        out.push(j);
                        assert(jsons_view(out@) =~= jsons_view(before).push(j@));
                    },
                    Err(e) => {
                        proof {
                            lemma_list_err_persists(vs, i + 1, e@);
                        }
                        return Err(e);
                    },
                }
                i = i + 1;
            }
            assert(vs.take(items.len() as int) =~= vs);
            proof {
                lemma_array_view(out);
            }
            Ok(Json::Array(out))
        },
        PyValue::Dict(entries) => {
            proof {
                lemma_dict_view(*entries);
            }
            let ghost es = entries_view(entries@);
            let mut fields: Vec<(String, Json)> = Vec::new();
            let mut i: usize = 0;
            assert(es.take(0) =~= Seq::<(Result<Seq<char>, Seq<char>>, PyValueV)>::empty());
            assert(fields_view(fields@) =~= Seq::<(Seq<char>, JsonV)>::empty());
            while i < entries.len()
                invariant
                    i <= entries.len(),
                    es == entries_view(entries@),
                    py_view(*obj) == PyValueV::Dict(es),
                    *obj == PyValue::Dict(*entries),
                    py_dict_to_json(es.take(i as int)) == Ok::<
                        Seq<(Seq<char>, JsonV)>,
                        Seq<char>,
                    >(fields_view(fields@)),
                decreases entries.len() - i,
            {
                assert(es.take(i + 1).drop_last() =~= es.take(i as int));
                assert(es.take(i + 1).last() == (
                    text_result_view(entries@[i as int].0),
                    py_view(entries@[i as int].1),
                ));
                match &entries[i].0 {
                    Err(e) => {
                        proof {
                            lemma_dict_err_persists(es, i + 1, e@);
                        }
                        return Err(e.clone());
                    },
                    Ok(k) => {
                        assert(decreases_to!(*obj => entries@[i as int].1));
                        match convert_to_json(&entries[i].1) {
                            Ok(j) => {
                                set_member(&mut fields, k.clone(), j);
                            },
                            Err(e) => {
                                proof {
                                    lemma_dict_err_persists(es, i + 1, e@);
                                }
                                return Err(e);
                            },
                        }
                    },
                }
                i = i + 1;
            }
            assert(es.take(entries.len() as int) =~= es);
            proof {
                lemma_object_view(fields);
            }
            Ok(Json::Object(fields))
        },
        PyValue::Str(s) => Ok(Json::Str(s.clone())),
        PyValue::Other(r) => Ok(Json::Str(r.clone())),
    }
}

// ---------------------------------------------------------------------------
// What the reading of a returned value keeps
// ---------------------------------------------------------------------------

proof fn lemma_list_items(items: Seq<PyValueV>)
    ensures
        py_list_to_json(items) matches Ok(a) ==> a.len() == items.len() && forall|i: int|
            0 <= i < items.len() ==> py_to_json(#[trigger] items[i]) == Ok::<JsonV, Seq<char>>(
                a[i],
            ),
        (forall|i: int| 0 <= i < items.len() ==> (#[trigger] py_to_json(items[i])) is Ok) ==> (
        py_list_to_json(items) is Ok),
    decreases items.len(),
{
    if items.len() > 0 {
        let init = items.drop_last();
        lemma_list_items(init);
        assert forall|i: int| 0 <= i < init.len() implies #[trigger] init[i] == items[i] by {}
        if py_list_to_json(items) is Ok {
            let prev = py_list_to_json(init)->Ok_0;
            let a = py_list_to_json(items)->Ok_0;
            assert(a == prev.push(py_to_json(items.last())->Ok_0));
            assert forall|i: int| 0 <= i < items.len() implies py_to_json(#[trigger] items[i])
                == Ok::<JsonV, Seq<char>>(a[i]) by {
                if i < init.len() {
                    assert(init[i] == items[i]);
                    assert(py_to_json(init[i]) == Ok::<JsonV, Seq<char>>(prev[i]));
                }
            }
        }
        if forall|i: int| 0 <= i < items.len() ==> (#[trigger] py_to_json(items[i])) is Ok {
            assert forall|i: int| 0 <= i < init.len() implies (#[trigger] py_to_json(
                init[i],
            )) is Ok by {
                assert(init[i] == items[i]);
            }
            assert(py_to_json(items[items.len() - 1]) is Ok);
        }
    }
}

/// A list reads as a list of the same length whose items are what the items
/// read as; it reads at all when every item does.
pub proof fn law_list_reads_item_by_item(items: Seq<PyValueV>)
    ensures
        py_to_json(PyValueV::List(items)) matches Ok(j) ==> j matches JsonV::Array(a) && a.len()
            == items.len() && forall|i: int|
            0 <= i < items.len() ==> py_to_json(#[trigger] items[i]) == Ok::<JsonV, Seq<char>>(
                a[i],
            ),
        (forall|i: int| 0 <= i < items.len() ==> (#[trigger] py_to_json(items[i])) is Ok) ==> (
        py_to_json(PyValueV::List(items)) is Ok),
{
    lemma_list_items(items);
}

proof fn lemma_dict_members(
    entries: Seq<(Result<Seq<char>, Seq<char>>, PyValueV)>,
    i: int,
    k: Seq<char>,
)
    requires
        py_dict_to_json(entries) is Ok,
        0 <= i < entries.len(),
        entries[i].0 == Ok::<Seq<char>, Seq<char>>(k),
        forall|j: int| i < j < entries.len() ==> (#[trigger] entries[j]).0 != Ok::<
            Seq<char>,
            Seq<char>,
        >(k),
    ensures
        py_to_json(entries[i].1) is Ok,
        lookup(py_dict_to_json(entries)->Ok_0, k) == Some(py_to_json(entries[i].1)->Ok_0),
    decreases entries.len(),
{
    let n = entries.len() - 1;
    let init = entries.drop_last();
    let prev = py_dict_to_json(init)->Ok_0;
    let key = entries[n].0->Ok_0;
    let j = py_to_json(entries[n].1)->Ok_0;
    assert(py_dict_to_json(entries)->Ok_0 == assoc_set(prev, key, j));
    if i == n {
        lemma_assoc_set(prev, key, j, key);
    } else {
        assert(key != k);
        assert forall|m: int| i < m < init.len() implies (#[trigger] init[m]).0 != Ok::<
            Seq<char>,
            Seq<char>,
        >(k) by {
            assert(init[m] == entries[m]);
        }
        assert(init[i] == entries[i]);
        lemma_dict_members(init, i, k);
        lemma_assoc_set(prev, key, j, k);
    }
}

proof fn lemma_dict_keys(entries: Seq<(Result<Seq<char>, Seq<char>>, PyValueV)>)
    ensures
        py_dict_to_json(entries) matches Ok(f) ==> {
            &&& distinct_keys(field_keys(f))
            &&& forall|m: int|
                0 <= m < f.len() ==> exists|i: int|
                    0 <= i < entries.len() && (#[trigger] entries[i]).0 == Ok::<
                        Seq<char>,
                        Seq<char>,
                    >((#[trigger] f[m]).0)
        },
        (forall|i: int|
            0 <= i < entries.len() ==> (#[trigger] entries[i]).0 is Ok && py_to_json(
                entries[i].1,
            ) is Ok) ==> py_dict_to_json(entries) is Ok,
    decreases entries.len(),
{
    if entries.len() > 0 {
        let n = entries.len() - 1;
        let init = entries.drop_last();
        lemma_dict_keys(init);
        assert forall|i: int| 0 <= i < init.len() implies #[trigger] init[i] == entries[i] by {}
        if py_dict_to_json(entries) is Ok {
            let prev = py_dict_to_json(init)->Ok_0;
            let key = entries[n].0->Ok_0;
            let j = py_to_json(entries[n].1)->Ok_0;
            let f = assoc_set(prev, key, j);
            lemma_assoc_set_distinct(prev, key, j);
            let keys = field_keys(prev);
            assert forall|m: int| 0 <= m < f.len() implies exists|i: int|
                0 <= i < entries.len() && (#[trigger] entries[i]).0 == Ok::<Seq<char>, Seq<char>>(
                    (#[trigger] f[m]).0,
                ) by {
                match first_index(keys, key) {
                    Some(x) => {
                        lemma_first_index_some(keys, key);
                        if m == x {
                            assert(entries[n].0 == Ok::<Seq<char>, Seq<char>>(f[m].0));
                        } else {
                            assert(f[m] == prev[m]);
                            let w = choose|w: int|
                                0 <= w < init.len() && (#[trigger] init[w]).0 == Ok::<
                                    Seq<char>,
                                    Seq<char>,
                                >((#[trigger] prev[m]).0);
                            assert(entries[w] == init[w]);
                        }
                    },
                    None => {
                        if m == prev.len() {
                            assert(entries[n].0 == Ok::<Seq<char>, Seq<char>>(f[m].0));
                        } else {
                            assert(f[m] == prev[m]);
                            let w = choose|w: int|
                                0 <= w < init.len() && (#[trigger] init[w]).0 == Ok::<
                                    Seq<char>,
                                    Seq<char>,
                                >((#[trigger] prev[m]).0);
                            assert(entries[w] == init[w]);
                        }
                    },
                }
            }
        }
        if forall|i: int|
            0 <= i < entries.len() ==> (#[trigger] entries[i]).0 is Ok && py_to_json(
                entries[i].1,
            ) is Ok {
            assert forall|i: int|
                0 <= i < init.len() implies (#[trigger] init[i]).0 is Ok && py_to_json(
                    init[i].1,
                ) is Ok by {
                assert(init[i] == entries[i]);
            }
            assert(entries[n].0 is Ok && py_to_json(entries[n].1) is Ok);
        }
    }
}

/// A dict reads as an object that has, for each key of the dict, the member
/// of that key holding what the key's last value reads as (whatever kind of
/// value it is); the object has no other member and no key twice. It reads at
/// all when every key is text and every value reads.
pub proof fn law_dict_reads_member_by_member(
    entries: Seq<(Result<Seq<char>, Seq<char>>, PyValueV)>,
    i: int,
    k: Seq<char>,
)
    ensures
        py_to_json(PyValueV::Dict(entries)) matches Ok(j) ==> j matches JsonV::Object(f) && {
            &&& distinct_keys(field_keys(f))
            &&& (forall|m: int|
                0 <= m < f.len() ==> exists|x: int|
                    0 <= x < entries.len() && (#[trigger] entries[x]).0 == Ok::<
                        Seq<char>,
                        Seq<char>,
                    >((#[trigger] f[m]).0))
            &&& (0 <= i < entries.len() && entries[i].0 == Ok::<Seq<char>, Seq<char>>(k) && (
            forall|x: int|
                i < x < entries.len() ==> (#[trigger] entries[x]).0 != Ok::<
                    Seq<char>,
                    Seq<char>,
                >(k))) ==> py_to_json(entries[i].1) is Ok && lookup(f, k) == Some(
                py_to_json(entries[i].1)->Ok_0,
            )
        },
        (forall|x: int|
            0 <= x < entries.len() ==> (#[trigger] entries[x]).0 is Ok && py_to_json(
                entries[x].1,
            ) is Ok) ==> py_to_json(PyValueV::Dict(entries)) is Ok,
{
    lemma_dict_keys(entries);
    if py_dict_to_json(entries) is Ok && 0 <= i < entries.len() && entries[i].0 == Ok::<
        Seq<char>,
        Seq<char>,
    >(k) && (forall|x: int|
        i < x < entries.len() ==> (#[trigger] entries[x]).0 != Ok::<Seq<char>, Seq<char>>(k)) {
        lemma_dict_members(entries, i, k);
    }
}

/// Text reads as itself, and any other value as the text of its `repr`.
pub proof fn law_scalars_read_as_text(s: Seq<char>)
    ensures
        py_to_json(PyValueV::Str(s)) == Ok::<JsonV, Seq<char>>(JsonV::Str(s)),
        py_to_json(PyValueV::Other(s)) == Ok::<JsonV, Seq<char>>(JsonV::Str(s)),
{
}

/// The reply to a call of a task module: `{"success": true, "output": ...}`
/// for what it returned, `{"success": false, "error": ...}` for the error met.
pub open spec fn envelope(outcome: Result<JsonV, Seq<char>>) -> Result<JsonV, JsonV> {
    match outcome {
        Ok(j) => Ok(JsonV::Object(seq![("success"@, JsonV::Bool(true)), ("output"@, j)])),
        Err(e) => Err(
            JsonV::Object(seq![("success"@, JsonV::Bool(false)), ("error"@, JsonV::Str(e))]),
        ),
    }
}

pub open spec fn reply_view(r: Result<Json, Json>) -> Result<JsonV, JsonV> {
    match r {
        Ok(j) => Ok(j@),
        Err(j) => Err(j@),
    }
}

/// The outcome of running a task module: what it returned, or the error met.
pub open spec fn run_view(run: Result<PyValue, String>) -> Result<JsonV, Seq<char>> {
    match run {
        Ok(v) => py_to_json(v@),
        Err(e) => Err(e@),
    }
}

/// The reply to a call of a task module, from what running it gave.
pub fn call_envelope(run: Result<PyValue, String>) -> (res: Result<Json, Json>)
    ensures
        reply_view(res) == envelope(run_view(run)),
{
    let outcome = match &run {
        Ok(v) => convert_to_json(v),
        Err(e) => Err(e.clone()),
    };
    let mut fields: Vec<(String, Json)> = Vec::new();
    match outcome {
        Ok(output) => {
            fields.push((String::from_str("success"), Json::Bool(true)));
            fields.push((String::from_str("output"), output));
            proof {
                lemma_object_view(fields);
                assert(fields_view(fields@) =~= seq![
                    ("success"@, JsonV::Bool(true)),
                    ("output"@, output@),
                ]);
            }
            Ok(Json::Object(fields))
        },
        Err(e) => {
            let ghost ev = e@;
            fields.push((String::from_str("success"), Json::Bool(false)));
            fields.push((String::from_str("error"), Json::Str(e)));
            proof {
                lemma_object_view(fields);
                assert(fields_view(fields@) =~= seq![
                    ("success"@, JsonV::Bool(false)),
                    ("error"@, JsonV::Str(ev)),
                ]);
            }
            Err(Json::Object(fields))
        },
    }
}

} // verus!
