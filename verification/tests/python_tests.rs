use mihub_lib::json::Json;
use mihub_lib::python::{
    call_envelope, convert_to_json, dotted_module, kwargs_source, python_script, script_file_name,
    CheckinArgs, PromoCodeArgs, PyValue,
};

fn s(text: &str) -> String {
    text.to_string()
}

fn pairs(items: &[(&str, &str)]) -> Vec<(String, String)> {
    items.iter().map(|(k, v)| (s(k), s(v))).collect()
}

fn obj(fields: Vec<(&str, Json)>) -> Json {
    Json::Object(fields.into_iter().map(|(k, v)| (s(k), v)).collect())
}

#[test]
fn checkin_kwargs_only_game() {
    let args = CheckinArgs { game: s("genshin"), account: None, password: None, hoyolab_id: None, cookies: None };
    assert_eq!(args.python_kwargs(), pairs(&[("game", "genshin")]));
}

#[test]
fn checkin_kwargs_all_present_in_order() {
    let args = CheckinArgs {
        game: s("hsr"),
        account: Some(s("me@example.com")),
        password: Some(s("pw")),
        hoyolab_id: Some(s("42")),
        cookies: Some(s("c=1")),
    };
    assert_eq!(
        args.python_kwargs(),
        pairs(&[("game", "hsr"), ("account", "me@example.com"), ("password", "pw"), ("hoyolab-id", "42"), ("cookies", "c=1")])
    );
}

#[test]
fn checkin_kwargs_skip_absent() {
    let args = CheckinArgs { game: s("zzz"), account: None, password: None, hoyolab_id: Some(s("7")), cookies: None };
    assert_eq!(args.python_kwargs(), pairs(&[("game", "zzz"), ("hoyolab-id", "7")]));
}

#[test]
fn promo_kwargs_in_order() {
    let args = PromoCodeArgs {
        game: s("genshin"),
        account: None,
        password: None,
        hoyolab_id: None,
        cookies: Some(s("ck")),
        uid: Some(s("800")),
        code: Some(s("GIFT")),
    };
    assert_eq!(
        args.python_kwargs(),
        pairs(&[("game", "genshin"), ("cookies", "ck"), ("uid", "800"), ("code", "GIFT")])
    );
}

#[test]
fn kwargs_source_formats_assignments() {
    assert_eq!(kwargs_source(&pairs(&[("game", "hsr"), ("uid", "1")])), "game='hsr', uid='1'");
    assert_eq!(kwargs_source(&vec![]), "");
    assert_eq!(kwargs_source(&pairs(&[("a", "")])), "a=''");
}

#[test]
fn module_names() {
    assert_eq!(script_file_name(&s("daily_checkin")), "daily_checkin.py");
    assert_eq!(dotted_module(&s("promo_code_redeem")), "src.hoyolab.auto_start.promo_code_redeem");
}

#[test]
fn python_script_exact_text() {
    let code = python_script(&s("daily_checkin"), &pairs(&[("game", "genshin"), ("cookies", "x")]));
    let expected = "import argparse\nimport sys\nimport os\nproject_root = os.path.abspath(os.path.join(os.path.dirname(__file__), \"..\"))\n      \nsys.path.insert(0, project_root)\nimport src.hoyolab.auto_start.daily_checkin as task\n      \nargs = argparse.Namespace(game='genshin', cookies='x')\n      \ndef main():\n     task.main(args)";
    assert_eq!(code, expected);
}

#[test]
fn convert_scalars() {
    assert_eq!(convert_to_json(&PyValue::Str(s("ok"))), Ok(Json::Str(s("ok"))));
    assert_eq!(convert_to_json(&PyValue::Other(s("42"))), Ok(Json::Str(s("42"))));
    assert_eq!(convert_to_json(&PyValue::Other(s("None"))), Ok(Json::Str(s("None"))));
}

#[test]
fn convert_nested_list_and_dict() {
    let value = PyValue::List(vec![
        PyValue::Dict(vec![
            (Ok(s("game")), PyValue::Str(s("hsr"))),
            (Ok(s("reward")), PyValue::List(vec![PyValue::Other(s("3")), PyValue::Str(s("x"))])),
        ]),
        PyValue::Str(s("done")),
    ]);
    let expected = Json::Array(vec![
        obj(vec![
            ("game", Json::Str(s("hsr"))),
            ("reward", Json::Array(vec![Json::Str(s("3")), Json::Str(s("x"))])),
        ]),
        Json::Str(s("done")),
    ]);
    assert_eq!(convert_to_json(&value), Ok(expected));
}

#[test]
fn convert_dict_later_key_replaces_earlier() {
    let value = PyValue::Dict(vec![
        (Ok(s("a")), PyValue::Str(s("1"))),
        (Ok(s("b")), PyValue::Str(s("2"))),
        (Ok(s("a")), PyValue::Str(s("3"))),
    ]);
    assert_eq!(
        convert_to_json(&value),
        Ok(obj(vec![("a", Json::Str(s("3"))), ("b", Json::Str(s("2")))]))
    );
}

#[test]
fn convert_fails_on_first_unreadable_key() {
    let value = PyValue::List(vec![
        PyValue::Str(s("fine")),
        PyValue::Dict(vec![
            (Ok(s("k")), PyValue::Str(s("v"))),
            (Err(s("first error")), PyValue::Str(s("v"))),
            (Err(s("second error")), PyValue::Str(s("v"))),
        ]),
    ]);
    assert_eq!(convert_to_json(&value), Err(s("first error")));
}

#[test]
fn convert_empty_containers() {
    assert_eq!(convert_to_json(&PyValue::List(vec![])), Ok(Json::Array(vec![])));
    assert_eq!(convert_to_json(&PyValue::Dict(vec![])), Ok(Json::Object(vec![])));
}

#[test]
fn envelope_success() {
    let reply = call_envelope(Ok(PyValue::Str(s("checked in"))));
    assert_eq!(
        reply,
        Ok(obj(vec![("success", Json::Bool(true)), ("output", Json::Str(s("checked in")))]))
    );
}

#[test]
fn envelope_run_error() {
    let reply = call_envelope(Err(s("ModuleNotFoundError: No module named 'x'")));
    assert_eq!(
        reply,
        Err(obj(vec![
            ("success", Json::Bool(false)),
            ("error", Json::Str(s("ModuleNotFoundError: No module named 'x'"))),
        ]))
    );
}

#[test]
fn envelope_conversion_error() {
    let reply = call_envelope(Ok(PyValue::Dict(vec![(Err(s("TypeError: bad key")), PyValue::Str(s("v")))])));
    assert_eq!(
        reply,
        Err(obj(vec![("success", Json::Bool(false)), ("error", Json::Str(s("TypeError: bad key")))]))
    );
}
