use mihub_lib::json::Json;
use mihub_lib::store::{fresh_document, run_report, save_entry, scheduled_tasks, TaskKind};

fn s(text: &str) -> String {
    text.to_string()
}

fn obj(fields: Vec<(&str, Json)>) -> Json {
    Json::Object(fields.into_iter().map(|(k, v)| (s(k), v)).collect())
}

fn text(t: &str) -> Json {
    Json::Str(s(t))
}

#[test]
fn fresh_document_has_empty_script_list() {
    assert_eq!(fresh_document(), obj(vec![("scripts", Json::Array(vec![]))]));
}

#[test]
fn save_into_unreadable_document_starts_fresh() {
    let doc = save_entry(None, &s("daily_checkin"), text("first"));
    assert_eq!(
        doc,
        obj(vec![("scripts", obj(vec![("daily_checkin", Json::Array(vec![text("first")]))]))])
    );
}

#[test]
fn save_into_null_document() {
    let doc = save_entry(Some(Json::Null), &s("redeem_promo_code"), Json::Bool(true));
    assert_eq!(
        doc,
        obj(vec![("scripts", obj(vec![("redeem_promo_code", Json::Array(vec![Json::Bool(true)]))]))])
    );
}

#[test]
fn save_appends_to_existing_list_and_keeps_other_members() {
    let existing = obj(vec![
        ("version", Json::Number(s("2"))),
        (
            "scripts",
            obj(vec![
                ("redeem_promo_code", Json::Array(vec![text("r1")])),
                ("daily_checkin", Json::Array(vec![text("a")])),
            ]),
        ),
        ("theme", text("dark")),
    ]);
    let doc = save_entry(Some(existing), &s("daily_checkin"), text("b"));
    assert_eq!(
        doc,
        obj(vec![
            ("version", Json::Number(s("2"))),
            (
                "scripts",
                obj(vec![
                    ("redeem_promo_code", Json::Array(vec![text("r1")])),
                    ("daily_checkin", Json::Array(vec![text("a"), text("b")])),
                ]),
            ),
            ("theme", text("dark")),
        ])
    );
}

#[test]
fn save_replaces_scripts_that_is_not_an_object() {
    let existing = obj(vec![("scripts", Json::Array(vec![text("old")])), ("x", Json::Null)]);
    let doc = save_entry(Some(existing), &s("daily_checkin"), text("new"));
    assert_eq!(
        doc,
        obj(vec![
            ("scripts", obj(vec![("daily_checkin", Json::Array(vec![text("new")]))])),
            ("x", Json::Null),
        ])
    );
}

#[test]
fn save_replaces_section_that_is_not_a_list() {
    let existing = obj(vec![("scripts", obj(vec![("daily_checkin", text("oops")), ("other", Json::Null)]))]);
    let doc = save_entry(Some(existing), &s("daily_checkin"), text("new"));
    assert_eq!(
        doc,
        obj(vec![(
            "scripts",
            obj(vec![("daily_checkin", Json::Array(vec![text("new")])), ("other", Json::Null)])
        )])
    );
}

#[test]
fn saved_entry_is_scheduled_law_example() {
    let existing = obj(vec![("scripts", obj(vec![("daily_checkin", Json::Array(vec![text("a")]))]))]);
    let doc = save_entry(Some(existing), &s("daily_checkin"), text("b"));
    let tasks = scheduled_tasks(&doc, TaskKind::DailyCheckin).unwrap();
    assert_eq!(tasks, &vec![text("a"), text("b")]);
    assert_eq!(
        scheduled_tasks(&doc, TaskKind::CodeRedeem),
        Err(s("No promo_code_redeem tasks found"))
    );
}

#[test]
fn scheduled_tasks_missing_messages() {
    let doc = fresh_document();
    assert_eq!(scheduled_tasks(&doc, TaskKind::DailyCheckin), Err(s("No daily_checkin tasks found")));
    assert_eq!(scheduled_tasks(&Json::Null, TaskKind::CodeRedeem), Err(s("No promo_code_redeem tasks found")));
    let not_list = obj(vec![("scripts", obj(vec![("daily_checkin", obj(vec![]))]))]);
    assert_eq!(scheduled_tasks(&not_list, TaskKind::DailyCheckin), Err(s("No daily_checkin tasks found")));
}

#[test]
fn scheduled_tasks_reads_promo_code_section() {
    let doc = obj(vec![(
        "scripts",
        obj(vec![("redeem_promo_code", Json::Array(vec![text("x"), text("y")]))]),
    )]);
    assert_eq!(scheduled_tasks(&doc, TaskKind::CodeRedeem).unwrap(), &vec![text("x"), text("y")]);
    assert!(scheduled_tasks(&doc, TaskKind::DailyCheckin).is_err());
}

#[test]
fn task_kind_names() {
    assert_eq!(TaskKind::DailyCheckin.section(), "daily_checkin");
    assert_eq!(TaskKind::CodeRedeem.section(), "redeem_promo_code");
    assert_eq!(TaskKind::DailyCheckin.module(), "daily_checkin");
    assert_eq!(TaskKind::CodeRedeem.module(), "promo_code_redeem");
    assert_eq!(TaskKind::DailyCheckin.missing_message(), "No daily_checkin tasks found");
    assert_eq!(
        TaskKind::DailyCheckin.parse_failure(&s("missing field `game`")),
        "Failed to parse checkin data: missing field `game`"
    );
    assert_eq!(
        TaskKind::CodeRedeem.parse_failure(&s("bad")),
        "Failed to parse code redeem data: bad"
    );
}

#[test]
fn run_report_joins_lines_and_marks_errors() {
    let outcomes = vec![Ok(s("one")), Err(s("boom")), Ok(s("three"))];
    assert_eq!(run_report(&outcomes), "one\nError: boom\nthree");
}

#[test]
fn run_report_edge_cases() {
    assert_eq!(run_report(&vec![]), "");
    assert_eq!(run_report(&vec![Err(s(""))]), "Error: ");
    assert_eq!(run_report(&vec![Ok(s("only"))]), "only");
}
