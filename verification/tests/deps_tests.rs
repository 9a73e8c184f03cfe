use mihub_lib::deps::{
    enable_site_import, installed_packages, installed_record, needs_install, parse_requirements, pip_bootstrap_args, pip_install_args,
    python_executable, requirements_well_formed,
};
use mihub_lib::text::replace_text;

fn s(text: &str) -> String {
    text.to_string()
}

fn pairs(items: &[(&str, &str)]) -> Vec<(String, String)> {
    items.iter().map(|(k, v)| (s(k), s(v))).collect()
}

#[test]
fn parse_simple_requirements() {
    let text = "requests==2.31.0\ngenshin==1.6.3\n";
    assert!(requirements_well_formed(text));
    assert_eq!(parse_requirements(text), pairs(&[("requests", "2.31.0"), ("genshin", "1.6.3")]));
}

#[test]
fn parse_requirements_skips_empty_lines() {
    let text = "\n\na==1\n\nb==2";
    assert_eq!(parse_requirements(text), pairs(&[("a", "1"), ("b", "2")]));
    assert_eq!(parse_requirements(""), vec![]);
}

#[test]
fn parse_requirements_later_duplicate_wins() {
    let text = "a==1\nb==2\na==3\n";
    assert_eq!(parse_requirements(text), pairs(&[("a", "3"), ("b", "2")]));
}

#[test]
fn parse_requirements_keeps_carriage_return_and_splits_on_first_pair() {
    assert_eq!(parse_requirements("pkg==1.0\r\n"), pairs(&[("pkg", "1.0\r")]));
    assert_eq!(parse_requirements("x==1==2"), pairs(&[("x", "1")]));
    assert_eq!(parse_requirements("y===3"), pairs(&[("y", "=3")]));
    assert_eq!(parse_requirements("z=="), pairs(&[("z", "")]));
}

#[test]
fn requirements_without_pair_are_not_well_formed() {
    assert!(!requirements_well_formed("requests>=2\n"));
    assert!(!requirements_well_formed("a==1\nb=2"));
    assert!(requirements_well_formed(""));
    assert!(requirements_well_formed("\n\n"));
}

#[test]
fn install_needed_when_missing_or_other_version() {
    let reqs = pairs(&[("a", "1"), ("b", "2")]);
    assert!(needs_install(&reqs, &pairs(&[("a", "1")])));
    assert!(needs_install(&reqs, &pairs(&[("a", "1"), ("b", "3")])));
    assert!(needs_install(&reqs, &vec![]));
}

#[test]
fn install_not_needed_when_current() {
    let reqs = pairs(&[("a", "1"), ("b", "2")]);
    assert!(!needs_install(&reqs, &pairs(&[("b", "2"), ("extra", "9"), ("a", "1")])));
    assert!(!needs_install(&vec![], &vec![]));
}

#[test]
fn installed_requirements_are_current_law_example() {
    let reqs = parse_requirements("a==1\nb==2\na==4\n");
    assert!(!needs_install(&reqs, &reqs));
}

#[test]
fn interpreter_choice() {
    assert_eq!(python_executable(true, &s("C:\\data\\Python311\\python.exe")), "C:\\data\\Python311\\python.exe");
    assert_eq!(python_executable(false, &s("C:\\data\\Python311\\python.exe")), "python3");
}

#[test]
fn pip_command_arguments() {
    assert_eq!(pip_bootstrap_args(&s("/tmp/get-pip.py")), vec![s("/tmp/get-pip.py"), s("--user"), s("--break-system-packages")]);
    assert_eq!(
        pip_install_args(&s("https://example.org/req.txt")),
        vec![s("-m"), s("pip"), s("install"), s("-r"), s("https://example.org/req.txt"), s("--user"), s("--break-system-packages")]
    );
}

#[test]
fn site_import_enabled() {
    let pth = "python311.zip\n.\n\n# Uncomment to run site.main() automatically\n#import site\n";
    assert_eq!(
        enable_site_import(pth),
        "python311.zip\n.\n\n# Uncomment to run site.main() automatically\nimport site\n"
    );
    assert_eq!(enable_site_import("#import site#import site"), "import siteimport site");
    assert_eq!(enable_site_import("nothing here"), "nothing here");
    assert_eq!(enable_site_import(""), "");
}

#[test]
fn replace_text_non_overlapping_left_to_right() {
    assert_eq!(replace_text("aaaa", "aa", "b"), "bb");
    assert_eq!(replace_text("aaa", "aa", "b"), "ba");
    assert_eq!(replace_text("héllo wörld", "ö", "o"), "héllo world");
}

fn sorted(mut v: Vec<(String, String)>) -> Vec<(String, String)> {
    v.sort();
    v
}

#[test]
fn installed_packages_read_from_record() {
    assert_eq!(
        sorted(installed_packages("{\"b\":\"2\",\"a\":\"1\"}")),
        pairs(&[("a", "1"), ("b", "2")])
    );
    assert_eq!(installed_packages("{\"a\":\"1\",\"a\":\"2\"}"), pairs(&[("a", "2")]));
    assert_eq!(installed_packages("{}"), vec![]);
}

#[test]
fn installed_packages_unreadable_record_is_empty() {
    assert_eq!(installed_packages(""), vec![]);
    assert_eq!(installed_packages("not json"), vec![]);
    assert_eq!(installed_packages("{\"a\":1}"), vec![]);
    assert_eq!(installed_packages("[\"a\"]"), vec![]);
}

#[test]
fn installed_record_is_json_object() {
    assert_eq!(installed_record(&pairs(&[("genshin", "1.6.3")])), "{\"genshin\":\"1.6.3\"}");
    assert_eq!(installed_record(&vec![]), "{}");
    assert_eq!(installed_record(&pairs(&[("q\"x", "v\\")])), "{\"q\\\"x\":\"v\\\\\"}");
}

#[test]
fn recorded_requirements_are_current_law_example() {
    let reqs = parse_requirements("requests==2.31.0\ngenshin==1.6.3\nrequests==2.32.0\n");
    let record = installed_record(&reqs);
    let installed = installed_packages(&record);
    assert_eq!(sorted(installed.clone()), sorted(reqs.clone()));
    assert!(!needs_install(&reqs, &installed));
}
