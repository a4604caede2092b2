use clf::pattern::Re;
use clf::table::Table;
use clf::variables::Variables;
use clf::vars::{prefix_var, prefix_var_index, VarType, Vars};

const RE: &str = r"^([a-z\s]+) (\w+) (\w+) (?P<LASTNAME>\w+)";
const TEXT: &str = "my name is john fitzgerald kennedy, president of the USA";

fn sample_vars() -> Variables {
    let re = Re::new(RE).unwrap();
    let mut v = Variables::new();
    v.insert_captures(&re, TEXT);
    v
}

#[test]
fn variables_variables() {
    let v = sample_vars();

    assert_eq!(v.runtime_vars().get("CLF_CAPTURE0").unwrap(), "my name is john fitzgerald kennedy");
    assert_eq!(v.get("CLF_CAPTURE1").unwrap(), "my name is");
    assert_eq!(v.get("CLF_CAPTURE2").unwrap(), "john");
    assert_eq!(v.get("CLF_CAPTURE3").unwrap(), "fitzgerald");
    assert_eq!(v.get("CLF_LASTNAME").unwrap(), "kennedy");
}

#[test]
fn variables_replace() {
    let v = sample_vars();

    let args = &[
        "Hi, CLF_CAPTURE1",
        "(CLF_CAPTURE2 CLF_CAPTURE3) CLF_LASTNAME. I'm the president of the USA.",
    ];
    let new_args = v.substitute(args);

    assert_eq!(
        new_args,
        vec![
            "Hi, my name is".to_string(),
            "(john fitzgerald) kennedy. I'm the president of the USA.".to_string()
        ]
    );
}

#[test]
fn variables_retain() {
    let mut v = sample_vars();
    v.insert("LOGFILE", "/var/log/foo");
    v.insert("TAG", "tag1");

    v.retain(&["CLF_LOGFILE", "CLF_TAG"]);
    assert!(v.contains_key("CLF_LOGFILE"));
    assert!(v.contains_key("CLF_TAG"));
    assert!(!v.contains_key("CLF_CAPTURE2"));
    assert_eq!(v.runtime_vars().len(), 2);
}

#[test]
fn variables_insert_replaces_value() {
    let mut v = Variables::new();
    v.insert("TAG", "first");
    v.insert("TAG", "second");
    assert_eq!(v.get("CLF_TAG").unwrap(), "second");
    assert_eq!(v.runtime_vars().len(), 1);
    assert_eq!(v.replace("tag=CLF_TAG"), "tag=second");
    assert_eq!(v.replace("nothing"), "nothing");
}

#[test]
fn variables_uservars_and_checked_captures() {
    let mut user = Table::new();
    let _ = user.insert("city".to_string(), "Los Angeles".to_string());
    let mut v = Variables::default();
    v.insert_uservars(None);
    assert!(v.user_vars().is_none());
    v.insert_uservars(Some(&user));
    let u = v.user_vars().as_ref().unwrap();
    assert_eq!(u.get("CLF_city").unwrap(), "Los Angeles");

    let re = Re::new(r"x(?P<opt>y)?").unwrap();
    assert!(!v.insert_captures_checked(&re, "x"));
    assert!(v.insert_captures_checked(&re, "xy"));
    assert_eq!(v.get("CLF_opt").unwrap(), "y");
    assert!(!v.insert_captures_checked(&re, "nothing"));
}

#[test]
fn prefix() {
    assert_eq!(prefix_var("LOGFILE"), "CLF_LOGFILE");

    let tag = String::from("TAG");
    assert_eq!(prefix_var(&tag), "CLF_TAG");

    let i = 2;
    assert_eq!(prefix_var_index("CAPTURE", i), "CLF_CAPTURE2");
}

#[test]
fn vars_variables() {
    let re = Re::new(RE).unwrap();
    let mut vars = Vars::new();
    let n = vars.insert_captures(&re, TEXT);
    assert_eq!(n, 5);

    assert!(matches!(vars.get("CLF_CG_0").unwrap(), VarType::Str(x) if x == "my name is john fitzgerald kennedy"));
    assert!(matches!(vars.get("CLF_CG_1").unwrap(), VarType::Str(x) if x == "my name is"));
    assert!(matches!(vars.get("CLF_CG_2").unwrap(), VarType::Str(x) if x == "john"));
    assert!(matches!(vars.get("CLF_CG_3").unwrap(), VarType::Str(x) if x == "fitzgerald"));
    assert!(matches!(vars.get("CLF_CG_LASTNAME").unwrap(), VarType::Str(x) if x == "kennedy"));

    vars.insert_runtime_var("CLF_LOGFILE", VarType::Str("/var/log/foo".to_string()));
    vars.insert_runtime_var("CLF_TAG", VarType::Str("tag1".to_string()));

    assert!(vars.contains_key("CLF_LOGFILE"));
    assert!(vars.contains_key("CLF_TAG"));
    assert_eq!(vars.insert_captures_checked(&re, "NO MATCH"), None);
}

#[test]
fn vartype_to_string() {
    assert_eq!(VarType::<String>::Int(42).to_string(), "42");
    assert_eq!(VarType::Str("abc".to_string()).to_string(), "abc");
    assert_eq!(VarType::<String>::Str("x".to_string()).as_t(), "x");
}

#[test]
fn vars_to_string() {
    let mut vars = Vars::new();
    assert_eq!(vars.to_string(), "");
    vars.insert_runtime_var("CLF_VAR1", VarType::Str("this is a".to_string()));
    vars.insert_runtime_var("CLF_LINE_NUMBER", VarType::Int(12));
    vars.insert_runtime_var("CLF_VAR1", VarType::Str("a".to_string()));
    assert_eq!(vars.to_string(), "CLF_VAR1:aCLF_LINE_NUMBER:12");
}
