use boson::env::{EnvVars, ProcessEnv};

fn s(text: &str) -> String {
    text.to_string()
}

#[test]
fn table_holds_one_value_per_name() {
    let mut table = EnvVars::new();
    assert!(table.is_empty());
    assert_eq!(table.len(), 0);
    assert_eq!(table.get("A"), None);
    table.insert(s("A"), s("1"));
    table.insert(s("B"), s("2"));
    table.insert(s("A"), s("3"));
    assert!(!table.is_empty());
    assert_eq!(table.len(), 2);
    assert_eq!(table.get("A"), Some(s("3")));
    assert_eq!(table.get("B"), Some(s("2")));
    assert!(table.contains_key("A"));
    assert!(!table.contains_key("a"));
    assert_eq!(table.entries(), vec![(s("A"), s("3")), (s("B"), s("2"))]);
}

#[test]
fn table_from_pairs_lets_later_pairs_win() {
    let table = EnvVars::from_pairs(vec![(s("K"), s("1")), (s("L"), s("x")), (s("K"), s("2"))]);
    assert_eq!(table.len(), 2);
    assert_eq!(table.get("K"), Some(s("2")));
    assert_eq!(table.get("L"), Some(s("x")));
    assert!(EnvVars::default().is_empty());
}

#[test]
fn extending_a_table_overwrites_shared_names() {
    let mut base = EnvVars::from_pairs(vec![(s("A"), s("1")), (s("B"), s("2"))]);
    let more = EnvVars::from_pairs(vec![(s("B"), s("20")), (s("C"), s("30"))]);
    base.extend(&more);
    assert_eq!(base.entries(), vec![(s("A"), s("1")), (s("B"), s("20")), (s("C"), s("30"))]);
    let copy = base.clone();
    assert_eq!(copy.entries(), base.entries());
}

#[test]
fn process_environment_lookup() {
    let env = ProcessEnv::new(s("/home/u"), EnvVars::from_pairs(vec![(s("X"), s(""))]));
    assert_eq!(env.var("X"), Some(s("")));
    assert_eq!(env.var("Y"), None);
    assert_eq!(env.home, "/home/u");
}

#[test]
fn expansion_of_texts_and_tables() {
    let env = ProcessEnv::new(
        s("/home/u"),
        EnvVars::from_pairs(vec![(s("A"), s("1")), (s("B"), s("~"))]),
    );
    assert_eq!(env.expand("~/x/$A/${A}b/$C/$B"), "/home/u/x/1/1b/$C/~");
    assert_eq!(env.expand("$B/x"), "~/x");
    assert_eq!(env.expand("plain"), "plain");
    assert_eq!(env.expand("~user/x"), "~user/x");
    assert_eq!(env.expand("${C:-fallback}"), "fallback");
    assert_eq!(env.expand(""), "");
    assert_eq!(
        env.expand_all(&vec![s("$A"), s("~"), s("x")]),
        vec![s("1"), s("/home/u"), s("x")]
    );
    let table = EnvVars::from_pairs(vec![(s("P"), s("$A:$A")), (s("$A"), s("~/q"))]);
    assert_eq!(
        env.expand_table(&table).entries(),
        vec![(s("P"), s("1:1")), (s("$A"), s("/home/u/q"))]
    );
    let homeless = ProcessEnv::new(s(""), EnvVars::new());
    assert_eq!(homeless.expand("~/x"), "/x");
}
