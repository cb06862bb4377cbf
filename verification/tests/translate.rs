use cmdstan::translate::Arg;

fn level2() -> Arg {
    Arg::declared("level2", vec![Arg::integer("g", 5), Arg::integer("h", 6)])
}

fn level1() -> Arg {
    Arg::declared(
        "level1",
        vec![Arg::integer("d", 4), Arg::text("e", "foo"), level2()],
    )
}

fn level0() -> Arg {
    Arg::undeclared(vec![Arg::integer("a", 1), level1(), Arg::text("b", "2")])
}

#[test]
fn translate_to_stmt() {
    assert_eq!(level2().to_stmt(), "level2 g=5 h=6");
    assert_eq!(level1().to_stmt(), "level1 d=4 e=foo level2 g=5 h=6");
    assert_eq!(level0().to_stmt(), "a=1 level1 d=4 e=foo level2 g=5 h=6 b=2");
}

#[test]
fn to_tree() {
    let rhs = "\
level2
  g = 5
  h = 6";
    assert_eq!(level2().to_tree(), rhs);

    let rhs = "\
level1
  d = 4
  e = foo
  level2
    g = 5
    h = 6";
    assert_eq!(level1().to_tree(), rhs);

    let rhs = "\
a = 1
level1
  d = 4
  e = foo
  level2
    g = 5
    h = 6
b = 2";
    assert_eq!(level0().to_tree(), rhs);
}

#[test]
fn args_join_to_stmt() {
    for a in [level0(), level1(), level2()] {
        assert_eq!(a.to_args().join(" "), a.to_stmt());
    }
}

#[test]
fn choice_forms() {
    let a = Arg::choice("engine", "nuts", vec![Arg::integer("max_depth", 10)]);
    assert_eq!(a.to_stmt(), "engine=nuts max_depth=10");
    assert_eq!(a.to_tree(), "engine = nuts\n  nuts\n    max_depth = 10");
    assert_eq!(a.to_args(), vec!["engine=nuts", "max_depth=10"]);
    let f = Arg::flag("engaged", false);
    assert_eq!(f.to_stmt(), "engaged=0");
}

#[test]
fn tree_at_offset_is_indented_tree() {
    let choice = Arg::choice("algorithm", "hmc", vec![Arg::integer("max_depth", 10), level2()]);
    for a in [level2(), level1(), level0(), choice] {
        let base = a.to_tree();
        for n in [0usize, 1, 2, 5] {
            let mut s = String::from("kept\n");
            a.write_tree_offset(n, &mut s);
            let pad = " ".repeat(n);
            let indented: Vec<String> = base.split('\n').map(|l| format!("{pad}{l}")).collect();
            assert_eq!(s, format!("kept\n{}", indented.join("\n")));
        }
    }
}

#[test]
fn declared_group_without_options() {
    let empty = Arg::declared("empty", vec![]);
    assert_eq!(empty.to_stmt(), "empty ");
    assert_eq!(empty.to_tree(), "empty\n");
    assert_eq!(empty.to_args(), vec!["empty"]);
    let outer = Arg::undeclared(vec![Arg::declared("empty", vec![]), Arg::integer("b", 1)]);
    assert_eq!(outer.to_stmt(), "empty  b=1");
    assert_eq!(outer.to_tree(), "empty\n\nb = 1");
    let nested = Arg::declared("outer", vec![Arg::declared("inner", vec![])]);
    assert_eq!(nested.to_tree(), "outer\n  inner\n");
    assert_eq!(nested.to_stmt(), "outer inner ");
    assert!(Arg::undeclared(vec![]).to_stmt().is_empty());
    assert!(Arg::undeclared(vec![]).to_tree().is_empty());
}
