use cmdstan::argtree::{
    chain_files_of, diagnostic_files_of, num_threads_or, path_files_of, rsplit_file_at_dot, Data,
    Output, Random,
};
use cmdstan::translate::Translate;








fn three_chains(file: &str) -> Vec<String> {
    chain_files_of(file, 2, 3)
}

#[test]
fn files() {
    assert_eq!(three_chains("post"), vec!["post_2.csv", "post_3.csv", "post_4.csv"]);
    assert_eq!(three_chains("checks"), vec!["checks_2.csv", "checks_3.csv", "checks_4.csv"]);
    assert_eq!(
        three_chains("world.hello"),
        vec!["world_2.hello", "world_3.hello", "world_4.hello"]
    );
    assert_eq!(
        three_chains("goodbye.world"),
        vec!["goodbye_2.world", "goodbye_3.world", "goodbye_4.world"]
    );
    assert_eq!(three_chains("a.b.c"), vec!["a.b_2.c", "a.b_3.c", "a.b_4.c"]);
    assert_eq!(three_chains("a...,"), vec!["a.._2.,", "a.._3.,", "a.._4.,"]);
    assert_eq!(three_chains("...xyz"), vec![".._2.xyz", ".._3.xyz", ".._4.xyz"]);
    assert_eq!(three_chains("abc..."), vec!["abc.._2.", "abc.._3.", "abc.._4."]);
    assert_eq!(three_chains("foo."), vec!["foo_2.", "foo_3.", "foo_4."]);
    assert_eq!(three_chains("foo.."), vec!["foo._2.", "foo._3.", "foo._4."]);
    assert_eq!(three_chains(",,"), vec![",,_2.csv", ",,_3.csv", ",,_4.csv"]);
    assert_eq!(three_chains(","), vec![",_2.csv", ",_3.csv", ",_4.csv"]);
    assert_eq!(three_chains(".xyz"), vec!["_2.xyz", "_3.xyz", "_4.xyz"]);
    assert_eq!(three_chains(".txt"), vec!["_2.txt", "_3.txt", "_4.txt"]);
    assert_eq!(three_chains("."), vec!["_2.", "_3.", "_4."]);
    assert_eq!(three_chains(".."), vec!["._2.", "._3.", "._4."]);
    assert_eq!(three_chains("..."), vec![".._2.", ".._3.", ".._4."]);
    assert_eq!(three_chains("foo/.bar"), vec!["foo/_2.bar", "foo/_3.bar", "foo/_4.bar"]);
    assert_eq!(
        three_chains("foo/bar/"),
        vec!["foo/bar/_2.csv", "foo/bar/_3.csv", "foo/bar/_4.csv"]
    );
    assert_eq!(
        three_chains("foo/bar/."),
        vec!["foo/bar/_2.", "foo/bar/_3.", "foo/bar/_4."]
    );
    assert_eq!(
        three_chains("foo/bar/.."),
        vec!["foo/bar/._2.", "foo/bar/._3.", "foo/bar/._4."]
    );
    assert_eq!(
        three_chains("foo/bar/..."),
        vec!["foo/bar/.._2.", "foo/bar/.._3.", "foo/bar/.._4."]
    );
    assert_eq!(
        three_chains("foo/bar.baz."),
        vec!["foo/bar.baz_2.", "foo/bar.baz_3.", "foo/bar.baz_4."]
    );
    assert_eq!(
        three_chains("foo/bar/baz."),
        vec!["foo/bar/baz_2.", "foo/bar/baz_3.", "foo/bar/baz_4."]
    );
}

#[test]
fn single_chain_keeps_one_file() {
    assert_eq!(chain_files_of("post", 2, 1), vec!["post.csv"]);
    assert_eq!(chain_files_of("a.b", 7, 1), vec!["a.b"]);
    assert!(chain_files_of("a.b", 7, 0).is_empty());
}

#[test]
fn split_at_last_dot() {
    assert_eq!(
        rsplit_file_at_dot("a.b.c"),
        ("a.b".to_string(), "c".to_string())
    );
    assert_eq!(
        rsplit_file_at_dot("abc"),
        ("abc".to_string(), "csv".to_string())
    );
}

#[test]
fn pathfinder_files() {
    assert_eq!(
        path_files_of("output.csv", 1, 2, true),
        vec![
            "output_path_1.csv",
            "output_path_1.json",
            "output_path_2.csv",
            "output_path_2.json"
        ]
    );
    assert_eq!(
        path_files_of("output.csv", 1, 1, true),
        vec!["output.csv", "output.json"]
    );
    assert!(path_files_of("output.csv", 1, 4, false).is_empty());
}

#[test]
fn argtree_default() {
    {
        let x = Random::default();
        assert_eq!(x.seed, -1_i64);
    }
    {
        let x = Data::default();
        assert_eq!(x.file, "");
    }
    {
        let x = Output::default();
        assert_eq!(
            x,
            Output {
                file: "output.csv".into(),
                diagnostic_file: "".into(),
                refresh: 100,
                sig_figs: -1,
                profile_file: "profile.csv".into(),
            }
        );
    }
}

#[test]
fn argtree_to_args() {
    {
        let mut x = Data::default();
        assert_eq!(x.to_args(), vec!["data", "file="]);

        x.file.push_str("bernoulli.data.json");
        assert_eq!(x.to_args(), vec!["data", "file=bernoulli.data.json"]);
    }
    {
        let x = Random::default();
        assert_eq!(x.to_args(), vec!["random", "seed=-1"]);
    }
    {
        let mut x = Output::default();
        assert_eq!(
            x.to_args(),
            vec![
                "output",
                "file=output.csv",
                "diagnostic_file=",
                "refresh=100",
                "sig_figs=-1",
                "profile_file=profile.csv"
            ]
        );

        x.diagnostic_file.push_str("my_file.txt");
        assert_eq!(
            x.to_args(),
            vec![
                "output",
                "file=output.csv",
                "diagnostic_file=my_file.txt",
                "refresh=100",
                "sig_figs=-1",
                "profile_file=profile.csv",
            ]
        );

        x.profile_file = "my_other_file.txt".into();
        assert_eq!(
            x.to_args(),
            vec![
                "output",
                "file=output.csv",
                "diagnostic_file=my_file.txt",
                "refresh=100",
                "sig_figs=-1",
                "profile_file=my_other_file.txt",
            ]
        );
    }
}

#[test]
fn argtree_builder() {
    {
        let x = Output::builder()
            .file("hello.csv")
            .diagnostic_file("world.txt")
            .refresh(1)
            .sig_figs(18)
            .profile_file("foo.txt")
            .build();
        assert_eq!(
            x,
            Output {
                file: "hello.csv".into(),
                diagnostic_file: "world.txt".into(),
                refresh: 1,
                sig_figs: 18,
                profile_file: "foo.txt".into(),
            }
        );
    }
}

#[test]
fn num_threads_from_environment() {
    assert_eq!(num_threads_or(Some(8), Some("4")), 8);
    assert_eq!(num_threads_or(Some(-1), None), -1);
    assert_eq!(num_threads_or(None, None), 1);
    assert_eq!(num_threads_or(None, Some("4")), 4);
    assert_eq!(num_threads_or(None, Some("+12")), 12);
    assert_eq!(num_threads_or(None, Some("-1")), -1);
    assert_eq!(num_threads_or(None, Some("")), 1);
    assert_eq!(num_threads_or(None, Some("four")), 1);
    assert_eq!(num_threads_or(None, Some(" 4")), 1);
    assert_eq!(num_threads_or(None, Some("2147483647")), 2147483647);
    assert_eq!(num_threads_or(None, Some("2147483648")), 1);
    assert_eq!(num_threads_or(None, Some("-2147483648")), -2147483648);
}

#[test]
fn diagnostic_files_only_when_named() {
    assert!(diagnostic_files_of("", 2, 3).is_empty());
    assert!(diagnostic_files_of("", i32::MAX, 3).is_empty());
    assert_eq!(diagnostic_files_of("checks", 2, 3), vec!["checks_2.csv", "checks_3.csv", "checks_4.csv"]);
    assert_eq!(diagnostic_files_of("checks.txt", 2, 1), vec!["checks.txt"]);
}
