use cmdstan::commands::read_command_line;
use cmdstan::program::has_stan_extension;
use cmdstan::argument_tree::{csv_prefix_of, output_files_of};
use cmdstan::control::{cmdstan_works_from, executable_works_from, Control, StanSummaryOptions};
use cmdstan::error::{appears_ok, str_contains, ErrorKind, Platform};
use cmdstan::header::{info_pairs, is_clean_all, theta_columns_of, trim_str, HeaderScan};
use cmdstan::stansummary::summary_args;

#[test]
fn control_command_fragment() {
    let x = StanSummaryOptions {
        autocorr: None,
        csv_filename: Some("stansummary.csv".to_string()),
        percentiles: Some(vec![5, 25, 50, 75, 95]),
        sig_figs: Some(6),
    };
    assert_eq!(
        x.command_fragment(),
        "--csv_filename stansummary.csv --percentiles 5,25,50,75,95 --sig_figs 6"
    );

    let x = StanSummaryOptions {
        autocorr: Some(1),
        csv_filename: None,
        percentiles: Some(vec![50, 75]),
        sig_figs: None,
    };
    assert_eq!(x.command_fragment(), "--autocorr 1 --percentiles 50,75");

    let x = StanSummaryOptions {
        autocorr: Some(1),
        csv_filename: Some("hello.csv".to_string()),
        percentiles: Some(vec![50]),
        sig_figs: None,
    };
    assert_eq!(
        x.command_fragment(),
        "--autocorr 1 --csv_filename hello.csv --percentiles 50"
    );

    let x = StanSummaryOptions {
        autocorr: None,
        csv_filename: Some("hello.csv".to_string()),
        percentiles: Some(vec![50]),
        sig_figs: Some(3),
    };
    assert_eq!(
        x.command_fragment(),
        "--csv_filename hello.csv --percentiles 50 --sig_figs 3"
    );
}

#[test]
fn empty_summary_options() {
    assert_eq!(StanSummaryOptions::new().command_fragment(), "");
}

fn texts(v: &[&str]) -> Vec<String> {
    v.iter().map(|s| s.to_string()).collect()
}

#[test]
fn stansummary_command_fragment() {
    assert_eq!(
        summary_args(None, Some("stansummary.csv"), &texts(&["5", "25", "50", "75", "95"]), 6),
        vec![
            "--csv_filename=stansummary.csv",
            "--percentiles=5,25,50,75,95",
            "--sig_figs=6",
        ]
    );
    assert_eq!(
        summary_args(Some(1), None, &texts(&["50", "75"]), 2),
        vec!["--autocorr=1", "--percentiles=50,75", "--sig_figs=2"]
    );
    assert_eq!(
        summary_args(Some(1), Some("hello.csv"), &texts(&["50"]), 4),
        vec![
            "--autocorr=1",
            "--csv_filename=hello.csv",
            "--percentiles=50",
            "--sig_figs=4"
        ]
    );
    assert_eq!(
        summary_args(None, Some("hello.csv"), &texts(&["50"]), 3),
        vec!["--csv_filename=hello.csv", "--percentiles=50", "--sig_figs=3"]
    );
}

#[test]
fn control_paths() {
    let c = Control::new("/opt/cmdstan", "/tmp/bernoulli");
    assert_eq!(c.cmdstan(), "/opt/cmdstan");
    assert_eq!(c.model(), "/tmp/bernoulli");
}

#[test]
fn tool_output_checks() {
    assert!(executable_works_from(
        "Usage: bernoulli <arg1> ...\n  Bayesian inference with Markov Chain Monte Carlo\n"
    ));
    assert!(!executable_works_from("Segmentation fault"));
    assert!(cmdstan_works_from("--- CmdStan v2.33 ---\nBuild a Stan program\n"));
    assert!(!cmdstan_works_from("make: *** No targets specified"));
}

#[test]
fn substring_search() {
    assert!(str_contains("abcabd", "abd"));
    assert!(str_contains("abc", ""));
    assert!(str_contains("", ""));
    assert!(!str_contains("ab", "abc"));
    assert!(!str_contains("abcabc", "cab "));
}

#[test]
fn error_kinds() {
    assert_eq!(ErrorKind::Make.as_str(Platform::Unix), "make");
    assert_eq!(ErrorKind::StanC.as_str(Platform::Unix), "bin/stanc");
    assert_eq!(ErrorKind::Make.as_str(Platform::Windows), "mingw32-make");
    assert_eq!(ErrorKind::Compilation.as_str(Platform::Windows), "mingw32-make");
    assert_eq!(ErrorKind::StanC.as_str(Platform::Windows), "bin/stanc.exe");
    assert_eq!(ErrorKind::Bernoulli.as_str(Platform::Windows), "examples/bernoulli/bernoulli.exe");
    assert_eq!(ErrorKind::Diagnose.as_str(Platform::Unix), "bin/diagnose");
    assert_eq!(ErrorKind::StanSummary.as_str(Platform::Windows), "bin/stansummary.exe");
    assert_eq!(ErrorKind::ModelFile.as_str(Platform::Windows), "model file");
    assert_eq!(ErrorKind::StanSummary.needle(), "stansummary [OPTIONS]");
    assert!(appears_ok(ErrorKind::StanC, true, "Usage: stanc [option] filename"));
    assert!(!appears_ok(ErrorKind::StanC, false, "Usage: stanc [option] filename"));
    assert!(!appears_ok(ErrorKind::Diagnose, true, "nothing"));
    assert!(appears_ok(ErrorKind::Install, true, ""));
}

#[test]
fn run_output_files() {
    assert_eq!(output_files_of("output.csv", 1, None), vec!["output.csv"]);
    assert_eq!(
        output_files_of("hello.csv", 2, Some(3)),
        vec!["hello_2.csv", "hello_3.csv", "hello_4.csv"]
    );
    assert_eq!(output_files_of("hello.csv", 2, Some(1)), vec!["hello.csv"]);
    assert_eq!(output_files_of("out", 1, None), vec!["out.csv"]);
    assert_eq!(csv_prefix_of("a.csv.b.csv.c"), "a.csv.b");
    assert_eq!(csv_prefix_of("plain"), "plain");
}

#[test]
fn clean_all_detection() {
    assert!(is_clean_all("clean-all"));
    assert!(is_clean_all("  clean-all\t"));
    assert!(!is_clean_all("clean"));
    assert!(!is_clean_all("clean-all-the-things"));
    assert_eq!(trim_str("\u{3000} a b \n"), "a b");
}

#[test]
fn model_info() {
    let text = "stan_version_major = 2\nstan_version_minor=33\r\nno equals here\n  STAN_THREADS = false  \n";
    let pairs = info_pairs(text);
    assert_eq!(
        pairs,
        vec![
            ("stan_version_major".to_string(), "2".to_string()),
            ("stan_version_minor".to_string(), "33".to_string()),
            ("STAN_THREADS".to_string(), "false".to_string()),
        ]
    );
    assert!(info_pairs("").is_empty());
}

fn scan(lines: &[&str]) -> String {
    let mut h = HeaderScan::new();
    let mut it = lines.iter();
    while h.wants_more() {
        match it.next() {
            Some(l) => h.feed(Some(l)),
            None => h.feed(None),
        }
    }
    h.statement()
}

#[test]
fn csv_header_statement() {
    let lines = [
        "# stan_version_major = 2\n",
        "# model = bernoulli_model\n",
        "# method = sample (Default)\n",
        "#   sample\n",
        "#     num_samples = 1000 (Default)\n",
        "#     adapt\n",
        "#       engaged = 1 (Default)\n",
        "#   id = 1 (Default)\n",
        "#   data\n",
        "#     file = bernoulli.data.json\n",
        "#   random\n",
        "#     seed = 3252652196\n",
        "#   num_threads = 1 (Default)\n",
        "# stanc_version = stanc3 v2.33.0\n",
    ];
    assert_eq!(
        scan(&lines),
        "method=sample  num_samples=1000  adapt engaged=1  id=1  data file=bernoulli.data.json random seed=3252652196 num_threads=1"
    );
}

#[test]
fn csv_header_without_method() {
    assert_eq!(scan(&["# nothing here\n", "lp__,theta\n"]), "");
}

#[test]
fn stan_extension_of_paths() {
    assert!(has_stan_extension("bernoulli.stan"));
    assert!(has_stan_extension("/examples/bernoulli/bernoulli.stan"));
    assert!(has_stan_extension("a/b.stan/"));
    assert!(has_stan_extension("a/b.stan/."));
    assert!(has_stan_extension("a.b.stan"));
    assert!(!has_stan_extension(".stan"));
    assert!(!has_stan_extension("a/.stan"));
    assert!(!has_stan_extension("bernoulli.stan.txt"));
    assert!(!has_stan_extension("bernoulli.Stan"));
    assert!(!has_stan_extension("bernoulli"));
    assert!(!has_stan_extension("bernoulli."));
    assert!(!has_stan_extension("a.stan/.."));
    assert!(!has_stan_extension("/"));
    assert!(!has_stan_extension(""));
    assert!(!has_stan_extension("stan"));
}

#[test]
fn csv_header_reads_as_command_line() {
    let lines = [
        "# method = sample (Default)\n",
        "#   sample\n",
        "#     num_samples = 1000 (Default)\n",
        "#     num_warmup = 1000 (Default)\n",
        "#     adapt\n",
        "#       engaged = 1 (Default)\n",
        "#       delta = 0.8 (Default)\n",
        "#     algorithm = hmc (Default)\n",
        "#       hmc\n",
        "#         engine = nuts (Default)\n",
        "#           nuts\n",
        "#             max_depth = 10 (Default)\n",
        "#         metric = diag_e (Default)\n",
        "#         stepsize = 1 (Default)\n",
        "#     num_chains = 1 (Default)\n",
        "# id = 1 (Default)\n",
        "# data\n",
        "#   file = bernoulli.data.json\n",
        "# init = 2 (Default)\n",
        "# random\n",
        "#   seed = 3252652196\n",
        "# output\n",
        "#   file = output.csv (Default)\n",
        "#   refresh = 100 (Default)\n",
        "#   sig_figs = -1 (Default)\n",
        "# num_threads = 1 (Default)\n",
    ];
    let s = scan(&lines);
    assert!(read_command_line(&s).is_ok(), "{s}");
}

#[test]
fn theta_row_columns() {
    let out = "Inference for Stan model: bernoulli_model\n\
                 Mean     MCSE   StdDev\n\
lp__            -7.3  1.8e-02     0.75\n\
theta           0.25  2.9e-03     0.12    0.079\n\
theta2 1 2\n";
    assert_eq!(
        theta_columns_of(out),
        Some((Some("0.25".to_string()), Some("0.12".to_string())))
    );
    assert_eq!(theta_columns_of("theta\t0.3 x\r\n"), Some((Some("0.3".to_string()), None)));
    assert_eq!(theta_columns_of("theta"), Some((None, None)));
    assert_eq!(theta_columns_of("a\n  theta 1 2 3\nthetas 4 5 6 7"), Some((Some("4".to_string()), Some("6".to_string()))));
    assert_eq!(theta_columns_of("lp__ 1 2 3\n"), None);
    assert_eq!(theta_columns_of(""), None);
}
