//! Direction of the compilation and execution of a Stan model: the paths
//! involved, the checks on what the tools print, and the options of the
//! `stansummary` tool.
use vstd::prelude::*;
use crate::error::{contains, str_contains};
use crate::text::{
    int_literal, int_string, int_text, lemma_int_text_reads_back, nat_text, nat_text_exec, string_of,
};
use crate::translate::join;

verus! {

broadcast use vstd::string::group_string_axioms;

/// Structure to direct compilation and execution of a Stan model.
/// Computation of diagnostics and summaries for said model are
/// facilitated through the same interface.
#[derive(Debug, PartialEq, Clone)]
pub struct Control {
    cmdstan: String,
    model: String,
}

impl View for Control {
    /// The path of the CmdStan installation and the path of the model.
    type V = (Seq<char>, Seq<char>);

    closed spec fn view(&self) -> (Seq<char>, Seq<char>) {
        (self.cmdstan@, self.model@)
    }
}

impl Control {
    /// Construct a new instance from a path (`cmdstan`) to a CmdStan
    /// installation and a path (`model`) to a Stan program.
    pub fn new(cmdstan: &str, model: &str) -> (c: Control)
        ensures
            c@ == (cmdstan@, model@),
    {
        Control { cmdstan: cmdstan.to_owned(), model: model.to_owned() }
    }

    /// The path of the CmdStan installation.
    pub fn cmdstan(&self) -> (s: &str)
        ensures
            s@ == self@.0,
    {
        self.cmdstan.as_str()
    }

    /// The path of the Stan program (and, once compiled, of its
    /// executable).
    pub fn model(&self) -> (s: &str)
        ensures
            s@ == self@.1,
    {
        self.model.as_str()
    }
}

/// What a working model executable prints when asked for help.
pub open spec fn model_help_marker() -> Seq<char> {
    "Bayesian inference with Markov Chain Monte Carlo"@
}

/// What `make` prints in a working CmdStan installation.
pub open spec fn make_help_marker() -> Seq<char> {
    "Build a Stan program"@
}

/// Whether the help text `stdout` of a model executable shows that it
/// works.
pub fn executable_works_from(stdout: &str) -> (b: bool)
    ensures
        b == contains(stdout@, model_help_marker()),
{
    str_contains(stdout, "Bayesian inference with Markov Chain Monte Carlo")
}

/// Whether the output `stdout` of `make` shows a working CmdStan
/// installation.
pub fn cmdstan_works_from(stdout: &str) -> (b: bool)
    ensures
        b == contains(stdout@, make_help_marker()),
{
    str_contains(stdout, "Build a Stan program")
}

/// Options for the `stansummary` tool.
#[derive(Debug, PartialEq, Clone)]
pub struct StanSummaryOptions {
    /// Display the chain autocorrelation for the n-th input file, in
    /// addition to statistics.
    pub autocorr: Option<i32>,
    /// Write statistics to a csv file.
    pub csv_filename: Option<String>,
    /// Percentiles to report as ordered set of comma-separated
    /// integers from (1,99), inclusive. Default is 5,50,95.
    pub percentiles: Option<Vec<u8>>,
    /// Significant figures reported. Default is 2. Must be an integer
    /// from (1, 18), inclusive.
    pub sig_figs: Option<u8>,
}

/// The decimal texts of `ps`, joined by commas.
pub open spec fn percentile_list(ps: Seq<u8>) -> Seq<char> {
    join(Seq::new(ps.len(), |k: int| nat_text(ps[k] as nat)), seq![','])
}

/// `[part]` when `o` is `Some`, else nothing.
pub open spec fn part_if<T>(o: Option<T>, part: Seq<char>) -> Seq<Seq<char>> {
    if o is Some {
        seq![part]
    } else {
        Seq::empty()
    }
}

/// The parts of the command line fragment of `stansummary` options.
pub open spec fn summary_parts(
    autocorr: Option<i32>,
    csv_filename: Option<Seq<char>>,
    percentiles: Option<Seq<u8>>,
    sig_figs: Option<u8>,
) -> Seq<Seq<char>> {
    part_if(autocorr, "--autocorr "@ + int_text(autocorr->0 as int)) + part_if(
        csv_filename,
        "--csv_filename "@ + csv_filename->0,
    ) + part_if(percentiles, "--percentiles "@ + percentile_list(percentiles->0)) + part_if(
        sig_figs,
        "--sig_figs "@ + nat_text(sig_figs->0 as nat),
    )
}

/// The model of a file name option.
pub open spec fn opt_text(o: Option<String>) -> Option<Seq<char>> {
    match o {
        Some(s) => Some(s@),
        None => None,
    }
}

/// The model of a percentile list option.
pub open spec fn opt_bytes(o: Option<Vec<u8>>) -> Option<Seq<u8>> {
    match o {
        Some(v) => Some(v@),
        None => None,
    }
}

fn push_part(s: &mut String, first: &mut bool, part: &str)
    ensures
        final(s)@ == (if *old(first) {
            old(s)@ + part@
        } else {
            old(s)@ + seq![' '] + part@
        }),
        !*final(first),
{
    proof {
        reveal_strlit(" ");
    }
    if !*first {
        s.append(" ");
    }
    s.append(part);
    *first = false;
}

/// The percentiles `ps` as decimal texts joined by commas.
pub fn percentile_text(ps: &Vec<u8>) -> (s: String)
    ensures
        s@ == percentile_list(ps@),
{
    let ghost texts = Seq::new(ps@.len(), |k: int| nat_text(ps@[k] as nat));
    let mut s = String::new();
    let mut k: usize = 0;
    while k < ps.len()
        invariant
            0 <= k <= ps@.len(),
            texts == Seq::new(ps@.len(), |j: int| nat_text(ps@[j] as nat)),
            s@ == join(texts.take(k as int), seq![',']),
        decreases ps@.len() - k,
    {
        let digits = nat_text_exec(ps[k] as u64);
        let d = string_of(digits.as_slice());
        proof {
            reveal_strlit(",");
            crate::translate::lemma_join_push(texts.take(k as int), texts[k as int], seq![',']);
            assert(texts.take(k + 1) =~= texts.take(k as int).push(texts[k as int]));
        }
        if k > 0 {
            s.append(",");
        }
        s.append(d.as_str());
        k = k + 1;
    }
    proof {
        assert(texts.take(ps@.len() as int) =~= texts);
    }
    s
}

impl StanSummaryOptions {
    /// Options with nothing chosen.
    pub fn new() -> (o: StanSummaryOptions)
        ensures
            o.autocorr is None,
            o.csv_filename is None,
            o.percentiles is None,
            o.sig_figs is None,
    {
        StanSummaryOptions { autocorr: None, csv_filename: None, percentiles: None, sig_figs: None }
    }

    /// The command line fragment of the options: `--autocorr <n>`,
    /// `--csv_filename <file>`, `--percentiles <p1>,<p2>,...` and
    /// `--sig_figs <n>`, each only when chosen, in this order, separated
    /// by single spaces.
    pub fn command_fragment(&self) -> (s: String)
        ensures
            s@ == join(
                summary_parts(
                    self.autocorr,
                    opt_text(self.csv_filename),
                    opt_bytes(self.percentiles),
                    self.sig_figs,
                ),
                seq![' '],
            ),
    {
        let ghost parts = summary_parts(
            self.autocorr,
            opt_text(self.csv_filename),
            opt_bytes(self.percentiles),
            self.sig_figs,
        );
        let ghost mut done: Seq<Seq<char>> = Seq::empty();
        let mut s = String::new();
        let mut first = true;
        match self.autocorr {
            Some(n) => {
                let mut p = "--autocorr ".to_owned();
                let d = int_string(n as i64);
                p.append(d.as_str());
                proof {
                    crate::translate::lemma_join_push(done, p@, seq![' ']);
                    done = done.push(p@);
                }
                push_part(&mut s, &mut first, p.as_str());
            },
            None => {},
        }
        assert(s@ == join(done, seq![' ']) && first == (done.len() == 0));
        match &self.csv_filename {
            Some(file) => {
                let mut p = "--csv_filename ".to_owned();
                p.append(file.as_str());
                proof {
                    crate::translate::lemma_join_push(done, p@, seq![' ']);
                    done = done.push(p@);
                }
                push_part(&mut s, &mut first, p.as_str());
            },
            None => {},
        }
        assert(s@ == join(done, seq![' ']) && first == (done.len() == 0));
        match &self.percentiles {
            Some(values) => {
                let mut p = "--percentiles ".to_owned();
                let list = percentile_text(values);
                p.append(list.as_str());
                proof {
                    crate::translate::lemma_join_push(done, p@, seq![' ']);
                    done = done.push(p@);
                }
                push_part(&mut s, &mut first, p.as_str());
            },
            None => {},
        }
        assert(s@ == join(done, seq![' ']) && first == (done.len() == 0));
        match self.sig_figs {
            Some(n) => {
                let mut p = "--sig_figs ".to_owned();
                let digits = nat_text_exec(n as u64);
                let d = string_of(digits.as_slice());
                p.append(d.as_str());
                proof {
                    crate::translate::lemma_join_push(done, p@, seq![' ']);
                    done = done.push(p@);
                }
                push_part(&mut s, &mut first, p.as_str());
            },
            None => {},
        }
        proof {
            assert(done =~= parts);
        }
        s
    }
}

/// `s` is texts joined by commas that read back, in order, as `ps`.
pub open spec fn reads_as_list(s: Seq<char>, ps: Seq<u8>) -> bool {
    exists|ts: Seq<Seq<char>>|
        #[trigger] join(ts, seq![',']) == s && ts.len() == ps.len() && forall|k: int|
            0 <= k < ts.len() ==> #[trigger] int_literal(ts[k]) == Some(ps[k] as int)
}

/// The percentile list reads back as the percentiles.
pub proof fn law_percentile_list(ps: Seq<u8>)
    ensures
        reads_as_list(percentile_list(ps), ps),
{
    let ts = Seq::new(ps.len(), |k: int| nat_text(ps[k] as nat));
    assert forall|k: int| 0 <= k < ts.len() implies #[trigger] int_literal(ts[k]) == Some(
        ps[k] as int,
    ) by {
        lemma_int_text_reads_back(ps[k] as int);
    }
    assert(join(ts, seq![',']) == percentile_list(ps));
}

/// The parts of `stansummary` options, in order: `--autocorr ` with a
/// number that reads back as the chain, `--csv_filename ` with the file,
/// `--percentiles ` with a list that reads back as the percentiles, and
/// `--sig_figs ` with a number that reads back as the significant
/// figures, each when it is chosen.
pub proof fn law_summary_parts(
    autocorr: Option<i32>,
    csv_filename: Option<Seq<char>>,
    percentiles: Option<Seq<u8>>,
    sig_figs: Option<u8>,
)
    ensures
        ({
            let v = summary_parts(autocorr, csv_filename, percentiles, sig_figs);
            let a: int = if autocorr is Some {
                1
            } else {
                0
            };
            let c: int = if csv_filename is Some {
                1
            } else {
                0
            };
            let p: int = if percentiles is Some {
                1
            } else {
                0
            };
            let g: int = if sig_figs is Some {
                1
            } else {
                0
            };
            &&& v.len() == a + c + p + g
            &&& autocorr matches Some(n) ==> v[0].take(11) == "--autocorr "@ && int_literal(
                v[0].skip(11),
            ) == Some(n as int)
            &&& csv_filename matches Some(f) ==> v[a] == "--csv_filename "@ + f
            &&& percentiles matches Some(ps) ==> v[a + c].take(14) == "--percentiles "@
                && reads_as_list(v[a + c].skip(14), ps)
            &&& sig_figs matches Some(n) ==> v[a + c + p].take(11) == "--sig_figs "@ && int_literal(
                v[a + c + p].skip(11),
            ) == Some(n as int)
        }),
{
    reveal_strlit("--autocorr ");
    reveal_strlit("--percentiles ");
    reveal_strlit("--sig_figs ");
    reveal_strlit("--csv_filename ");
    let v = summary_parts(autocorr, csv_filename, percentiles, sig_figs);
    let a: int = if autocorr is Some {
        1
    } else {
        0
    };
    let c: int = if csv_filename is Some {
        1
    } else {
        0
    };
    let p: int = if percentiles is Some {
        1
    } else {
        0
    };
    if let Some(n) = autocorr {
        let t = "--autocorr "@ + int_text(n as int);
        assert(v[0] == t);
        assert(t.take(11) =~= "--autocorr "@);
        assert(t.skip(11) =~= int_text(n as int));
        lemma_int_text_reads_back(n as int);
    }
    if let Some(ps) = percentiles {
        let t = "--percentiles "@ + percentile_list(ps);
        assert(v[a + c] == t);
        assert(t.take(14) =~= "--percentiles "@);
        assert(t.skip(14) =~= percentile_list(ps));
        law_percentile_list(ps);
    }
    if let Some(n) = sig_figs {
        let t = "--sig_figs "@ + nat_text(n as nat);
        assert(v[a + c + p] == t);
        assert(t.take(11) =~= "--sig_figs "@);
        assert(t.skip(11) =~= nat_text(n as nat));
        lemma_int_text_reads_back(n as int);
    }
}

} // verus!
