//! Arguments of the `stansummary` tool in the `--option=value` form.
use vstd::prelude::*;
use crate::control::part_if;
use crate::text::{
    int_literal, int_string, int_text, lemma_int_text_reads_back, nat_text, nat_text_exec, string_of,
};
use crate::translate::join;

verus! {

broadcast use vstd::string::group_string_axioms;

/// The arguments that `stansummary` options give, where the percentiles
/// are already written as decimal texts.
pub open spec fn summary_arg_list(
    autocorr: Option<i32>,
    csv_filename: Option<Seq<char>>,
    percentiles: Seq<Seq<char>>,
    sig_figs: u8,
) -> Seq<Seq<char>> {
    part_if(autocorr, "--autocorr="@ + int_text(autocorr->0 as int)) + part_if(
        csv_filename,
        "--csv_filename="@ + csv_filename->0,
    ) + seq!["--percentiles="@ + join(percentiles, seq![',']), "--sig_figs="@ + nat_text(sig_figs as nat)]
}

/// The model of an optional file name.
pub open spec fn opt_str(o: Option<&str>) -> Option<Seq<char>> {
    match o {
        Some(s) => Some(s@),
        None => None,
    }
}

/// The arguments of `stansummary` options: `--autocorr=<n>` and
/// `--csv_filename=<file>` when chosen, then `--percentiles=<p1>,...`
/// and `--sig_figs=<n>`.
pub fn summary_args(
    autocorr: Option<i32>,
    csv_filename: Option<&str>,
    percentiles: &Vec<String>,
    sig_figs: u8,
) -> (v: Vec<String>)
    ensures
        v.deep_view() == summary_arg_list(
            autocorr,
            opt_str(csv_filename),
            percentiles.deep_view(),
            sig_figs,
        ),
{
    let mut v: Vec<String> = Vec::new();
    match autocorr {
        Some(n) => {
            let mut a = "--autocorr=".to_owned();
            let d = int_string(n as i64);
            a.append(d.as_str());
            v.push(a);
        },
        None => {},
    }
    match csv_filename {
        Some(file) => {
            let mut a = "--csv_filename=".to_owned();
            a.append(file);
            v.push(a);
        },
        None => {},
    }
    let ghost ps = percentiles.deep_view();
    let mut p = "--percentiles=".to_owned();
    let mut k: usize = 0;
    while k < percentiles.len()
        invariant
            0 <= k <= ps.len(),
            ps == percentiles.deep_view(),
            p@ == "--percentiles="@ + join(ps.take(k as int), seq![',']),
        decreases ps.len() - k,
    {
        proof {
            reveal_strlit(",");
            crate::translate::lemma_join_push(ps.take(k as int), ps[k as int], seq![',']);
            assert(ps.take(k + 1) =~= ps.take(k as int).push(ps[k as int]));
        }
        if k > 0 {
            p.append(",");
        }
        p.append(percentiles[k].as_str());
        k = k + 1;
    }
    proof {
        assert(ps.take(ps.len() as int) =~= ps);
    }
    let ghost before = v.deep_view();
    v.push(p);
    let mut g = "--sig_figs=".to_owned();
    let digits = nat_text_exec(sig_figs as u64);
    let d = string_of(digits.as_slice());
    g.append(d.as_str());
    v.push(g);
    proof {
        assert(v.deep_view() =~= summary_arg_list(
            autocorr,
            opt_str(csv_filename),
            percentiles.deep_view(),
            sig_figs,
        ));
    }
    v
}

/// The arguments of `stansummary` options, in order: `--autocorr=` with
/// a number that reads back as the chain asked for, when one is;
/// `--csv_filename=` with the file, when one is; `--percentiles=` with
/// the percentile texts separated by commas; and `--sig_figs=` with a
/// number that reads back as the significant figures.
pub proof fn law_summary_args(
    autocorr: Option<i32>,
    csv_filename: Option<Seq<char>>,
    percentiles: Seq<Seq<char>>,
    sig_figs: u8,
)
    ensures
        ({
            let v = summary_arg_list(autocorr, csv_filename, percentiles, sig_figs);
            let a: int = if autocorr is Some {
                1
            } else {
                0
            };
            let c: int = if csv_filename is Some {
                1
            } else {
                0
            };
            &&& v.len() == a + c + 2
            &&& autocorr matches Some(n) ==> v[0].take(11) == "--autocorr="@ && int_literal(
                v[0].skip(11),
            ) == Some(n as int)
            &&& csv_filename matches Some(f) ==> v[a] == "--csv_filename="@ + f
            &&& v[a + c].take(14) == "--percentiles="@
            &&& v[a + c].skip(14) == join(percentiles, seq![','])
            &&& v[a + c + 1].take(11) == "--sig_figs="@
            &&& int_literal(v[a + c + 1].skip(11)) == Some(sig_figs as int)
        }),
{
    reveal_strlit("--autocorr=");
    reveal_strlit("--percentiles=");
    reveal_strlit("--sig_figs=");
    let v = summary_arg_list(autocorr, csv_filename, percentiles, sig_figs);
    let a: int = if autocorr is Some {
        1
    } else {
        0
    };
    let c: int = if csv_filename is Some {
        1
    } else {
        0
    };
    let g = "--sig_figs="@ + nat_text(sig_figs as nat);
    let p = "--percentiles="@ + join(percentiles, seq![',']);
    assert(v[a + c] == p);
    assert(v[a + c + 1] == g);
    assert(g.take(11) =~= "--sig_figs="@);
    assert(g.skip(11) =~= nat_text(sig_figs as nat));
    assert(p.take(14) =~= "--percentiles="@);
    assert(p.skip(14) =~= join(percentiles, seq![',']));
    lemma_int_text_reads_back(sig_figs as int);
    if let Some(n) = autocorr {
        let t = "--autocorr="@ + int_text(n as int);
        assert(v[0] == t);
        assert(t.take(11) =~= "--autocorr="@);
        assert(t.skip(11) =~= int_text(n as int));
        lemma_int_text_reads_back(n as int);
    }
}

} // verus!
