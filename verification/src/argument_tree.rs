//! The top-level options in the statement form of the command line,
//! where an empty file option is left out.
use vstd::prelude::*;
use crate::text::{int_literal, int_text, int_string, lemma_int_text_reads_back};
use crate::argtree::numbered;

verus! {

broadcast use vstd::string::group_string_axioms;

/// Input data options.
#[derive(Debug, PartialEq, Clone)]
pub struct Data {
    /// Input data file.
    /// Valid values: Path to existing file.
    /// Defaults to `""`.
    pub file: String,
}

impl Default for Data {
    fn default() -> (d: Data)
        ensures
            d.file@ == Seq::<char>::empty(),
    {
        Data { file: String::new() }
    }
}

/// The fragment of the input data options: nothing when no file is
/// given, else `data file=<file>`.
pub open spec fn data_fragment(file: Seq<char>) -> Seq<char> {
    if file.len() == 0 {
        Seq::empty()
    } else {
        "data file="@ + file
    }
}

impl Data {
    /// The command line fragment of the input data options.
    pub fn command_fragment(&self) -> (s: String)
        ensures
            s@ == data_fragment(self.file@),
    {
        if self.file.as_str().is_empty() {
            String::new()
        } else {
            let mut s = "data file=".to_owned();
            s.append(self.file.as_str());
            s
        }
    }
}

/// Random number configuration.
#[derive(Debug, PartialEq, Eq, Clone, Copy, Structural)]
pub struct Random {
    /// Random number generator seed.
    /// Valid values: non-negative integer < `4294967296` or `-1` to
    /// generate seed from system time.
    /// Defaults to `-1`.
    pub seed: i64,
}

impl Default for Random {
    fn default() -> (r: Random)
        ensures
            r.seed == -1,
    {
        Random { seed: -1 }
    }
}

/// The fragment of the random number configuration.
pub open spec fn random_fragment(seed: int) -> Seq<char> {
    "random seed="@ + int_text(seed)
}

impl Random {
    /// The command line fragment of the random number configuration.
    pub fn command_fragment(&self) -> (s: String)
        ensures
            s@ == random_fragment(self.seed as int),
    {
        let mut s = "random seed=".to_owned();
        let digits = int_string(self.seed);
        s.append(digits.as_str());
        s
    }
}

/// File output options.
#[derive(Debug, PartialEq, Clone)]
pub struct Output {
    /// Output file.
    /// Valid values: Path to existing file.
    /// Defaults to `"output.csv"`.
    pub file: String,
    /// Auxiliary output file for diagnostic information.
    /// Valid values: Path to existing file.
    /// Defaults to `""`.
    pub diagnostic_file: String,
    /// Number of interations between screen updates.
    /// Valid values: `0 <= refresh`.
    /// Defaults to `100`.
    pub refresh: i32,
    /// The number of significant figures used for the output CSV files.
    /// Valid values: `0 <= sig_figs <= 18` or `-1` to use the default
    /// number of significant figures.
    /// Defaults to `-1`.
    pub sig_figs: i32,
    /// File to store profiling information.
    /// Valid values: Valid path and write access to the folder.
    /// Defaults to `""`.
    pub profile_file: String,
}

/// ` key=value`, or nothing when `value` is empty.
pub open spec fn optional_part(key: Seq<char>, value: Seq<char>) -> Seq<char> {
    if value.len() == 0 {
        Seq::empty()
    } else {
        seq![' '] + key + seq!['='] + value
    }
}

/// The fragment of the file output options.
pub open spec fn output_fragment(o: Output) -> Seq<char> {
    "output file="@ + o.file@ + optional_part("diagnostic_file"@, o.diagnostic_file@)
        + " refresh="@ + int_text(o.refresh as int) + " sig_figs="@ + int_text(o.sig_figs as int)
        + optional_part("profile_file"@, o.profile_file@)
}

/// Appends ` key=value` to `s` unless `value` is empty.
fn push_optional(s: &mut String, key: &str, value: &str)
    ensures
        final(s)@ == old(s)@ + optional_part(key@, value@),
{
    if !value.is_empty() {
        proof {
            reveal_strlit(" ");
            reveal_strlit("=");
        }
        s.append(" ");
        s.append(key);
        s.append("=");
        s.append(value);
        proof {
            assert(s@ =~= old(s)@ + optional_part(key@, value@));
        }
    } else {
        proof {
            assert(s@ =~= old(s)@ + optional_part(key@, value@));
        }
    }
}

impl Output {
    /// The command line fragment of the file output options.
    pub fn command_fragment(&self) -> (s: String)
        ensures
            s@ == output_fragment(*self),
    {
        let mut s = "output file=".to_owned();
        s.append(self.file.as_str());
        push_optional(&mut s, "diagnostic_file", self.diagnostic_file.as_str());
        s.append(" refresh=");
        let r = int_string(self.refresh as i64);
        s.append(r.as_str());
        s.append(" sig_figs=");
        let g = int_string(self.sig_figs as i64);
        s.append(g.as_str());
        push_optional(&mut s, "profile_file", self.profile_file.as_str());
        proof {
            assert(s@ =~= output_fragment(*self));
        }
        s
    }

    /// A builder with every option unspecified.
    pub fn builder() -> (b: OutputBuilder)
        ensures
            b@ == crate::argtree::no_output_choices(),
    {
        OutputBuilder::new()
    }
}

impl Default for Output {
    fn default() -> (o: Output)
        ensures
            o.file@ == crate::argtree::OUTPUT_FILE@,
            o.diagnostic_file@ == Seq::<char>::empty(),
            o.refresh == 100,
            o.sig_figs == -1,
            o.profile_file@ == Seq::<char>::empty(),
    {
        OutputBuilder::new().build()
    }
}

/// Options builder for [`Output`]; an option left unspecified takes the
/// default indicated on `Output`.
#[derive(Debug, PartialEq, Clone)]
pub struct OutputBuilder {
    choices: crate::argtree::OutputBuilder,
}

impl View for OutputBuilder {
    type V = crate::argtree::OutputChoices;

    closed spec fn view(&self) -> crate::argtree::OutputChoices {
        self.choices@
    }
}

impl OutputBuilder {
    /// A builder with every option unspecified.
    pub fn new() -> (b: OutputBuilder)
        ensures
            b@ == crate::argtree::no_output_choices(),
    {
        OutputBuilder { choices: crate::argtree::OutputBuilder::new() }
    }

    /// Sets the output file.
    pub fn file(self, file: String) -> (b: OutputBuilder)
        ensures
            b@ == (crate::argtree::OutputChoices { file: Some(file@), ..self@ }),
    {
        OutputBuilder { choices: self.choices.file(file.as_str()) }
    }

    /// Sets the diagnostic file.
    pub fn diagnostic_file(self, file: String) -> (b: OutputBuilder)
        ensures
            b@ == (crate::argtree::OutputChoices { diagnostic_file: Some(file@), ..self@ }),
    {
        OutputBuilder { choices: self.choices.diagnostic_file(file.as_str()) }
    }

    /// Sets the number of iterations between screen updates.
    pub fn refresh(self, refresh: i32) -> (b: OutputBuilder)
        ensures
            b@ == (crate::argtree::OutputChoices { refresh: Some(refresh), ..self@ }),
    {
        OutputBuilder { choices: self.choices.refresh(refresh) }
    }

    /// Sets the number of significant figures.
    pub fn sig_figs(self, sig_figs: i32) -> (b: OutputBuilder)
        ensures
            b@ == (crate::argtree::OutputChoices { sig_figs: Some(sig_figs), ..self@ }),
    {
        OutputBuilder { choices: self.choices.sig_figs(sig_figs) }
    }

    /// Sets the profiling file.
    pub fn profile_file(self, file: String) -> (b: OutputBuilder)
        ensures
            b@ == (crate::argtree::OutputChoices { profile_file: Some(file@), ..self@ }),
    {
        OutputBuilder { choices: self.choices.profile_file(file.as_str()) }
    }

    /// Builds the options, supplying defaults (here the profiling file
    /// defaults to none).
    pub fn build(self) -> (o: Output)
        ensures
            o.file@ == crate::argtree::text_or(self@.file, crate::argtree::OUTPUT_FILE@),
            o.diagnostic_file@ == crate::argtree::text_or(self@.diagnostic_file, Seq::empty()),
            o.refresh == match self@.refresh {
                Some(x) => x,
                None => 100i32,
            },
            o.sig_figs == match self@.sig_figs {
                Some(x) => x,
                None => -1i32,
            },
            o.profile_file@ == crate::argtree::text_or(self@.profile_file, Seq::empty()),
    {
        let explicit_profile = self.choices.has_profile_file();
        let o = self.choices.build();
        if explicit_profile {
            Output {
                file: o.file,
                diagnostic_file: o.diagnostic_file,
                refresh: o.refresh,
                sig_figs: o.sig_figs,
                profile_file: o.profile_file,
            }
        } else {
            Output {
                file: o.file,
                diagnostic_file: o.diagnostic_file,
                refresh: o.refresh,
                sig_figs: o.sig_figs,
                profile_file: String::new(),
            }
        }
    }
}

/// The statement of a whole argument tree, given the fragment of its
/// method: the method, ` id=<id>`, the data fragment if there is one,
/// ` init=<init>`, the random and output fragments, and
/// ` num_threads=<n>`.
pub open spec fn command_string(
    method: Seq<char>,
    id: int,
    data: Seq<char>,
    init: Seq<char>,
    random: Seq<char>,
    output: Seq<char>,
    num_threads: int,
) -> Seq<char> {
    method + " id="@ + int_text(id) + (if data.len() == 0 {
        Seq::empty()
    } else {
        seq![' '] + data
    }) + " init="@ + init + seq![' '] + random + seq![' '] + output + " num_threads="@
        + int_text(num_threads)
}

/// Assembles the statement of a whole argument tree from the fragment of
/// its method and its other options.
pub fn command_string_of(
    method_fragment: &str,
    id: i32,
    data: &Data,
    init: &str,
    random: &Random,
    output: &Output,
    num_threads: i32,
) -> (s: String)
    ensures
        s@ == command_string(
            method_fragment@,
            id as int,
            data_fragment(data.file@),
            init@,
            random_fragment(random.seed as int),
            output_fragment(*output),
            num_threads as int,
        ),
{
    proof {
        reveal_strlit(" ");
    }
    let mut s = method_fragment.to_owned();
    s.append(" id=");
    let i = int_string(id as i64);
    s.append(i.as_str());
    let d = data.command_fragment();
    if !d.as_str().is_empty() {
        s.append(" ");
        s.append(d.as_str());
    }
    s.append(" init=");
    s.append(init);
    s.append(" ");
    let r = random.command_fragment();
    s.append(r.as_str());
    s.append(" ");
    let o = output.command_fragment();
    s.append(o.as_str());
    s.append(" num_threads=");
    let n = int_string(num_threads as i64);
    s.append(n.as_str());
    proof {
        assert(s@ =~= command_string(
            method_fragment@,
            id as int,
            data_fragment(data.file@),
            init@,
            random_fragment(random.seed as int),
            output_fragment(*output),
            num_threads as int,
        ));
    }
    s
}

} // verus!

verus! {

/// `".csv"` occurs in `s` at position `j`.
pub open spec fn csv_at(s: Seq<char>, j: int) -> bool {
    s.subrange(j, j + 4) == ".csv"@
}

/// Start of the last occurrence of `".csv"` in `s`.
pub open spec fn last_csv(s: Seq<char>) -> Option<int>
    decreases s.len(),
{
    if s.len() < 4 {
        None
    } else if csv_at(s, s.len() - 4) {
        Some(s.len() - 4)
    } else {
        last_csv(s.drop_last())
    }
}

/// What precedes the last `".csv"` in `s`; all of `s` when there is none.
pub open spec fn csv_prefix(s: Seq<char>) -> Seq<char> {
    match last_csv(s) {
        Some(i) => s.take(i),
        None => s,
    }
}

/// The output files of a run whose output file is `file`: for a sampler
/// with `n != 1` chains (`num_chains == Some(n)`), one `prefix_k.csv`
/// per chain `k` numbered from `id`; else the single `prefix.csv`.
pub open spec fn run_output_files(file: Seq<char>, id: int, num_chains: Option<int>) -> Seq<
    Seq<char>,
> {
    let p = csv_prefix(file);
    match num_chains {
        Some(n) => if n != 1 {
            Seq::new(
                if n > 0 {
                    n as nat
                } else {
                    0
                },
                |k: int| p + seq!['_'] + int_text(id + k) + ".csv"@,
            )
        } else {
            seq![p + ".csv"@]
        },
        None => seq![p + ".csv"@],
    }
}

proof fn lemma_last_csv_window(s: Seq<char>, i: int)
    requires
        0 <= i,
        i + 4 <= s.len(),
        csv_at(s, i),
        forall|j: int| i < j && j + 4 <= s.len() ==> !#[trigger] csv_at(s, j),
    ensures
        last_csv(s) == Some(i),
    decreases s.len(),
{
    if !csv_at(s, s.len() - 4) {
        let t = s.drop_last();
        assert(t.subrange(i, i + 4) =~= s.subrange(i, i + 4));
        assert forall|j: int| i < j && j + 4 <= t.len() implies !#[trigger] csv_at(t, j) by {
            assert(!csv_at(s, j));
            assert(t.subrange(j, j + 4) =~= s.subrange(j, j + 4));
        }
        lemma_last_csv_window(t, i);
    }
}

proof fn lemma_last_csv_none(s: Seq<char>)
    requires
        forall|j: int| 0 <= j && j + 4 <= s.len() ==> !#[trigger] csv_at(s, j),
    ensures
        last_csv(s) is None,
    decreases s.len(),
{
    if s.len() >= 4 {
        let t = s.drop_last();
        assert forall|j: int| 0 <= j && j + 4 <= t.len() implies !#[trigger] csv_at(t, j) by {
            assert(!csv_at(s, j));
            assert(t.subrange(j, j + 4) =~= s.subrange(j, j + 4));
        }
        assert(!csv_at(s, s.len() - 4));
        lemma_last_csv_none(t);
    }
}

fn is_csv_at(v: &Vec<char>, i: usize) -> (b: bool)
    requires
        i + 4 <= v@.len(),
    ensures
        b == csv_at(v@, i as int),
{
    proof {
        reveal_strlit(".csv");
    }
    let vl = v.len();
    let b = v[i] == '.' && v[i + 1] == 'c' && v[i + 2] == 's' && v[i + 3] == 'v';
    proof {
        if b {
            assert(v@.subrange(i as int, i + 4) =~= ".csv"@);
        } else {
            if v@.subrange(i as int, i + 4) == ".csv"@ {
                assert(v@.subrange(i as int, i + 4)[0] == v@[i as int]);
                assert(v@.subrange(i as int, i + 4)[1] == v@[i + 1]);
                assert(v@.subrange(i as int, i + 4)[2] == v@[i + 2]);
                assert(v@.subrange(i as int, i + 4)[3] == v@[i + 3]);
            }
        }
    }
    b
}

/// What precedes the last `".csv"` in `file`.
pub fn csv_prefix_of(file: &str) -> (p: String)
    ensures
        p@ == csv_prefix(file@),
{
    let v = crate::text::chars_of(file);
    if v.len() < 4 {
        proof {
            lemma_last_csv_none(file@);
        }
        return file.to_owned();
    }
    let mut i: usize = v.len() - 4;
    loop
        invariant
            v@ == file@,
            i + 4 <= v@.len(),
            forall|j: int| i < j && j + 4 <= v@.len() ==> !#[trigger] csv_at(v@, j),
        decreases i,
    {
        if is_csv_at(&v, i) {
            proof {
                lemma_last_csv_window(file@, i as int);
                assert(v@.subrange(0, i as int) =~= file@.take(i as int));
            }
            return crate::text::string_of_range(&v, 0, i);
        }
        if i == 0 {
            proof {
                lemma_last_csv_none(file@);
            }
            return file.to_owned();
        }
        i = i - 1;
    }
}

/// The output files of a run whose output file is `file`, numbered from
/// `id`, where `num_chains` holds the number of chains of a sampler run
/// and is `None` for the other methods.
#[verifier::loop_isolation(false)]
pub fn output_files_of(file: &str, id: i32, num_chains: Option<i32>) -> (v: Vec<String>)
    requires
        num_chains is Some && num_chains->0 != 1 ==> i32::MIN <= id + num_chains->0 <= i32::MAX,
    ensures
        v.deep_view() == run_output_files(
            file@,
            id as int,
            match num_chains {
                Some(n) => Some(n as int),
                None => None,
            },
        ),
{
    let prefix = csv_prefix_of(file);
    proof {
        reveal_strlit("_");
        reveal_strlit(".csv");
        assert("_"@ =~= seq!['_']);
    }
    let mut v: Vec<String> = Vec::new();
    let n = match num_chains {
        Some(n) => n,
        None => 1,
    };
    if n == 1 {
        let mut s = prefix.clone();
        s.append(".csv");
        v.push(s);
        proof {
            assert(v.deep_view() =~= run_output_files(
                file@,
                id as int,
                match num_chains {
                    Some(n) => Some(n as int),
                    None => None,
                },
            ));
        }
        return v;
    }
    let mut k: i32 = id;
    let end: i32 = id + n;
    while k < end
        invariant
            id <= k,
            n > 0 ==> k <= end,
            n <= 0 ==> k == id,
            end == id + n,
            prefix@ == csv_prefix(file@),
            v.deep_view().len() == k - id,
            forall|j: int|
                0 <= j < k - id ==> #[trigger] v.deep_view()[j] == prefix@ + seq!['_'] + int_text(
                    id + j,
                ) + ".csv"@,
        decreases end - k,
    {
        let mut s = prefix.clone();
        s.append("_");
        let digits = int_string(k as i64);
        s.append(digits.as_str());
        s.append(".csv");
        let ghost before = v.deep_view();
        let ghost sv = s@;
        v.push(s);
        proof {
            assert(v.deep_view() =~= before.push(sv));
        }
        k = k + 1;
    }
    proof {
        assert(v.deep_view() =~= run_output_files(
            file@,
            id as int,
            match num_chains {
                Some(n) => Some(n as int),
                None => None,
            },
        ));
    }
    v
}

/// The statement of a whole argument tree starts with the method's
/// fragment and ` id=` with a number that reads back as `id`, and ends
/// with ` num_threads=` and a number that reads back as `num_threads`.
pub proof fn law_command_string_numbers(
    method: Seq<char>,
    id: int,
    data: Seq<char>,
    init: Seq<char>,
    random: Seq<char>,
    output: Seq<char>,
    num_threads: int,
)
    ensures
        exists|t: Seq<char>|
            #[trigger] int_literal(t) == Some(id) && ({
                let s = command_string(method, id, data, init, random, output, num_threads);
                let h = method + " id="@ + t;
                &&& s.len() > h.len()
                &&& s.take(h.len() as int) == h
                &&& s[h.len() as int] == ' '
            }),
        exists|t: Seq<char>|
            #[trigger] int_literal(t) == Some(num_threads) && ({
                let s = command_string(method, id, data, init, random, output, num_threads);
                let z = " num_threads="@ + t;
                &&& s.len() >= z.len()
                &&& s.skip(s.len() - z.len()) == z
            }),
{
    reveal_strlit(" id=");
    reveal_strlit(" init=");
    reveal_strlit(" num_threads=");
    let s = command_string(method, id, data, init, random, output, num_threads);
    let t = int_text(id);
    let u = int_text(num_threads);
    lemma_int_text_reads_back(id);
    lemma_int_text_reads_back(num_threads);
    let d = if data.len() == 0 {
        Seq::<char>::empty()
    } else {
        seq![' '] + data
    };
    let tail = d + " init="@ + init + seq![' '] + random + seq![' '] + output + " num_threads="@ + u;
    assert(s =~= method + " id="@ + t + tail);
    assert(tail[0] == ' ');
    let r = tail.drop_first();
    assert(tail =~= seq![' '] + r);
    let h = method + " id="@ + t;
    assert(s =~= h + seq![' '] + r);
    assert(s.take(h.len() as int) =~= h);
    assert(s[h.len() as int] == ' ');
    let p = method + " id="@ + t + d + " init="@ + init + seq![' '] + random + seq![' '] + output;
    let z = " num_threads="@ + u;
    assert(s =~= p + z);
    assert(s.skip(s.len() - z.len()) =~= z);
}

/// The output files of a sampler run with several chains are one per
/// chain, in order: the `k`-th is what precedes the last `.csv` of
/// `file`, `_`, a number that reads back as `id + k`, and `.csv`. Any
/// other run writes that prefix followed by `.csv`.
pub proof fn law_run_output_files_numbered(file: Seq<char>, id: int, num_chains: Option<int>)
    ensures
        (num_chains matches Some(n) && n != 1) ==> run_output_files(file, id, num_chains).len()
            == if num_chains->0 > 0 {
            num_chains->0
        } else {
            0
        },
        (num_chains matches Some(n) && n != 1) ==> forall|k: int|
            0 <= k < run_output_files(file, id, num_chains).len() ==> #[trigger] numbered(
                run_output_files(file, id, num_chains)[k],
                csv_prefix(file),
                seq!['_'],
                id + k,
                ".csv"@,
            ),
        !(num_chains matches Some(n) && n != 1) ==> run_output_files(file, id, num_chains) == seq![
            csv_prefix(file) + ".csv"@,
        ],
{
    let v = run_output_files(file, id, num_chains);
    let p = csv_prefix(file);
    if num_chains matches Some(n) && n != 1 {
        assert forall|k: int| 0 <= k < v.len() implies #[trigger] numbered(
            v[k],
            p,
            seq!['_'],
            id + k,
            ".csv"@,
        ) by {
            lemma_int_text_reads_back(id + k);
            assert(v[k] == p + seq!['_'] + int_text(id + k) + ".csv"@);
        }
    }
}

} // verus!
