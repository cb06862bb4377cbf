//! The top-level options shared by every method: input data, random
//! numbers, file output; and the names of the files a run produces.
use vstd::prelude::*;
use crate::text::{
    int_literal, int_text, int_text_exec, lemma_int_text_reads_back, string_of, chars_of, read_int,
    spec_read_int, IntRead,
};
use crate::translate::{Arg, Node, Translate, arg_nodes};

verus! {

broadcast use vstd::string::group_string_axioms;

/// Default output file.
pub const OUTPUT_FILE: &'static str = "output.csv";

/// Default profiling file.
pub const PROFILE_FILE: &'static str = "profile.csv";

/// Input data options.
#[derive(Debug, PartialEq, Clone)]
pub struct Data {
    /// Input data file.
    /// Valid values: Path to existing file.
    /// Defaults to `""`.
    pub file: String,
}

/// Random number configuration.
#[derive(Debug, PartialEq, Eq, Clone, Copy, Structural)]
pub struct Random {
    /// Random number generator seed.
    /// Valid values: non-negative integer < `4294967296` or `-1` to
    /// generate seed from system time.
    /// Defaults to `-1`.
    pub seed: i64,
}

/// File output options.
#[derive(Debug, PartialEq, Clone)]
pub struct Output {
    /// Output file.
    /// Valid values: Path to existing file.
    /// Defaults to `"output.csv"`.
    pub file: String,
    /// Auxiliary output file for diagnostic information.
    /// Valid values: Path to existing file.
    /// Defaults to `""`.
    pub diagnostic_file: String,
    /// Number of interations between screen updates.
    /// Valid values: `0 <= refresh`.
    /// Defaults to `100`.
    pub refresh: i32,
    /// The number of significant figures used for the output CSV files.
    /// Valid values: `0 <= sig_figs <= 18` or `-1` to use the default
    /// number of significant figures.
    /// Defaults to `-1`.
    pub sig_figs: i32,
    /// File to store profiling information.
    /// Valid values: Valid path and write access to the folder.
    /// Defaults to `"profile.csv"`.
    pub profile_file: String,
}

/// The option tree of the input data options.
pub open spec fn data_node(file: Seq<char>) -> Node {
    Node::Group(Some("data"@), seq![Node::Value("file"@, file)])
}

/// The option tree of the random number configuration.
pub open spec fn random_node(seed: int) -> Node {
    Node::Group(Some("random"@), seq![Node::Value("seed"@, int_text(seed))])
}

/// The option tree of the file output options.
pub open spec fn output_node(o: Output) -> Node {
    Node::Group(
        Some("output"@),
        seq![
            Node::Value("file"@, o.file@),
            Node::Value("diagnostic_file"@, o.diagnostic_file@),
            Node::Value("refresh"@, int_text(o.refresh as int)),
            Node::Value("sig_figs"@, int_text(o.sig_figs as int)),
            Node::Value("profile_file"@, o.profile_file@),
        ],
    )
}

impl Default for Data {
    fn default() -> (d: Data)
        ensures
            d.file@ == Seq::<char>::empty(),
    {
        Data { file: String::new() }
    }
}

impl Default for Random {
    fn default() -> (r: Random)
        ensures
            r.seed == -1,
    {
        Random { seed: -1 }
    }
}

impl Default for Output {
    fn default() -> (o: Output)
        ensures
            o.file@ == OUTPUT_FILE@,
            o.diagnostic_file@ == Seq::<char>::empty(),
            o.refresh == 100,
            o.sig_figs == -1,
            o.profile_file@ == PROFILE_FILE@,
    {
        OutputBuilder::new().build()
    }
}

impl crate::sealed::Sealed for Data {}

impl crate::sealed::Sealed for Random {}

impl crate::sealed::Sealed for Output {}

impl Translate for Data {
    open spec fn node(&self) -> Node {
        data_node(self.file@)
    }

    fn to_arg(&self) -> (a: Arg) {
        let mut fields = Vec::new();
        fields.push(Arg::text("file", self.file.as_str()));
        let a = Arg::declared("data", fields);
        proof {
            crate::translate::lemma_arg_nodes_len(fields@);
            assert(arg_nodes(fields@) =~= seq![Node::Value("file"@, self.file@)]);
        }
        a
    }
}

impl Translate for Random {
    open spec fn node(&self) -> Node {
        random_node(self.seed as int)
    }

    fn to_arg(&self) -> (a: Arg) {
        let mut fields = Vec::new();
        fields.push(Arg::integer("seed", self.seed));
        let a = Arg::declared("random", fields);
        proof {
            crate::translate::lemma_arg_nodes_len(fields@);
            assert(arg_nodes(fields@) =~= seq![Node::Value("seed"@, int_text(self.seed as int))]);
        }
        a
    }
}

impl Translate for Output {
    open spec fn node(&self) -> Node {
        output_node(*self)
    }

    fn to_arg(&self) -> (a: Arg) {
        let mut fields = Vec::new();
        fields.push(Arg::text("file", self.file.as_str()));
        fields.push(Arg::text("diagnostic_file", self.diagnostic_file.as_str()));
        fields.push(Arg::integer("refresh", self.refresh as i64));
        fields.push(Arg::integer("sig_figs", self.sig_figs as i64));
        fields.push(Arg::text("profile_file", self.profile_file.as_str()));
        let a = Arg::declared("output", fields);
        proof {
            let s = fields@;
            crate::translate::lemma_arg_nodes_len(s);
            assert(arg_nodes(s) =~= seq![
                Node::Value("file"@, self.file@),
                Node::Value("diagnostic_file"@, self.diagnostic_file@),
                Node::Value("refresh"@, int_text(self.refresh as int)),
                Node::Value("sig_figs"@, int_text(self.sig_figs as int)),
                Node::Value("profile_file"@, self.profile_file@),
            ]);
        }
        a
    }
}

/// Options builder for [`Data`]; an option left unspecified takes the
/// default indicated on `Data`.
#[derive(Debug, PartialEq, Clone)]
pub struct DataBuilder {
    file: Option<String>,
}

/// The value of an optional text, or `default`.
pub open spec fn text_or(o: Option<Seq<char>>, default: Seq<char>) -> Seq<char> {
    match o {
        Some(s) => s,
        None => default,
    }
}

/// The model of an optional text.
pub open spec fn opt_text(o: Option<String>) -> Option<Seq<char>> {
    match o {
        Some(s) => Some(s@),
        None => None,
    }
}

impl View for DataBuilder {
    /// The data file chosen so far, if any.
    type V = Option<Seq<char>>;

    closed spec fn view(&self) -> Option<Seq<char>> {
        opt_text(self.file)
    }
}

impl DataBuilder {
    /// A builder with every option unspecified.
    pub fn new() -> (b: DataBuilder)
        ensures
            b@ is None,
    {
        DataBuilder { file: None }
    }

    /// Sets the input data file.
    pub fn file(self, file: &str) -> (b: DataBuilder)
        ensures
            b@ == Some(file@),
    {
        DataBuilder { file: Some(file.to_owned()) }
    }

    /// Builds the options, supplying defaults.
    pub fn build(self) -> (d: Data)
        ensures
            d.file@ == text_or(self@, Seq::empty()),
    {
        match self.file {
            Some(f) => Data { file: f },
            None => Data::default(),
        }
    }
}

/// Options builder for [`Random`]; an option left unspecified takes the
/// default indicated on `Random`.
#[derive(Debug, PartialEq, Eq, Clone, Copy, Structural)]
pub struct RandomBuilder {
    seed: Option<i64>,
}

impl View for RandomBuilder {
    /// The seed chosen so far, if any.
    type V = Option<i64>;

    closed spec fn view(&self) -> Option<i64> {
        self.seed
    }
}

impl RandomBuilder {
    /// A builder with every option unspecified.
    pub fn new() -> (b: RandomBuilder)
        ensures
            b@ is None,
    {
        RandomBuilder { seed: None }
    }

    /// Sets the seed.
    pub fn seed(self, seed: i64) -> (b: RandomBuilder)
        ensures
            b@ == Some(seed),
    {
        RandomBuilder { seed: Some(seed) }
    }

    /// Builds the options, supplying defaults.
    pub fn build(self) -> (r: Random)
        ensures
            r.seed == match self@ {
                Some(s) => s,
                None => -1i64,
            },
    {
        match self.seed {
            Some(seed) => Random { seed },
            None => Random::default(),
        }
    }
}

/// Options builder for [`Output`]; an option left unspecified takes the
/// default indicated on `Output`.
#[derive(Debug, PartialEq, Clone)]
pub struct OutputBuilder {
    file: Option<String>,
    diagnostic_file: Option<String>,
    refresh: Option<i32>,
    sig_figs: Option<i32>,
    profile_file: Option<String>,
}

/// The options of an [`OutputBuilder`] chosen so far.
pub struct OutputChoices {
    /// Output file.
    pub file: Option<Seq<char>>,
    /// Diagnostic file.
    pub diagnostic_file: Option<Seq<char>>,
    /// Iterations between screen updates.
    pub refresh: Option<i32>,
    /// Significant figures.
    pub sig_figs: Option<i32>,
    /// Profiling file.
    pub profile_file: Option<Seq<char>>,
}

impl View for OutputBuilder {
    type V = OutputChoices;

    closed spec fn view(&self) -> OutputChoices {
        OutputChoices {
            file: opt_text(self.file),
            diagnostic_file: opt_text(self.diagnostic_file),
            refresh: self.refresh,
            sig_figs: self.sig_figs,
            profile_file: opt_text(self.profile_file),
        }
    }
}

/// Nothing is chosen.
pub open spec fn no_output_choices() -> OutputChoices {
    OutputChoices {
        file: None,
        diagnostic_file: None,
        refresh: None,
        sig_figs: None,
        profile_file: None,
    }
}

impl OutputBuilder {
    /// A builder with every option unspecified.
    pub fn new() -> (b: OutputBuilder)
        ensures
            b@ == no_output_choices(),
    {
        OutputBuilder {
            file: None,
            diagnostic_file: None,
            refresh: None,
            sig_figs: None,
            profile_file: None,
        }
    }

    /// Sets the output file.
    pub fn file(self, file: &str) -> (b: OutputBuilder)
        ensures
            b@ == (OutputChoices { file: Some(file@), ..self@ }),
    {
        OutputBuilder { file: Some(file.to_owned()), ..self }
    }

    /// Sets the diagnostic file.
    pub fn diagnostic_file(self, file: &str) -> (b: OutputBuilder)
        ensures
            b@ == (OutputChoices { diagnostic_file: Some(file@), ..self@ }),
    {
        OutputBuilder { diagnostic_file: Some(file.to_owned()), ..self }
    }

    /// Sets the number of iterations between screen updates.
    pub fn refresh(self, refresh: i32) -> (b: OutputBuilder)
        ensures
            b@ == (OutputChoices { refresh: Some(refresh), ..self@ }),
    {
        OutputBuilder { refresh: Some(refresh), ..self }
    }

    /// Sets the number of significant figures.
    pub fn sig_figs(self, sig_figs: i32) -> (b: OutputBuilder)
        ensures
            b@ == (OutputChoices { sig_figs: Some(sig_figs), ..self@ }),
    {
        OutputBuilder { sig_figs: Some(sig_figs), ..self }
    }

    /// Sets the profiling file.
    pub fn profile_file(self, file: &str) -> (b: OutputBuilder)
        ensures
            b@ == (OutputChoices { profile_file: Some(file@), ..self@ }),
    {
        OutputBuilder { profile_file: Some(file.to_owned()), ..self }
    }

    /// Whether a profiling file was chosen.
    pub fn has_profile_file(&self) -> (b: bool)
        ensures
            b == self@.profile_file is Some,
    {
        self.profile_file.is_some()
    }

    /// Builds the options, supplying defaults.
    pub fn build(self) -> (o: Output)
        ensures
            o.file@ == text_or(self@.file, OUTPUT_FILE@),
            o.diagnostic_file@ == text_or(self@.diagnostic_file, Seq::empty()),
            o.refresh == match self@.refresh {
                Some(x) => x,
                None => 100i32,
            },
            o.sig_figs == match self@.sig_figs {
                Some(x) => x,
                None => -1i32,
            },
            o.profile_file@ == text_or(self@.profile_file, PROFILE_FILE@),
    {
        let file = match self.file {
            Some(f) => f,
            None => OUTPUT_FILE.to_owned(),
        };
        let diagnostic_file = match self.diagnostic_file {
            Some(f) => f,
            None => String::new(),
        };
        let refresh = match self.refresh {
            Some(x) => x,
            None => 100,
        };
        let sig_figs = match self.sig_figs {
            Some(x) => x,
            None => -1,
        };
        let profile_file = match self.profile_file {
            Some(f) => f,
            None => PROFILE_FILE.to_owned(),
        };
        Output { file, diagnostic_file, refresh, sig_figs, profile_file }
    }
}

impl Data {
    /// A builder with every option unspecified.
    pub fn builder() -> (b: DataBuilder)
        ensures
            b@ is None,
    {
        DataBuilder::new()
    }
}

impl Random {
    /// A builder with every option unspecified.
    pub fn builder() -> (b: RandomBuilder)
        ensures
            b@ is None,
    {
        RandomBuilder::new()
    }
}

impl Output {
    /// A builder with every option unspecified.
    pub fn builder() -> (b: OutputBuilder)
        ensures
            b@ == no_output_choices(),
    {
        OutputBuilder::new()
    }
}

/// The number of threads: the one given, else the value of the
/// environment setting `env` read as a 32-bit integer, else `1`.
pub open spec fn num_threads_default(given: Option<i32>, env: Option<Seq<char>>) -> int {
    match given {
        Some(x) => x as int,
        None => match env {
            Some(t) => match spec_read_int(t, i32::MIN as int, i32::MAX as int) {
                IntRead::Value(v) => v as int,
                _ => 1,
            },
            None => 1,
        },
    }
}

/// The number of threads of a run: `given` if set, else the text `env`
/// of the variable `STAN_NUM_THREADS` if it reads as a 32-bit integer,
/// else `1`.
pub fn num_threads_or(given: Option<i32>, env: Option<&str>) -> (n: i32)
    ensures
        n as int == num_threads_default(given, match env {
            Some(t) => Some(t@),
            None => None,
        }),
{
    match given {
        Some(x) => x,
        None => match env {
            None => 1,
            Some(t) => {
                let cs = chars_of(t);
                match read_int(cs.as_slice(), i32::MIN as i128, i32::MAX as i128) {
                    IntRead::Value(v) => v as i32,
                    _ => 1,
                }
            },
        },
    }
}

} // verus!

verus! {

/// Position of the last `'.'` of `s`, if any.
pub open spec fn last_dot(s: Seq<char>) -> Option<int>
    decreases s.len(),
{
    if s.len() == 0 {
        None
    } else if s.last() == '.' {
        Some(s.len() - 1)
    } else {
        last_dot(s.drop_last())
    }
}

/// CmdStan's split of a file name at its last `'.'` into stem and
/// extension; without a `'.'`, the extension is `"csv"`.
pub open spec fn split_at_dot(s: Seq<char>) -> (Seq<char>, Seq<char>) {
    match last_dot(s) {
        Some(i) => (s.take(i), s.skip(i + 1)),
        None => (s, "csv"@),
    }
}

/// The file of the chain numbered `id`: `stem_id.ext`.
pub open spec fn chain_file(stem: Seq<char>, id: int, ext: Seq<char>) -> Seq<char> {
    stem + seq!['_'] + int_text(id) + seq!['.'] + ext
}

/// The files written for `file` by `num_chains` chains numbered from
/// `id`: one `stem.ext` for a single chain, else one `stem_k.ext` for
/// each chain `k`.
pub open spec fn chain_files(file: Seq<char>, id: int, num_chains: int) -> Seq<Seq<char>> {
    let (stem, ext) = split_at_dot(file);
    if num_chains == 1 {
        seq![stem + seq!['.'] + ext]
    } else {
        Seq::new(
            if num_chains > 0 {
                num_chains as nat
            } else {
                0
            },
            |k: int| chain_file(stem, id + k, ext),
        )
    }
}

/// The files of the single-path pathfinders: a `.csv` and a `.json`
/// for each path, numbered from `id` when there are several paths;
/// none unless they are saved.
pub open spec fn path_files(file: Seq<char>, id: int, num_paths: int, save: bool) -> Seq<
    Seq<char>,
> {
    let stem = split_at_dot(file).0;
    if !save {
        Seq::empty()
    } else if num_paths == 1 {
        seq![stem + ".csv"@, stem + ".json"@]
    } else {
        Seq::new(
            if num_paths > 0 {
                2 * num_paths as nat
            } else {
                0
            },
            |j: int|
                stem + "_path_"@ + int_text(id + j / 2) + if j % 2 == 0 {
                    ".csv"@
                } else {
                    ".json"@
                },
        )
    }
}

proof fn lemma_last_dot(s: Seq<char>)
    ensures
        last_dot(s) matches Some(i) ==> 0 <= i < s.len() && s[i] == '.' && forall|k: int|
            i < k < s.len() ==> s[k] != '.',
        last_dot(s) is None ==> forall|k: int| 0 <= k < s.len() ==> s[k] != '.',
    decreases s.len(),
{
    if s.len() > 0 && s.last() != '.' {
        lemma_last_dot(s.drop_last());
        assert(forall|k: int| 0 <= k < s.len() - 1 ==> s.drop_last()[k] == s[k]);
    }
}

/// Splits `file` at its last `'.'`, as CmdStan does.
pub fn rsplit_file_at_dot(file: &str) -> (r: (String, String))
    ensures
        (r.0@, r.1@) == split_at_dot(file@),
{
    let v = chars_of(file);
    let mut i: usize = v.len();
    while i > 0
        invariant
            v@ == file@,
            0 <= i <= v@.len(),
            forall|k: int| i <= k < v@.len() ==> v@[k] != '.',
        decreases i,
    {
        if v[i - 1] == '.' {
            proof {
                lemma_last_dot(file@);
                if let Some(j) = last_dot(file@) {
                    assert(j == i - 1);
                } else {
                    assert(false);
                }
            }
            let stem = crate::text::string_of_range(&v, 0, i - 1);
            let ext = crate::text::string_of_range(&v, i, v.len());
            proof {
                assert(v@.subrange(0, i - 1) =~= file@.take(i - 1));
                assert(v@.subrange(i as int, v@.len() as int) =~= file@.skip(i as int));
            }
            return (stem, ext);
        }
        i = i - 1;
    }
    proof {
        lemma_last_dot(file@);
        if let Some(j) = last_dot(file@) {
            assert(false);
        }
        reveal_strlit("csv");
    }
    (file.to_owned(), "csv".to_owned())
}

/// The files written for `file` by `num_chains` chains numbered from `id`.
#[verifier::loop_isolation(false)]
pub fn chain_files_of(file: &str, id: i32, num_chains: i32) -> (v: Vec<String>)
    requires
        num_chains != 1 ==> i32::MIN <= id + num_chains <= i32::MAX,
    ensures
        v.deep_view() == chain_files(file@, id as int, num_chains as int),
{
    let (stem, ext) = rsplit_file_at_dot(file);
    proof {
        reveal_strlit(".");
        reveal_strlit("_");
        assert("."@ =~= seq!['.']);
        assert("_"@ =~= seq!['_']);
    }
    let mut v: Vec<String> = Vec::new();
    if num_chains == 1 {
        let mut s = stem.clone();
        s.append(".");
        s.append(ext.as_str());
        v.push(s);
        proof {
            assert(v.deep_view() =~= chain_files(file@, id as int, num_chains as int));
        }
        return v;
    }
    let mut k: i32 = id;
    let end: i32 = id + num_chains;
    let ghost n: int = if num_chains > 0 { num_chains as int } else { 0 };
    while k < end
        invariant
            id <= k,
            num_chains > 0 ==> k <= end,
            num_chains <= 0 ==> k == id,
            end == id + num_chains,
            n == (if num_chains > 0 { num_chains as int } else { 0 }),
            (stem@, ext@) == split_at_dot(file@),
            v.deep_view().len() == k - id,
            forall|j: int| 0 <= j < k - id ==> #[trigger] v.deep_view()[j] == chain_file(stem@, id + j, ext@),
        decreases end - k,
    {
        let mut s = stem.clone();
        s.append("_");
        let digits = crate::text::int_string(k as i64);
        s.append(digits.as_str());
        s.append(".");
        s.append(ext.as_str());
        let ghost before = v.deep_view();
        proof {
            assert(s@ == chain_file(stem@, k as int, ext@));
        }
        let ghost sv = s@;
        v.push(s);
        proof {
            assert(v.deep_view() =~= before.push(sv));
        }
        k = k + 1;
    }
    proof {
        assert(v.deep_view().len() == n);
        assert(v.deep_view() =~= chain_files(file@, id as int, num_chains as int));
    }
    v
}

/// The files of the single-path pathfinders, numbered from `id`.
#[verifier::loop_isolation(false)]
pub fn path_files_of(file: &str, id: i32, num_paths: i32, save: bool) -> (v: Vec<String>)
    requires
        num_paths != 1 ==> i32::MIN <= id + num_paths <= i32::MAX,
    ensures
        v.deep_view() == path_files(file@, id as int, num_paths as int, save),
{
    let mut v: Vec<String> = Vec::new();
    if !save {
        proof {
            assert(v.deep_view() =~= path_files(file@, id as int, num_paths as int, save));
        }
        return v;
    }
    let (stem, _ext) = rsplit_file_at_dot(file);
    if num_paths == 1 {
        let mut s1 = stem.clone();
        let mut s2 = stem.clone();
        s1.append(".csv");
        s2.append(".json");
        let ghost a = s1@;
        let ghost b = s2@;
        v.push(s1);
        v.push(s2);
        proof {
            assert(v.deep_view() =~= path_files(file@, id as int, num_paths as int, save));
        }
        return v;
    }
    let mut k: i32 = id;
    let end: i32 = id + num_paths;
    while k < end
        invariant
            id <= k,
            num_paths > 0 ==> k <= end,
            num_paths <= 0 ==> k == id,
            end == id + num_paths,
            stem@ == split_at_dot(file@).0,
            v.deep_view().len() == 2 * (k - id),
            forall|j: int| 0 <= j < 2 * (k - id) ==> #[trigger] v.deep_view()[j] == stem@ + "_path_"@
                + int_text(id + j / 2) + if j % 2 == 0 {
                ".csv"@
            } else {
                ".json"@
            },
        decreases end - k,
    {
        let mut s1 = stem.clone();
        s1.append("_path_");
        let digits = crate::text::int_string(k as i64);
        s1.append(digits.as_str());
        let mut s2 = s1.clone();
        s1.append(".csv");
        s2.append(".json");
        let ghost before = v.deep_view();
        let ghost a = s1@;
        let ghost b = s2@;
        v.push(s1);
        v.push(s2);
        proof {
            assert(v.deep_view() =~= before.push(a).push(b));
            let j0 = 2 * (k - id);
            assert((j0) / 2 == k - id);
            assert((j0 + 1) / 2 == k - id);
            assert(j0 % 2 == 0);
            assert((j0 + 1) % 2 == 1);
        }
        k = k + 1;
    }
    proof {
        assert(v.deep_view() =~= path_files(file@, id as int, num_paths as int, save));
    }
    v
}

/// The diagnostic files of `num_chains` chains numbered from `id`, for
/// the diagnostic file `file`: none when `file` is empty.
pub fn diagnostic_files_of(file: &str, id: i32, num_chains: i32) -> (v: Vec<String>)
    requires
        file@.len() > 0 && num_chains != 1 ==> i32::MIN <= id + num_chains <= i32::MAX,
    ensures
        v.deep_view() == if file@.len() == 0 {
            Seq::<Seq<char>>::empty()
        } else {
            chain_files(file@, id as int, num_chains as int)
        },
{
    if file.unicode_len() == 0 {
        let v: Vec<String> = Vec::new();
        proof {
            assert(v.deep_view() =~= Seq::<Seq<char>>::empty());
        }
        v
    } else {
        chain_files_of(file, id, num_chains)
    }
}

/// `f` is `stem`, `sep`, a number that reads back as `n`, and `tail`.
pub open spec fn numbered(f: Seq<char>, stem: Seq<char>, sep: Seq<char>, n: int, tail: Seq<char>) -> bool {
    exists|t: Seq<char>| f == stem + sep + t + tail && int_literal(t) == Some(n)
}

/// The files of several chains are one per chain, in order: the `k`-th
/// is the stem of `file`, `_`, a number that reads back as `id + k`, `.`
/// and the extension of `file`. A single chain writes `stem.ext`.
pub proof fn law_chain_files_numbered(file: Seq<char>, id: int, num_chains: int)
    ensures
        num_chains == 1 ==> chain_files(file, id, num_chains) == seq![
            split_at_dot(file).0 + seq!['.'] + split_at_dot(file).1,
        ],
        num_chains != 1 ==> chain_files(file, id, num_chains).len() == if num_chains > 0 {
            num_chains
        } else {
            0
        },
        num_chains != 1 ==> forall|k: int|
            0 <= k < chain_files(file, id, num_chains).len() ==> #[trigger] numbered(
                chain_files(file, id, num_chains)[k],
                split_at_dot(file).0,
                seq!['_'],
                id + k,
                seq!['.'] + split_at_dot(file).1,
            ),
{
    let v = chain_files(file, id, num_chains);
    let stem = split_at_dot(file).0;
    let ext = split_at_dot(file).1;
    if num_chains != 1 {
        assert forall|k: int| 0 <= k < v.len() implies #[trigger] numbered(
            v[k],
            stem,
            seq!['_'],
            id + k,
            seq!['.'] + ext,
        ) by {
            lemma_int_text_reads_back(id + k);
            let t = int_text(id + k);
            assert(v[k] == stem + seq!['_'] + t + (seq!['.'] + ext));
        }
    }
}

/// The saved files of several single-path pathfinders are two per path,
/// in order: for the `k`-th path, the stem of `file`, `_path_`, a number
/// that reads back as `id + k`, and then `.csv`, resp. `.json`. A single
/// path writes `stem.csv` and `stem.json`; nothing is written unless the
/// paths are saved.
pub proof fn law_path_files_numbered(file: Seq<char>, id: int, num_paths: int, save: bool)
    ensures
        !save ==> path_files(file, id, num_paths, save).len() == 0,
        save && num_paths == 1 ==> path_files(file, id, num_paths, save) == seq![
            split_at_dot(file).0 + ".csv"@,
            split_at_dot(file).0 + ".json"@,
        ],
        save && num_paths != 1 ==> path_files(file, id, num_paths, save).len() == if num_paths
            > 0 {
            2 * num_paths
        } else {
            0
        },
        save && num_paths != 1 ==> forall|k: int|
            0 <= k < num_paths ==> #[trigger] numbered(
                path_files(file, id, num_paths, save)[2 * k],
                split_at_dot(file).0,
                "_path_"@,
                id + k,
                ".csv"@,
            ) && numbered(
                path_files(file, id, num_paths, save)[2 * k + 1],
                split_at_dot(file).0,
                "_path_"@,
                id + k,
                ".json"@,
            ),
{
    let v = path_files(file, id, num_paths, save);
    let stem = split_at_dot(file).0;
    if save && num_paths != 1 {
        assert forall|k: int| 0 <= k < num_paths implies #[trigger] numbered(
            v[2 * k],
            stem,
            "_path_"@,
            id + k,
            ".csv"@,
        ) && numbered(v[2 * k + 1], stem, "_path_"@, id + k, ".json"@) by {
            lemma_int_text_reads_back(id + k);
            assert((2 * k) / 2 == k);
            assert((2 * k + 1) / 2 == k);
            assert((2 * k) % 2 == 0);
            assert((2 * k + 1) % 2 == 1);
            assert(v[2 * k] == stem + "_path_"@ + int_text(id + k) + ".csv"@);
            assert(v[2 * k + 1] == stem + "_path_"@ + int_text(id + k) + ".json"@);
        }
    }
}

} // verus!
