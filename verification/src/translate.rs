//! Rendering of option trees in the command line language of CmdStan:
//! a list of arguments, a one-line statement, and an indented tree.
use vstd::prelude::*;

verus! {

/// Mathematical model of an option tree.
pub enum Node {
    /// A valued option, `key=value`.
    Value(Seq<char>, Seq<char>),
    /// A product of options, introduced by its declaration if it has one.
    Group(Option<Seq<char>>, Seq<Node>),
    /// A chosen variant `decl=name`, followed by the variant's options.
    Choice(Seq<char>, Seq<char>, Seq<Node>),
}

/// The parts `ps` joined by `sep`.
pub open spec fn join(ps: Seq<Seq<char>>, sep: Seq<char>) -> Seq<char>
    decreases ps.len(),
{
    if ps.len() == 0 {
        Seq::empty()
    } else if ps.len() == 1 {
        ps[0]
    } else {
        join(ps.drop_last(), sep) + sep + ps.last()
    }
}

/// `n` spaces.
pub open spec fn spaces(n: nat) -> Seq<char> {
    Seq::new(n, |_i: int| ' ')
}

/// The command line arguments of `a`.
pub open spec fn node_args(a: Node) -> Seq<Seq<char>>
    decreases a,
{
    match a {
        Node::Value(k, v) => seq![k + seq!['='] + v],
        Node::Group(d, fs) => match d {
            Some(d) => seq![d] + fields_args(fs),
            None => fields_args(fs),
        },
        Node::Choice(d, name, fs) => seq![d + seq!['='] + name] + fields_args(fs),
    }
}

/// The arguments of the options `fs`, one after the other.
pub open spec fn fields_args(fs: Seq<Node>) -> Seq<Seq<char>>
    decreases fs,
{
    if fs.len() == 0 {
        Seq::empty()
    } else {
        fields_args(fs.drop_last()) + node_args(fs[fs.len() - 1])
    }
}

/// The statement of `a`: its parts joined by single spaces. A
/// declaration is always followed by a space, so a declared product
/// without options writes its declaration and one space.
pub open spec fn node_stmt(a: Node) -> Seq<char>
    decreases a,
{
    match a {
        Node::Value(k, v) => k + seq!['='] + v,
        Node::Group(d, fs) => match d {
            Some(d) => if fs.len() == 0 {
                d + seq![' ']
            } else {
                join(seq![d] + fields_stmts(fs), seq![' '])
            },
            None => join(fields_stmts(fs), seq![' ']),
        },
        Node::Choice(d, name, fs) => join(
            seq![d + seq!['='] + name] + fields_stmts(fs),
            seq![' '],
        ),
    }
}

/// The statements of the options `fs`.
pub open spec fn fields_stmts(fs: Seq<Node>) -> Seq<Seq<char>>
    decreases fs,
{
    if fs.len() == 0 {
        Seq::empty()
    } else {
        fields_stmts(fs.drop_last()).push(node_stmt(fs[fs.len() - 1]))
    }
}

/// The tree form of `a`, each line indented by `n` spaces more than
/// the nesting that leads to it. A declaration is always followed by a
/// line break, so a declared product without options writes its
/// declaration and a line break.
pub open spec fn node_tree(a: Node, n: nat) -> Seq<char>
    decreases a,
{
    match a {
        Node::Value(k, v) => spaces(n) + k + seq![' ', '=', ' '] + v,
        Node::Group(d, fs) => match d {
            Some(d) => if fs.len() == 0 {
                spaces(n) + d + seq!['\n']
            } else {
                join(seq![spaces(n) + d] + fields_trees(fs, n + 2), seq!['\n'])
            },
            None => join(fields_trees(fs, n), seq!['\n']),
        },
        Node::Choice(d, name, fs) => join(
            seq![spaces(n) + d + seq![' ', '=', ' '] + name, spaces(n + 2) + name]
                + fields_trees(fs, n + 4),
            seq!['\n'],
        ),
    }
}

/// The tree forms of the options `fs`, each at offset `n`.
pub open spec fn fields_trees(fs: Seq<Node>, n: nat) -> Seq<Seq<char>>
    decreases fs,
{
    if fs.len() == 0 {
        Seq::empty()
    } else {
        fields_trees(fs.drop_last(), n).push(node_tree(fs[fs.len() - 1], n))
    }
}

/// Every product holds at least one option.
pub open spec fn node_wf(a: Node) -> bool
    decreases a,
{
    match a {
        Node::Value(_, _) => true,
        Node::Group(_, fs) => fs.len() > 0 && fields_wf(fs),
        Node::Choice(_, _, fs) => fields_wf(fs),
    }
}

/// Every option of `fs` is well formed.
pub open spec fn fields_wf(fs: Seq<Node>) -> bool
    decreases fs,
{
    if fs.len() == 0 {
        true
    } else {
        fields_wf(fs.drop_last()) && node_wf(fs[fs.len() - 1])
    }
}

/// Joining two non-empty lists of parts puts one separator between them.
pub proof fn lemma_join_append(xs: Seq<Seq<char>>, ys: Seq<Seq<char>>, sep: Seq<char>)
    requires
        xs.len() > 0,
        ys.len() > 0,
    ensures
        join(xs + ys, sep) == join(xs, sep) + sep + join(ys, sep),
    decreases ys.len(),
{
    if ys.len() == 1 {
        assert((xs + ys).drop_last() =~= xs);
    } else {
        lemma_join_append(xs, ys.drop_last(), sep);
        assert((xs + ys).drop_last() =~= xs + ys.drop_last());
        assert((xs + ys).last() == ys.last());
    }
}

/// Joining a list followed by one more part.
pub proof fn lemma_join_push(xs: Seq<Seq<char>>, x: Seq<char>, sep: Seq<char>)
    ensures
        join(xs.push(x), sep) == if xs.len() == 0 {
            x
        } else {
            join(xs, sep) + sep + x
        },
{
    assert(xs.push(x).drop_last() =~= xs);
}

proof fn lemma_node_args_stmt(a: Node)
    requires
        node_wf(a),
    ensures
        node_args(a).len() > 0,
        node_stmt(a) == join(node_args(a), seq![' ']),
    decreases a,
{
    match a {
        Node::Value(k, v) => {},
        Node::Group(d, fs) => {
            lemma_fields_args_stmts(fs);
            match d {
                Some(d) => {
                    if fs.len() > 0 {
                        lemma_join_append(seq![d], fields_stmts(fs), seq![' ']);
                        lemma_join_append(seq![d], fields_args(fs), seq![' ']);
                    } else {
                        assert(seq![d] + fields_stmts(fs) =~= seq![d]);
                        assert(seq![d] + fields_args(fs) =~= seq![d]);
                    }
                },
                None => {},
            }
        },
        Node::Choice(d, name, fs) => {
            lemma_fields_args_stmts(fs);
            let h = d + seq!['='] + name;
            if fs.len() > 0 {
                lemma_join_append(seq![h], fields_stmts(fs), seq![' ']);
                lemma_join_append(seq![h], fields_args(fs), seq![' ']);
            } else {
                assert(seq![h] + fields_stmts(fs) =~= seq![h]);
                assert(seq![h] + fields_args(fs) =~= seq![h]);
            }
        },
    }
}

proof fn lemma_fields_args_stmts(fs: Seq<Node>)
    requires
        fields_wf(fs),
    ensures
        fs.len() > 0 ==> fields_args(fs).len() > 0,
        fields_stmts(fs).len() == fs.len(),
        join(fields_stmts(fs), seq![' ']) == join(fields_args(fs), seq![' ']),
    decreases fs,
{
    if fs.len() > 0 {
        let p = fs.drop_last();
        let l = fs[fs.len() - 1];
        lemma_fields_args_stmts(p);
        lemma_node_args_stmt(l);
        lemma_join_push(fields_stmts(p), node_stmt(l), seq![' ']);
        if p.len() > 0 {
            lemma_join_append(fields_args(p), node_args(l), seq![' ']);
        } else {
            assert(fields_args(p) + node_args(l) =~= node_args(l));
        }
    }
}

/// The statement of a well-formed tree is its arguments joined by single spaces.
pub proof fn law_stmt_is_joined_args(a: Node)
    requires
        node_wf(a),
    ensures
        node_stmt(a) == join(node_args(a), seq![' ']),
{
    lemma_node_args_stmt(a);
}

/// `s` holds no line break.
pub open spec fn one_line(s: Seq<char>) -> bool {
    forall|i: int| 0 <= i < s.len() ==> s[i] != '\n'
}

/// No key, value, declaration or variant name of `a` holds a line break.
pub open spec fn node_one_line(a: Node) -> bool
    decreases a,
{
    match a {
        Node::Value(k, v) => one_line(k) && one_line(v),
        Node::Group(d, fs) => (d matches Some(x) ==> one_line(x)) && fields_one_line(fs),
        Node::Choice(d, name, fs) => one_line(d) && one_line(name) && fields_one_line(fs),
    }
}

/// No option of `fs` holds a line break.
pub open spec fn fields_one_line(fs: Seq<Node>) -> bool
    decreases fs,
{
    if fs.len() == 0 {
        true
    } else {
        fields_one_line(fs.drop_last()) && node_one_line(fs[fs.len() - 1])
    }
}

/// `s` with `n` spaces after each of its line breaks.
pub open spec fn shift_lines(s: Seq<char>, n: nat) -> Seq<char>
    decreases s.len(),
{
    if s.len() == 0 {
        s
    } else {
        shift_lines(s.drop_last(), n) + if s.last() == '\n' {
            seq!['\n'] + spaces(n)
        } else {
            seq![s.last()]
        }
    }
}

/// `s` with each of its lines indented by `n` more spaces.
pub open spec fn indent_lines(s: Seq<char>, n: nat) -> Seq<char> {
    spaces(n) + shift_lines(s, n)
}

/// Each of the texts `ps` indented by `n` more spaces.
pub open spec fn indent_each(ps: Seq<Seq<char>>, n: nat) -> Seq<Seq<char>> {
    Seq::new(ps.len(), |i: int| indent_lines(ps[i], n))
}

proof fn lemma_shift_append(a: Seq<char>, b: Seq<char>, n: nat)
    ensures
        shift_lines(a + b, n) == shift_lines(a, n) + shift_lines(b, n),
    decreases b.len(),
{
    if b.len() == 0 {
        assert(a + b =~= a);
        assert(shift_lines(a, n) + shift_lines(b, n) =~= shift_lines(a, n));
    } else {
        let c = b.drop_last();
        assert((a + b).drop_last() =~= a + c);
        assert((a + b).last() == b.last());
        lemma_shift_append(a, c, n);
        let t = if b.last() == '\n' {
            seq!['\n'] + spaces(n)
        } else {
            seq![b.last()]
        };
        assert(shift_lines(a + b, n) == shift_lines(a + c, n) + t);
        assert(shift_lines(b, n) == shift_lines(c, n) + t);
        assert(shift_lines(a, n) + shift_lines(c, n) + t =~= shift_lines(a, n) + (shift_lines(c, n)
            + t));
    }
}

proof fn lemma_shift_one_line(s: Seq<char>, n: nat)
    requires
        one_line(s),
    ensures
        shift_lines(s, n) == s,
    decreases s.len(),
{
    if s.len() > 0 {
        assert(one_line(s.drop_last()));
        lemma_shift_one_line(s.drop_last(), n);
        assert(s.drop_last() + seq![s.last()] =~= s);
    }
}

proof fn lemma_spaces_add(n: nat, m: nat)
    ensures
        spaces(n) + spaces(m) == spaces(n + m),
{
    assert(spaces(n) + spaces(m) =~= spaces(n + m));
}

/// A line of `n + m` spaces followed by the one-line text `s` is that line
/// at `m` spaces indented by `n`.
proof fn lemma_indent_line(s: Seq<char>, n: nat, m: nat)
    requires
        one_line(s),
    ensures
        spaces(m + n) + s == indent_lines(spaces(m) + s, n),
{
    let t = spaces(m) + s;
    assert(one_line(t)) by {
        assert forall|i: int| 0 <= i < t.len() implies t[i] != '\n' by {
            if i >= m {
                assert(t[i] == s[i - m]);
            }
        }
    }
    lemma_shift_one_line(t, n);
    lemma_spaces_add(n, m);
    assert(spaces(n) + (spaces(m) + s) =~= spaces(n + m) + s);
}

proof fn lemma_one_line_concat(a: Seq<char>, b: Seq<char>)
    requires
        one_line(a),
        one_line(b),
    ensures
        one_line(a + b),
{
    assert forall|i: int| 0 <= i < (a + b).len() implies (a + b)[i] != '\n' by {
        if i >= a.len() {
            assert((a + b)[i] == b[i - a.len()]);
        }
    }
}

/// Indenting lines joined by line breaks indents each of them.
proof fn lemma_indent_join(ps: Seq<Seq<char>>, n: nat)
    requires
        ps.len() > 0,
    ensures
        indent_lines(join(ps, seq!['\n']), n) == join(indent_each(ps, n), seq!['\n']),
    decreases ps.len(),
{
    let nl = seq!['\n'];
    if ps.len() == 1 {
        assert(indent_each(ps, n).len() == 1);
    } else {
        let q = ps.drop_last();
        let l = ps.last();
        lemma_indent_join(q, n);
        lemma_shift_append(join(q, nl) + nl, l, n);
        lemma_shift_append(join(q, nl), nl, n);
        assert(nl.drop_last() =~= Seq::<char>::empty());
        assert(nl.last() == '\n');
        assert(shift_lines(nl.drop_last(), n) == Seq::<char>::empty());
        assert(shift_lines(nl, n) == shift_lines(nl.drop_last(), n) + (nl + spaces(n)));
        assert(shift_lines(nl, n) =~= nl + spaces(n));
        assert(indent_each(ps, n).drop_last() =~= indent_each(q, n));
        assert(indent_each(ps, n).last() == indent_lines(l, n));
        assert(indent_lines(join(ps, nl), n) =~= indent_lines(join(q, nl), n) + nl + indent_lines(
            l,
            n,
        ));
    }
}

proof fn lemma_node_tree_shift(a: Node, n: nat, m: nat)
    requires
        node_wf(a),
        node_one_line(a),
    ensures
        node_tree(a, m + n) == indent_lines(node_tree(a, m), n),
    decreases a,
{
    let nl = seq!['\n'];
    let eq = seq![' ', '=', ' '];
    assert(one_line(eq));
    match a {
        Node::Value(k, v) => {
            lemma_one_line_concat(k, eq);
            lemma_one_line_concat(k + eq, v);
            lemma_indent_line(k + eq + v, n, m);
            assert(spaces(m + n) + k + eq + v =~= spaces(m + n) + (k + eq + v));
            assert(spaces(m) + k + eq + v =~= spaces(m) + (k + eq + v));
        },
        Node::Group(d, fs) => {
            lemma_fields_trees_shift(fs, n, m + 2);
            assert(m + 2 + n == (m + n) + 2);
            match d {
                Some(d) => {
                    let ps = seq![spaces(m) + d] + fields_trees(fs, m + 2);
                    lemma_indent_join(ps, n);
                    lemma_indent_line(d, n, m);
                    assert(indent_each(ps, n) =~= seq![spaces(m + n) + d] + fields_trees(
                        fs,
                        (m + n) + 2,
                    ));
                },
                None => {
                    lemma_fields_trees_shift(fs, n, m);
                    lemma_indent_join(fields_trees(fs, m), n);
                },
            }
        },
        Node::Choice(d, name, fs) => {
            lemma_fields_trees_shift(fs, n, m + 4);
            assert(m + 4 + n == (m + n) + 4);
            lemma_one_line_concat(d, eq);
            lemma_one_line_concat(d + eq, name);
            lemma_indent_line(d + eq + name, n, m);
            lemma_indent_line(name, n, m + 2);
            assert(m + 2 + n == (m + n) + 2);
            let ps = seq![spaces(m) + d + eq + name, spaces(m + 2) + name] + fields_trees(fs, m + 4);
            lemma_indent_join(ps, n);
            assert(spaces(m) + d + eq + name =~= spaces(m) + (d + eq + name));
            assert(spaces(m + n) + d + eq + name =~= spaces(m + n) + (d + eq + name));
            assert(indent_each(ps, n) =~= seq![
                spaces(m + n) + d + eq + name,
                spaces((m + n) + 2) + name,
            ] + fields_trees(fs, (m + n) + 4));
        },
    }
}

proof fn lemma_fields_trees_shift(fs: Seq<Node>, n: nat, m: nat)
    requires
        fields_wf(fs),
        fields_one_line(fs),
    ensures
        fields_trees(fs, m).len() == fs.len(),
        fields_trees(fs, m + n) == indent_each(fields_trees(fs, m), n),
    decreases fs,
{
    if fs.len() == 0 {
        assert(indent_each(fields_trees(fs, m), n) =~= fields_trees(fs, m + n));
    } else {
        let p = fs.drop_last();
        let l = fs[fs.len() - 1];
        lemma_fields_trees_shift(p, n, m);
        lemma_node_tree_shift(l, n, m);
        assert(fields_trees(fs, m + n) =~= indent_each(fields_trees(fs, m), n));
    }
}

/// The tree form of a well-formed tree, none of whose texts holds a line
/// break, at offset `n` is its tree form at offset 0 with every line
/// indented by `n` more spaces.
pub proof fn law_tree_offset(a: Node, n: nat)
    requires
        node_wf(a),
        node_one_line(a),
    ensures
        node_tree(a, n) == indent_lines(node_tree(a, 0), n),
{
    lemma_node_tree_shift(a, n, 0);
}

} // verus!

verus! {

broadcast use vstd::string::group_string_axioms;

/// An option tree, ready to be written in the command line language.
#[derive(Debug)]
pub enum Arg {
    /// A valued option, written `key=value`.
    Value { key: String, value: String },
    /// A product of options, introduced by its declaration if it has one.
    Group { decl: Option<String>, fields: Vec<Arg> },
    /// A chosen variant, written `key=name`, followed by the variant's options.
    Choice { key: String, name: String, fields: Vec<Arg> },
}

/// The model of an option tree.
pub open spec fn arg_node(a: Arg) -> Node
    decreases a,
{
    match a {
        Arg::Value { key, value } => Node::Value(key@, value@),
        Arg::Group { decl, fields } => Node::Group(
            match decl {
                Some(d) => Some(d@),
                None => None,
            },
            arg_nodes(fields@),
        ),
        Arg::Choice { key, name, fields } => Node::Choice(key@, name@, arg_nodes(fields@)),
    }
}

/// The models of the option trees `fs`.
pub open spec fn arg_nodes(fs: Seq<Arg>) -> Seq<Node>
    decreases fs,
{
    if fs.len() == 0 {
        Seq::empty()
    } else {
        arg_nodes(fs.drop_last()).push(arg_node(fs[fs.len() - 1]))
    }
}

impl View for Arg {
    type V = Node;

    open spec fn view(&self) -> Node {
        arg_node(*self)
    }
}

/// Nesting depth of a tree.
pub open spec fn node_depth(a: Node) -> nat
    decreases a,
{
    match a {
        Node::Value(_, _) => 0,
        Node::Group(_, fs) => 1 + fields_depth(fs),
        Node::Choice(_, _, fs) => 1 + fields_depth(fs),
    }
}

/// Largest nesting depth among `fs`.
pub open spec fn fields_depth(fs: Seq<Node>) -> nat
    decreases fs,
{
    if fs.len() == 0 {
        0
    } else {
        let a = fields_depth(fs.drop_last());
        let b = node_depth(fs[fs.len() - 1]);
        if a < b {
            b
        } else {
            a
        }
    }
}

proof fn lemma_arg_nodes_take(fs: Seq<Arg>, i: int)
    requires
        0 <= i < fs.len(),
    ensures
        arg_nodes(fs.take(i + 1)) == arg_nodes(fs.take(i)).push(arg_node(fs[i])),
{
    assert(fs.take(i + 1).drop_last() =~= fs.take(i));
}

pub proof fn lemma_arg_nodes_len(fs: Seq<Arg>)
    ensures
        arg_nodes(fs).len() == fs.len(),
        forall|k: int| 0 <= k < fs.len() ==> #[trigger] arg_nodes(fs)[k] == arg_node(fs[k]),
    decreases fs.len(),
{
    if fs.len() > 0 {
        lemma_arg_nodes_len(fs.drop_last());
    }
}

proof fn lemma_fields_depth_bound(fs: Seq<Node>, k: int)
    requires
        0 <= k < fs.len(),
    ensures
        node_depth(fs[k]) <= fields_depth(fs),
    decreases fs.len(),
{
    if k < fs.len() - 1 {
        lemma_fields_depth_bound(fs.drop_last(), k);
        assert(fs.drop_last()[k] == fs[k]);
    }
}

proof fn lemma_take_full<A>(s: Seq<A>)
    ensures
        s.take(s.len() as int) == s,
{
    assert(s.take(s.len() as int) =~= s);
}

/// Appends `n` spaces to `s`.
fn push_spaces(s: &mut String, n: usize)
    ensures
        final(s)@ == old(s)@ + spaces(n as nat),
{
    let mut k: usize = 0;
    while k < n
        invariant
            0 <= k <= n,
            s@ == old(s)@ + spaces(k as nat),
        decreases n - k,
    {
        proof {
            reveal_strlit(" ");
        }
        s.append(" ");
        proof {
            assert(spaces((k + 1) as nat) =~= spaces(k as nat) + seq![' ']);
        }
        k = k + 1;
    }
}

proof fn lemma_fields_lens(fs: Seq<Node>, n: nat)
    ensures
        fields_stmts(fs).len() == fs.len(),
        fields_trees(fs, n).len() == fs.len(),
    decreases fs.len(),
{
    if fs.len() > 0 {
        lemma_fields_lens(fs.drop_last(), n);
    }
}

proof fn lemma_step_parts(
    heads: Seq<Seq<char>>,
    fields: Seq<Arg>,
    i: int,
    n: nat,
)
    requires
        0 <= i < fields.len(),
    ensures
        heads + fields_stmts(arg_nodes(fields.take(i + 1))) == (heads + fields_stmts(
            arg_nodes(fields.take(i)),
        )).push(node_stmt(arg_node(fields[i]))),
        heads + fields_trees(arg_nodes(fields.take(i + 1)), n) == (heads + fields_trees(
            arg_nodes(fields.take(i)),
            n,
        )).push(node_tree(arg_node(fields[i]), n)),
        (heads + fields_stmts(arg_nodes(fields.take(i)))).len() == heads.len() + i,
        (heads + fields_trees(arg_nodes(fields.take(i)), n)).len() == heads.len() + i,
{
    lemma_arg_nodes_take(fields, i);
    let p = arg_nodes(fields.take(i));
    let q = arg_nodes(fields.take(i + 1));
    assert(q.drop_last() =~= p);
    lemma_arg_nodes_len(fields.take(i));
    lemma_fields_lens(p, n);
    assert(heads + fields_stmts(q) =~= (heads + fields_stmts(p)).push(node_stmt(arg_node(fields[i]))));
    assert(heads + fields_trees(q, n) =~= (heads + fields_trees(p, n)).push(
        node_tree(arg_node(fields[i]), n),
    ));
}

proof fn lemma_child_depth(fields: Seq<Arg>, i: int)
    requires
        0 <= i < fields.len(),
    ensures
        node_depth(arg_node(fields[i])) <= fields_depth(arg_nodes(fields)),
{
    lemma_arg_nodes_len(fields);
    lemma_fields_depth_bound(arg_nodes(fields), i);
}

impl Arg {
    /// Appends the command line arguments of `self` to `v`.
    #[verifier::loop_isolation(false)]
    pub fn append_args(&self, v: &mut Vec<String>)
        ensures
            final(v).deep_view() == old(v).deep_view() + node_args(self@),
        decreases self,
    {
        match self {
            Arg::Value { key, value } => {
                let mut s = key.clone();
                proof {
                    reveal_strlit("=");
                }
                s.append("=");
                s.append(value.as_str());
                proof {
                    assert("="@ =~= seq!['=']);
                    assert(s@ =~= key@ + seq!['='] + value@);
                }
                let ghost sv = s@;
                v.push(s);
                proof {
                    assert(v.deep_view() =~= old(v).deep_view().push(sv));
                    assert(v.deep_view() =~= old(v).deep_view() + node_args(self@));
                }
            },
            Arg::Group { decl, fields } => {
                match decl {
                    Some(d) => {
                        let dc = d.clone();
                        v.push(dc);
                        proof {
                            assert(v.deep_view() =~= old(v).deep_view().push(d@));
                        }
                    },
                    None => {},
                }
                let ghost head = v.deep_view();
                proof {
                    assert(fields@.take(0) =~= Seq::<Arg>::empty());
                }
                let mut i: usize = 0;
                while i < fields.len()
                    invariant
                        0 <= i <= fields@.len(),
                        v.deep_view() == head + fields_args(arg_nodes(fields@.take(i as int))),
                    decreases fields@.len() - i,
                {
                    proof {
                        assert(decreases_to!(self => self->Group_fields));
                        assert(decreases_to!(fields => fields@));
                        assert(decreases_to!(fields@ => fields@[i as int]));
                        lemma_arg_nodes_take(fields@, i as int);
                    }
                    fields[i].append_args(v);
                    proof {
                        let p = arg_nodes(fields@.take(i as int));
                        let q = arg_nodes(fields@.take(i + 1));
                        assert(q.drop_last() =~= p);
                        assert(v.deep_view() =~= head + fields_args(q));
                    }
                    i = i + 1;
                }
                proof {
                    lemma_take_full(fields@);
                    assert(v.deep_view() =~= old(v).deep_view() + node_args(self@));
                }
            },
            Arg::Choice { key, name, fields } => {
                let mut s = key.clone();
                proof {
                    reveal_strlit("=");
                }
                s.append("=");
                s.append(name.as_str());
                proof {
                    assert("="@ =~= seq!['=']);
                    assert(s@ =~= key@ + seq!['='] + name@);
                }
                let ghost sv = s@;
                v.push(s);
                let ghost head = v.deep_view();
                proof {
                    assert(head =~= old(v).deep_view().push(sv));
                }
                proof {
                    assert(fields@.take(0) =~= Seq::<Arg>::empty());
                }
                let mut i: usize = 0;
                while i < fields.len()
                    invariant
                        0 <= i <= fields@.len(),
                        v.deep_view() == head + fields_args(arg_nodes(fields@.take(i as int))),
                    decreases fields@.len() - i,
                {
                    proof {
                        assert(decreases_to!(self => self->Choice_fields));
                        assert(decreases_to!(fields => fields@));
                        assert(decreases_to!(fields@ => fields@[i as int]));
                        lemma_arg_nodes_take(fields@, i as int);
                    }
                    fields[i].append_args(v);
                    proof {
                        let p = arg_nodes(fields@.take(i as int));
                        let q = arg_nodes(fields@.take(i + 1));
                        assert(q.drop_last() =~= p);
                        assert(v.deep_view() =~= head + fields_args(q));
                    }
                    i = i + 1;
                }
                proof {
                    lemma_take_full(fields@);
                    assert(v.deep_view() =~= old(v).deep_view() + node_args(self@));
                }
            },
        }
    }

    /// Appends the statement of `self` to `s`.
    #[verifier::loop_isolation(false)]
    pub fn write_stmt(&self, s: &mut String)
        ensures
            final(s)@ == old(s)@ + node_stmt(self@),
        decreases self,
    {
        proof {
            reveal_strlit("=");
            reveal_strlit(" ");
            assert("="@ =~= seq!['=']);
            assert(" "@ =~= seq![' ']);
        }
        match self {
            Arg::Value { key, value } => {
                s.append(key.as_str());
                s.append("=");
                s.append(value.as_str());
                proof {
                    assert(s@ =~= old(s)@ + node_stmt(self@));
                }
            },
            Arg::Group { decl, fields } => {
                let ghost heads: Seq<Seq<char>> = match decl {
                    Some(d) => seq![d@],
                    None => Seq::empty(),
                };
                let has_head = match decl {
                    Some(d) => {
                        s.append(d.as_str());
                        true
                    },
                    None => false,
                };
                proof {
                    assert(fields@.take(0) =~= Seq::<Arg>::empty());
                    assert(heads + fields_stmts(arg_nodes(fields@.take(0))) =~= heads);
                    assert(s@ =~= old(s)@ + join(heads, seq![' ']));
                }
                let mut i: usize = 0;
                while i < fields.len()
                    invariant
                        0 <= i <= fields@.len(),
                        s@ == old(s)@ + join(
                            heads + fields_stmts(arg_nodes(fields@.take(i as int))),
                            seq![' '],
                        ),
                    decreases fields@.len() - i,
                {
                    proof {
                        assert(decreases_to!(self => self->Group_fields));
                        assert(decreases_to!(fields => fields@));
                        assert(decreases_to!(fields@ => fields@[i as int]));
                        lemma_step_parts(heads, fields@, i as int, 0);
                        lemma_join_push(
                            heads + fields_stmts(arg_nodes(fields@.take(i as int))),
                            node_stmt(arg_node(fields@[i as int])),
                            seq![' '],
                        );
                    }
                    if has_head || i > 0 {
                        s.append(" ");
                    }
                    fields[i].write_stmt(s);
                    proof {
                        assert(s@ =~= old(s)@ + join(
                            heads + fields_stmts(arg_nodes(fields@.take(i + 1))),
                            seq![' '],
                        ));
                    }
                    i = i + 1;
                }
                proof {
                    lemma_take_full(fields@);
                    lemma_arg_nodes_len(fields@);
                }
                if has_head && fields.len() == 0 {
                    s.append(" ");
                    proof {
                        assert(heads + fields_stmts(arg_nodes(fields@)) =~= heads);
                    }
                }
            },
            Arg::Choice { key, name, fields } => {
                s.append(key.as_str());
                s.append("=");
                s.append(name.as_str());
                let ghost heads: Seq<Seq<char>> = seq![key@ + seq!['='] + name@];
                proof {
                    assert(fields@.take(0) =~= Seq::<Arg>::empty());
                    assert(heads + fields_stmts(arg_nodes(fields@.take(0))) =~= heads);
                    assert(s@ =~= old(s)@ + join(heads, seq![' ']));
                }
                let mut i: usize = 0;
                while i < fields.len()
                    invariant
                        0 <= i <= fields@.len(),
                        s@ == old(s)@ + join(
                            heads + fields_stmts(arg_nodes(fields@.take(i as int))),
                            seq![' '],
                        ),
                    decreases fields@.len() - i,
                {
                    proof {
                        assert(decreases_to!(self => self->Choice_fields));
                        assert(decreases_to!(fields => fields@));
                        assert(decreases_to!(fields@ => fields@[i as int]));
                        lemma_step_parts(heads, fields@, i as int, 0);
                        lemma_join_push(
                            heads + fields_stmts(arg_nodes(fields@.take(i as int))),
                            node_stmt(arg_node(fields@[i as int])),
                            seq![' '],
                        );
                    }
                    s.append(" ");
                    fields[i].write_stmt(s);
                    proof {
                        assert(s@ =~= old(s)@ + join(
                            heads + fields_stmts(arg_nodes(fields@.take(i + 1))),
                            seq![' '],
                        ));
                    }
                    i = i + 1;
                }
                proof {
                    lemma_take_full(fields@);
                }
            },
        }
    }

    /// Appends the tree form of `self`, at offset `n`, to `s`.
    #[verifier::loop_isolation(false)]
    pub fn write_tree_offset(&self, n: usize, s: &mut String)
        requires
            n + 4 * node_depth(self@) <= usize::MAX,
        ensures
            final(s)@ == old(s)@ + node_tree(self@, n as nat),
        decreases self,
    {
        proof {
            reveal_strlit(" = ");
            reveal_strlit("\n");
            assert(" = "@ =~= seq![' ', '=', ' ']);
            assert("\n"@ =~= seq!['\n']);
        }
        match self {
            Arg::Value { key, value } => {
                push_spaces(s, n);
                s.append(key.as_str());
                s.append(" = ");
                s.append(value.as_str());
                proof {
                    assert(s@ =~= old(s)@ + node_tree(self@, n as nat));
                }
            },
            Arg::Group { decl, fields } => {
                let ghost fs = arg_nodes(fields@);
                let m: usize = match decl {
                    Some(_) => n + 2,
                    None => n,
                };
                let ghost heads: Seq<Seq<char>> = match decl {
                    Some(d) => seq![spaces(n as nat) + d@],
                    None => Seq::empty(),
                };
                let has_head = match decl {
                    Some(d) => {
                        push_spaces(s, n);
                        s.append(d.as_str());
                        true
                    },
                    None => false,
                };
                proof {
                    assert(fields@.take(0) =~= Seq::<Arg>::empty());
                    assert(heads + fields_trees(arg_nodes(fields@.take(0)), m as nat) =~= heads);
                    assert(s@ =~= old(s)@ + join(heads, seq!['\n']));
                }
                let mut i: usize = 0;
                while i < fields.len()
                    invariant
                        0 <= i <= fields@.len(),
                        s@ == old(s)@ + join(
                            heads + fields_trees(arg_nodes(fields@.take(i as int)), m as nat),
                            seq!['\n'],
                        ),
                    decreases fields@.len() - i,
                {
                    proof {
                        assert(decreases_to!(self => self->Group_fields));
                        assert(decreases_to!(fields => fields@));
                        assert(decreases_to!(fields@ => fields@[i as int]));
                        lemma_step_parts(heads, fields@, i as int, m as nat);
                        lemma_join_push(
                            heads + fields_trees(arg_nodes(fields@.take(i as int)), m as nat),
                            node_tree(arg_node(fields@[i as int]), m as nat),
                            seq!['\n'],
                        );
                        lemma_child_depth(fields@, i as int);
                    }
                    if has_head || i > 0 {
                        s.append("\n");
                    }
                    fields[i].write_tree_offset(m, s);
                    proof {
                        assert(s@ =~= old(s)@ + join(
                            heads + fields_trees(arg_nodes(fields@.take(i + 1)), m as nat),
                            seq!['\n'],
                        ));
                    }
                    i = i + 1;
                }
                proof {
                    lemma_take_full(fields@);
                    lemma_arg_nodes_len(fields@);
                }
                if has_head && fields.len() == 0 {
                    s.append("\n");
                    proof {
                        assert(heads + fields_trees(arg_nodes(fields@), m as nat) =~= heads);
                    }
                }
            },
            Arg::Choice { key, name, fields } => {
                push_spaces(s, n);
                s.append(key.as_str());
                s.append(" = ");
                s.append(name.as_str());
                s.append("\n");
                push_spaces(s, n + 2);
                s.append(name.as_str());
                let m: usize = n + 4;
                let ghost heads: Seq<Seq<char>> = seq![
                    spaces(n as nat) + key@ + seq![' ', '=', ' '] + name@,
                    spaces((n + 2) as nat) + name@,
                ];
                proof {
                    assert(fields@.take(0) =~= Seq::<Arg>::empty());
                    assert(heads + fields_trees(arg_nodes(fields@.take(0)), m as nat) =~= heads);
                    assert(heads.drop_last() =~= seq![heads[0]]);
                    assert(join(heads.drop_last(), seq!['\n']) == heads[0]);
                    assert(join(heads, seq!['\n']) == heads[0] + seq!['\n'] + heads[1]);
                    assert(s@ =~= old(s)@ + join(heads, seq!['\n']));
                }
                let mut i: usize = 0;
                while i < fields.len()
                    invariant
                        0 <= i <= fields@.len(),
                        s@ == old(s)@ + join(
                            heads + fields_trees(arg_nodes(fields@.take(i as int)), m as nat),
                            seq!['\n'],
                        ),
                    decreases fields@.len() - i,
                {
                    proof {
                        assert(decreases_to!(self => self->Choice_fields));
                        assert(decreases_to!(fields => fields@));
                        assert(decreases_to!(fields@ => fields@[i as int]));
                        lemma_step_parts(heads, fields@, i as int, m as nat);
                        lemma_join_push(
                            heads + fields_trees(arg_nodes(fields@.take(i as int)), m as nat),
                            node_tree(arg_node(fields@[i as int]), m as nat),
                            seq!['\n'],
                        );
                        lemma_child_depth(fields@, i as int);
                    }
                    s.append("\n");
                    fields[i].write_tree_offset(m, s);
                    proof {
                        assert(s@ =~= old(s)@ + join(
                            heads + fields_trees(arg_nodes(fields@.take(i + 1)), m as nat),
                            seq!['\n'],
                        ));
                    }
                    i = i + 1;
                }
                proof {
                    lemma_take_full(fields@);
                }
            },
        }
    }

    /// The command line arguments of `self`.
    pub fn to_args(&self) -> (v: Vec<String>)
        ensures
            v.deep_view() == node_args(self@),
    {
        let mut v: Vec<String> = Vec::new();
        self.append_args(&mut v);
        proof {
            assert(v.deep_view() =~= node_args(self@));
        }
        v
    }

    /// The statement of `self` in the command line language.
    pub fn to_stmt(&self) -> (s: String)
        ensures
            s@ == node_stmt(self@),
    {
        let mut s = String::new();
        self.write_stmt(&mut s);
        proof {
            assert(s@ =~= node_stmt(self@));
        }
        s
    }

    /// The tree form of `self` (a verbose equivalent of the statement).
    pub fn to_tree(&self) -> (s: String)
        requires
            4 * node_depth(self@) <= usize::MAX,
        ensures
            s@ == node_tree(self@, 0),
    {
        let mut s = String::new();
        self.write_tree_offset(0, &mut s);
        proof {
            assert(s@ =~= node_tree(self@, 0));
        }
        s
    }
}

} // verus!

verus! {

/// Types whose values translate to the command line language of CmdStan.
/// This trait is sealed: only the types of this crate implement it.
pub trait Translate: crate::sealed::Sealed {
    /// The option tree of `self`.
    spec fn node(&self) -> Node;

    /// Builds the option tree of `self`.
    fn to_arg(&self) -> (a: Arg)
        ensures
            a@ == self.node(),
    ;

    /// Appends the command line arguments of `self` to `v`.
    fn append_args(&self, v: &mut Vec<String>)
        ensures
            final(v).deep_view() == old(v).deep_view() + node_args(self.node()),
    {
        self.to_arg().append_args(v)
    }

    /// Appends the statement of `self` to `s`.
    fn write_stmt(&self, s: &mut String)
        ensures
            final(s)@ == old(s)@ + node_stmt(self.node()),
    {
        self.to_arg().write_stmt(s)
    }

    /// Appends the tree form of `self`, at offset `n`, to `s`.
    fn write_tree_offset(&self, n: usize, s: &mut String)
        requires
            n + 4 * node_depth(self.node()) <= usize::MAX,
        ensures
            final(s)@ == old(s)@ + node_tree(self.node(), n as nat),
    {
        self.to_arg().write_tree_offset(n, s)
    }

    /// Appends the tree form of `self` to `s`.
    fn write_tree(&self, s: &mut String)
        requires
            4 * node_depth(self.node()) <= usize::MAX,
        ensures
            final(s)@ == old(s)@ + node_tree(self.node(), 0),
    {
        self.write_tree_offset(0, s)
    }

    /// The statement of `self` in the command line language.
    fn to_stmt(&self) -> (s: String)
        ensures
            s@ == node_stmt(self.node()),
    {
        self.to_arg().to_stmt()
    }

    /// The tree form of `self` (a verbose equivalent of the statement).
    fn to_tree(&self) -> (s: String)
        requires
            4 * node_depth(self.node()) <= usize::MAX,
        ensures
            s@ == node_tree(self.node(), 0),
    {
        self.to_arg().to_tree()
    }

    /// The command line arguments of `self`.
    fn to_args(&self) -> (v: Vec<String>)
        ensures
            v.deep_view() == node_args(self.node()),
    {
        self.to_arg().to_args()
    }
}

} // verus!

verus! {

/// Whether `s` is `t`, character by character.
pub fn str_eq(s: &str, t: &str) -> (b: bool)
    ensures
        b == (s@ == t@),
{
    let a = crate::text::chars_of(s);
    let c = crate::text::chars_of(t);
    if a.len() != c.len() {
        return false;
    }
    let mut i: usize = 0;
    while i < a.len()
        invariant
            a@ == s@,
            c@ == t@,
            a@.len() == c@.len(),
            0 <= i <= a@.len(),
            forall|k: int| 0 <= k < i ==> a@[k] == c@[k],
        decreases a@.len() - i,
    {
        if a[i] != c[i] {
            return false;
        }
        i = i + 1;
    }
    proof {
        assert(a@ =~= c@);
    }
    true
}

/// The text of a flag: `"1"` for `true`, `"0"` for `false`.
pub open spec fn flag_text(b: bool) -> Seq<char> {
    if b {
        seq!['1']
    } else {
        seq!['0']
    }
}

impl Arg {
    /// The option `key=value` for a textual value.
    pub fn text(key: &str, value: &str) -> (a: Arg)
        ensures
            a@ == Node::Value(key@, value@),
    {
        Arg::Value { key: key.to_owned(), value: value.to_owned() }
    }

    /// The option `key=x` for an integer, written in decimal.
    pub fn integer(key: &str, x: i64) -> (a: Arg)
        ensures
            a@ == Node::Value(key@, crate::text::int_text(x as int)),
    {
        let digits = crate::text::int_text_exec(x);
        Arg::Value { key: key.to_owned(), value: crate::text::string_of(digits.as_slice()) }
    }

    /// The option `key=1` or `key=0` for a flag.
    pub fn flag(key: &str, b: bool) -> (a: Arg)
        ensures
            a@ == Node::Value(key@, flag_text(b)),
    {
        proof {
            reveal_strlit("1");
            reveal_strlit("0");
            assert("1"@ =~= seq!['1']);
            assert("0"@ =~= seq!['0']);
        }
        let value = if b {
            "1".to_owned()
        } else {
            "0".to_owned()
        };
        Arg::Value { key: key.to_owned(), value }
    }

    /// A product of options introduced by the declaration `decl`.
    pub fn declared(decl: &str, fields: Vec<Arg>) -> (a: Arg)
        ensures
            a@ == Node::Group(Some(decl@), arg_nodes(fields@)),
    {
        Arg::Group { decl: Some(decl.to_owned()), fields }
    }

    /// A product of options without a declaration.
    pub fn undeclared(fields: Vec<Arg>) -> (a: Arg)
        ensures
            a@ == Node::Group(None, arg_nodes(fields@)),
    {
        Arg::Group { decl: None, fields }
    }

    /// The variant `name` of the choice `key`, with its options.
    pub fn choice(key: &str, name: &str, fields: Vec<Arg>) -> (a: Arg)
        ensures
            a@ == Node::Choice(key@, name@, arg_nodes(fields@)),
    {
        Arg::Choice { key: key.to_owned(), name: name.to_owned(), fields }
    }
}

/// Coarse categories of the field types of an option tree: they decide
/// how a field is written (numbers in decimal, flags as `0` or `1`,
/// strings as they are, anything else as a nested tree).
#[derive(Debug, Clone, Copy, PartialEq, Eq, Structural)]
pub enum Type {
    /// Signed integer.
    Int,
    /// Unsigned integer.
    UInt,
    /// Floating-point number.
    Float,
    /// String (`String` or `OsString`).
    String,
    /// Flag.
    Bool,
    /// Any other type: a nested option tree.
    NotPrimitive,
}

/// The category of the type named `name`.
pub open spec fn type_of_name(name: Seq<char>) -> Type {
    if name == "i8"@ || name == "i16"@ || name == "i32"@ || name == "i64"@ || name == "i128"@ {
        Type::Int
    } else if name == "u8"@ || name == "u16"@ || name == "u32"@ || name == "u64"@ || name
        == "u128"@ {
        Type::UInt
    } else if name == "f32"@ || name == "f64"@ {
        Type::Float
    } else if name == "bool"@ {
        Type::Bool
    } else if name == "String"@ || name == "OsString"@ {
        Type::String
    } else {
        Type::NotPrimitive
    }
}

impl Type {
    /// The category of the type named `name`.
    pub fn from_name(name: &str) -> (t: Type)
        ensures
            t == type_of_name(name@),
    {
        if str_eq(name, "i8") || str_eq(name, "i16") || str_eq(name, "i32") || str_eq(name, "i64")
            || str_eq(name, "i128") {
            Type::Int
        } else if str_eq(name, "u8") || str_eq(name, "u16") || str_eq(name, "u32") || str_eq(
            name,
            "u64",
        ) || str_eq(name, "u128") {
            Type::UInt
        } else if str_eq(name, "f32") || str_eq(name, "f64") {
            Type::Float
        } else if str_eq(name, "bool") {
            Type::Bool
        } else if str_eq(name, "String") || str_eq(name, "OsString") {
            Type::String
        } else {
            Type::NotPrimitive
        }
    }

    /// Is this the flag category?
    pub fn is_bool(&self) -> (b: bool)
        ensures
            b == (*self == Type::Bool),
    {
        match self {
            Type::Bool => true,
            _ => false,
        }
    }

    /// Is this a numeric category?
    pub fn is_number(&self) -> (b: bool)
        ensures
            b == (*self == Type::Int || *self == Type::UInt || *self == Type::Float),
    {
        match self {
            Type::Int | Type::UInt | Type::Float => true,
            _ => false,
        }
    }

    /// Is this a numeric category or the flag category?
    pub fn is_number_or_bool(&self) -> (b: bool)
        ensures
            b == (*self == Type::Int || *self == Type::UInt || *self == Type::Float || *self
                == Type::Bool),
    {
        self.is_number() || self.is_bool()
    }

    /// Is this the string category?
    pub fn is_string(&self) -> (b: bool)
        ensures
            b == (*self == Type::String),
    {
        match self {
            Type::String => true,
            _ => false,
        }
    }
}

} // verus!
