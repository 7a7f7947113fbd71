//! The change-detection builder and its declarations.
//!
//! [`ChangeDetection`] is the entry point: each of its constructors returns
//! a [`ChangeDetectionBuilder`] holding an ordered sequence of
//! [`ChangeDetectionPath`] declarations plus the two optional global filter
//! slots. The terminal `generate` operation walks every declaration in
//! registration order over a filesystem snapshot and returns one
//! `cargo:rerun-if-changed=` instruction line per surviving path;
//! `generate_extended` returns the bare paths instead, for sinks of the
//! caller's own.

use vstd::prelude::*;

use crate::matcher::{config_of, exclude_ok, exclude_passes, include_ok, include_passes,
    FilterConfig, Matcher};
use crate::tree::{lookup_spec, Fs, FsNode};
use crate::walk::{collect_resources, collect_spec};

verus! {

/// A change detection entry point: every constructor starts a fresh
/// [`ChangeDetectionBuilder`].
pub struct ChangeDetection;

/// A change detection builder: the declared paths in registration order and
/// the optional global include/exclude filters.
pub struct ChangeDetectionBuilder {
    /// Global include filter, applied to every declaration's descendants.
    pub include_filter: Option<Matcher>,
    /// Global exclude filter, applied to every declaration's descendants.
    pub exclude: Option<Matcher>,
    /// The declarations, in registration order.
    pub paths: Vec<ChangeDetectionPath>,
}

/// One registered path, with its optional local filters.
pub enum ChangeDetectionPath {
    /// A bare path.
    Path(String),
    /// A path with a local include filter.
    PathInclude(String, Matcher),
    /// A path with a local exclude filter.
    PathExclude(String, Matcher),
    /// A path with both local filters.
    PathIncludeExclude {
        /// The declared path.
        path: String,
        /// The local include filter.
        include_filter: Matcher,
        /// The local exclude filter.
        exclude: Matcher,
    },
}

impl Default for ChangeDetectionBuilder {
    /// An empty builder: no declarations, no global filters.
    fn default() -> (r: Self)
        ensures
            r.include_filter is None,
            r.exclude is None,
            r.paths@ == Seq::<ChangeDetectionPath>::empty(),
    {
        ChangeDetectionBuilder { include_filter: None, exclude: None, paths: Vec::new() }
    }
}

impl ChangeDetectionPath {
    /// The declared root path.
    pub open spec fn root_spec(self) -> Seq<char> {
        match self {
            ChangeDetectionPath::Path(p) => p@,
            ChangeDetectionPath::PathInclude(p, _) => p@,
            ChangeDetectionPath::PathExclude(p, _) => p@,
            ChangeDetectionPath::PathIncludeExclude { path, .. } => path@,
        }
    }

    /// The declaration's own include filter, if any.
    pub open spec fn local_include_spec(self) -> Option<Matcher> {
        match self {
            ChangeDetectionPath::PathInclude(_, m) => Some(m),
            ChangeDetectionPath::PathIncludeExclude { include_filter, .. } => Some(include_filter),
            _ => None,
        }
    }

    /// The declaration's own exclude filter, if any.
    pub open spec fn local_exclude_spec(self) -> Option<Matcher> {
        match self {
            ChangeDetectionPath::PathExclude(_, m) => Some(m),
            ChangeDetectionPath::PathIncludeExclude { exclude, .. } => Some(exclude),
            _ => None,
        }
    }

    /// The filters in force while this declaration is walked under builder
    /// `b`: the builder's global slots plus this declaration's local slots.
    pub open spec fn filters_in(self, b: ChangeDetectionBuilder) -> FilterConfig {
        FilterConfig {
            global_include: b.include_filter,
            global_exclude: b.exclude,
            local_include: self.local_include_spec(),
            local_exclude: self.local_exclude_spec(),
        }
    }

    /// What collecting this declaration yields under builder `b` and
    /// snapshot `fs`: nothing when the declared path does not exist, the
    /// full walk of its tree otherwise.
    pub open spec fn collect_spec_for(self, b: ChangeDetectionBuilder, fs: Fs) -> Seq<Seq<char>> {
        match lookup_spec(fs.roots@, self.root_spec()) {
            None => Seq::empty(),
            Some(node) => collect_spec(self.root_spec(), node, self.filters_in(b)),
        }
    }

    /// Collects every surviving path of this declaration.
    pub fn collect(&self, builder: &ChangeDetectionBuilder, fs: &Fs) -> (r: Vec<String>)
        ensures
            r.deep_view() == self.collect_spec_for(*builder, *fs),
    {
        let (root, li, le): (&String, Option<&Matcher>, Option<&Matcher>) = match self {
            ChangeDetectionPath::Path(p) => (p, None, None),
            ChangeDetectionPath::PathInclude(p, m) => (p, Some(m), None),
            ChangeDetectionPath::PathExclude(p, m) => (p, None, Some(m)),
            ChangeDetectionPath::PathIncludeExclude { path, include_filter, exclude } => (
                path,
                Some(include_filter),
                Some(exclude),
            ),
        };
        match fs.lookup(root) {
            None => {
                let r: Vec<String> = Vec::new();
                proof {
                    assert(r.deep_view() =~= self.collect_spec_for(*builder, *fs));
                }
                r
            },
            Some(node) => {
                let gi = builder.include_filter.as_ref();
                let ge = builder.exclude.as_ref();
                proof {
                    assert(config_of(gi, ge, li, le) == self.filters_in(*builder));
                }
                collect_resources(root, node, gi, ge, li, le)
            },
        }
    }
}

/// What collecting each declaration of `decls` in order yields, one
/// declaration's results after the previous one's.
pub open spec fn decls_collect(
    decls: Seq<ChangeDetectionPath>,
    b: ChangeDetectionBuilder,
    fs: Fs,
) -> Seq<Seq<char>>
    decreases decls.len(),
{
    if decls.len() == 0 {
        Seq::empty()
    } else {
        decls_collect(decls.drop_last(), b, fs) + decls.last().collect_spec_for(b, fs)
    }
}

/// Every path one run of builder `b` emits over snapshot `fs`, in order.
pub open spec fn generate_spec(b: ChangeDetectionBuilder, fs: Fs) -> Seq<Seq<char>> {
    decls_collect(b.paths@, b, fs)
}

/// The instruction prefix of the default sink.
pub open spec fn instruction_prefix() -> Seq<char> {
    "cargo:rerun-if-changed="@
}

/// The instruction lines for a sequence of collected paths.
pub open spec fn lines_spec(paths: Seq<Seq<char>>) -> Seq<Seq<char>> {
    paths.map_values(|p: Seq<char>| instruction_prefix() + p)
}

/// The instruction lines one run of builder `b` emits over snapshot `fs`.
pub open spec fn generate_lines_spec(b: ChangeDetectionBuilder, fs: Fs) -> Seq<Seq<char>> {
    lines_spec(generate_spec(b, fs))
}

/// Renders the change detection instruction for one path.
pub fn instruction_line(path: &String) -> (r: String)
    ensures
        r@ == instruction_prefix() + path@,
{
    let mut r = String::from_str("cargo:rerun-if-changed=");
    r.append(path.as_str());
    r
}

impl ChangeDetectionBuilder {
    /// Registers a bare path.
    pub fn path(self, path: &str) -> (r: Self)
        ensures
            r.include_filter == self.include_filter,
            r.exclude == self.exclude,
            r.paths@.len() == self.paths@.len() + 1,
            r.paths@.drop_last() == self.paths@,
            r.paths@.last() matches ChangeDetectionPath::Path(p) && p@ == path@,
    {
        let mut s = self;
        s.paths.push(ChangeDetectionPath::Path(path.to_owned()));
        proof {
            assert(s.paths@.drop_last() =~= self.paths@);
        }
        s
    }

    /// Registers a path with a local include filter.
    pub fn path_include(self, path: &str, filter: Matcher) -> (r: Self)
        ensures
            r.include_filter == self.include_filter,
            r.exclude == self.exclude,
            r.paths@.len() == self.paths@.len() + 1,
            r.paths@.drop_last() == self.paths@,
            r.paths@.last() matches ChangeDetectionPath::PathInclude(p, m) && p@ == path@ && m
                == filter,
    {
        let mut s = self;
        s.paths.push(ChangeDetectionPath::PathInclude(path.to_owned(), filter));
        proof {
            assert(s.paths@.drop_last() =~= self.paths@);
        }
        s
    }

    /// Registers a path with a local exclude filter.
    pub fn path_exclude(self, path: &str, filter: Matcher) -> (r: Self)
        ensures
            r.include_filter == self.include_filter,
            r.exclude == self.exclude,
            r.paths@.len() == self.paths@.len() + 1,
            r.paths@.drop_last() == self.paths@,
            r.paths@.last() matches ChangeDetectionPath::PathExclude(p, m) && p@ == path@ && m
                == filter,
    {
        let mut s = self;
        s.paths.push(ChangeDetectionPath::PathExclude(path.to_owned(), filter));
        proof {
            assert(s.paths@.drop_last() =~= self.paths@);
        }
        s
    }

    /// Registers a path with local include and exclude filters.
    pub fn path_filter(self, path: &str, include_filter: Matcher, exclude: Matcher) -> (r: Self)
        ensures
            r.include_filter == self.include_filter,
            r.exclude == self.exclude,
            r.paths@.len() == self.paths@.len() + 1,
            r.paths@.drop_last() == self.paths@,
            r.paths@.last() matches ChangeDetectionPath::PathIncludeExclude {
                path: p,
                include_filter: i,
                exclude: e,
            } && p@ == path@ && i == include_filter && e == exclude,
    {
        let mut s = self;
        s.paths.push(
            ChangeDetectionPath::PathIncludeExclude {
                path: path.to_owned(),
                include_filter,
                exclude,
            },
        );
        proof {
            assert(s.paths@.drop_last() =~= self.paths@);
        }
        s
    }

    /// Sets the global include filter.
    fn include_filter(self, filter: Matcher) -> (r: Self)
        ensures
            r.include_filter == Some(filter),
            r.exclude == self.exclude,
            r.paths@ == self.paths@,
    {
        let mut s = self;
        s.include_filter = Some(filter);
        s
    }

    /// Sets the global exclude filter.
    fn exclude(self, filter: Matcher) -> (r: Self)
        ensures
            r.include_filter == self.include_filter,
            r.exclude == Some(filter),
            r.paths@ == self.paths@,
    {
        let mut s = self;
        s.exclude = Some(filter);
        s
    }

    /// Whether a path passes both global filter slots.
    pub fn filter_include_exclude(&self, path: &String) -> (r: bool)
        ensures
            r == (include_passes(self.include_filter, path@) && exclude_passes(self.exclude, path@)),
    {
        include_ok(self.include_filter.as_ref(), path) && exclude_ok(self.exclude.as_ref(), path)
    }

    /// Walks every declaration in registration order and returns each
    /// surviving path, one declaration's results after the previous one's.
    pub fn generate_extended(self, fs: &Fs) -> (r: Vec<String>)
        ensures
            r.deep_view() == generate_spec(self, *fs),
    {
        let mut result: Vec<String> = Vec::new();
        let n = self.paths.len();
        let mut i: usize = 0;
        proof {
            assert(result.deep_view() =~= decls_collect(self.paths@.take(0), self, *fs));
        }
        while i < n
            invariant
                i <= n,
                n == self.paths@.len(),
                result.deep_view() == decls_collect(self.paths@.take(i as int), self, *fs),
            decreases n - i,
        {
            let d = &self.paths[i];
            let mut part = d.collect(&self, fs);
            let ghost part_view = part.deep_view();
            let ghost pre = result.deep_view();
            result.append(&mut part);
            proof {
                let upto = self.paths@.take(i as int + 1);
                assert(upto.drop_last() =~= self.paths@.take(i as int));
                assert(upto.last() == self.paths@[i as int]);
                assert(result.deep_view() =~= pre + part_view);
                assert(result.deep_view() =~= decls_collect(upto, self, *fs));
            }
            i = i + 1;
        }
        proof {
            assert(self.paths@.take(n as int) =~= self.paths@);
        }
        result
    }

    /// Walks every declaration and returns the default sink's instruction
    /// lines, one per surviving path, in walk order.
    pub fn generate(self, fs: &Fs) -> (r: Vec<String>)
        ensures
            r.deep_view() == generate_lines_spec(self, *fs),
    {
        let ghost b = self;
        let collected = self.generate_extended(fs);
        let mut lines: Vec<String> = Vec::new();
        let n = collected.len();
        let mut i: usize = 0;
        while i < n
            invariant
                i <= n,
                n == collected@.len(),
                collected.deep_view() == generate_spec(b, *fs),
                lines.deep_view() == lines_spec(collected.deep_view().take(i as int)),
            decreases n - i,
        {
            let line = instruction_line(&collected[i]);
            let ghost pre = lines.deep_view();
            let ghost line_view = line@;
            lines.push(line);
            proof {
                let s = collected.deep_view();
                assert(lines.deep_view() =~= pre.push(line_view));
                assert(line_view == instruction_prefix() + s[i as int]);
                assert forall|j: int| 0 <= j < i as int + 1 implies #[trigger] lines_spec(
                    s.take(i as int + 1),
                )[j] == pre.push(line_view)[j] by {
                    assert(s.take(i as int + 1)[j] == s[j]);
                    if j < i as int {
                        assert(lines_spec(s.take(i as int))[j] == instruction_prefix() + s.take(
                            i as int,
                        )[j]);
                    }
                }
                assert(lines.deep_view() =~= lines_spec(s.take(i as int + 1)));
            }
            i = i + 1;
        }
        proof {
            assert(collected.deep_view().take(n as int) =~= collected.deep_view());
        }
        lines
    }
}

impl ChangeDetection {
    /// Starts a builder with one bare path registered.
    pub fn path(path: &str) -> (r: ChangeDetectionBuilder)
        ensures
            r.include_filter is None,
            r.exclude is None,
            r.paths@.len() == 1,
            r.paths@[0] matches ChangeDetectionPath::Path(p) && p@ == path@,
    {
        ChangeDetectionBuilder::default().path(path)
    }

    /// Starts a builder with one path and its local include filter.
    pub fn path_include(path: &str, filter: Matcher) -> (r: ChangeDetectionBuilder)
        ensures
            r.include_filter is None,
            r.exclude is None,
            r.paths@.len() == 1,
            r.paths@[0] matches ChangeDetectionPath::PathInclude(p, m) && p@ == path@ && m
                == filter,
    {
        ChangeDetectionBuilder::default().path_include(path, filter)
    }

    /// Starts a builder with one path and its local exclude filter.
    pub fn path_exclude(path: &str, filter: Matcher) -> (r: ChangeDetectionBuilder)
        ensures
            r.include_filter is None,
            r.exclude is None,
            r.paths@.len() == 1,
            r.paths@[0] matches ChangeDetectionPath::PathExclude(p, m) && p@ == path@ && m
                == filter,
    {
        ChangeDetectionBuilder::default().path_exclude(path, filter)
    }

    /// Starts a builder with one path and both its local filters.
    pub fn path_filter(path: &str, include_filter: Matcher, exclude: Matcher) -> (r:
        ChangeDetectionBuilder)
        ensures
            r.include_filter is None,
            r.exclude is None,
            r.paths@.len() == 1,
            r.paths@[0] matches ChangeDetectionPath::PathIncludeExclude {
                path: p,
                include_filter: i,
                exclude: e,
            } && p@ == path@ && i == include_filter && e == exclude,
    {
        ChangeDetectionBuilder::default().path_filter(path, include_filter, exclude)
    }

    /// Starts a builder with a global include filter set.
    pub fn include_filter(filter: Matcher) -> (r: ChangeDetectionBuilder)
        ensures
            r.include_filter == Some(filter),
            r.exclude is None,
            r.paths@.len() == 0,
    {
        ChangeDetectionBuilder::default().include_filter(filter)
    }

    /// Starts a builder with a global exclude filter set.
    pub fn exclude(filter: Matcher) -> (r: ChangeDetectionBuilder)
        ensures
            r.include_filter is None,
            r.exclude == Some(filter),
            r.paths@.len() == 0,
    {
        ChangeDetectionBuilder::default().exclude(filter)
    }

    /// Starts a builder with both global filters set.
    pub fn filter(include_filter: Matcher, exclude: Matcher) -> (r: ChangeDetectionBuilder)
        ensures
            r.include_filter == Some(include_filter),
            r.exclude == Some(exclude),
            r.paths@.len() == 0,
    {
        ChangeDetectionBuilder::default().include_filter(include_filter).exclude(exclude)
    }
}

/// A declared path that exists is always collected, whatever the filters
/// say, and stands first among its declaration's results.
pub proof fn lemma_declared_root_collected(
    d: ChangeDetectionPath,
    b: ChangeDetectionBuilder,
    fs: Fs,
)
    requires
        lookup_spec(fs.roots@, d.root_spec()) is Some,
    ensures
        d.collect_spec_for(b, fs).len() > 0,
        d.collect_spec_for(b, fs)[0] == d.root_spec(),
        d.collect_spec_for(b, fs).contains(d.root_spec()),
{
    let s = d.collect_spec_for(b, fs);
    assert(s[0] == d.root_spec());
    assert(s.contains(d.root_spec())) by {
        assert(s[0] == d.root_spec() && 0 < s.len());
    }
}

/// Every declared path that exists appears in the generated result,
/// whatever the filters say.
pub proof fn lemma_declared_roots_in_generate(b: ChangeDetectionBuilder, fs: Fs)
    ensures
        forall|i: int|
            0 <= i < b.paths@.len() && lookup_spec(
                fs.roots@,
                (#[trigger] b.paths@[i]).root_spec(),
            ) is Some ==> generate_spec(b, fs).contains(b.paths@[i].root_spec()),
{
    lemma_generate_is_union(b, fs);
    assert forall|i: int|
        0 <= i < b.paths@.len() && lookup_spec(
            fs.roots@,
            (#[trigger] b.paths@[i]).root_spec(),
        ) is Some implies generate_spec(b, fs).contains(b.paths@[i].root_spec()) by {
        lemma_declared_root_collected(b.paths@[i], b, fs);
        assert(b.paths@[i].collect_spec_for(b, fs).contains(b.paths@[i].root_spec()));
    }
}

/// A declared path that does not exist contributes nothing.
pub proof fn lemma_absent_root_empty(d: ChangeDetectionPath, b: ChangeDetectionBuilder, fs: Fs)
    requires
        lookup_spec(fs.roots@, d.root_spec()) is None,
    ensures
        d.collect_spec_for(b, fs) == Seq::<Seq<char>>::empty(),
{
}

/// Generation is a function of the builder and the snapshot alone: two runs
/// over equal configurations and an unchanged tree yield the same paths, in
/// the same order.
pub proof fn lemma_generate_idempotent(
    b1: ChangeDetectionBuilder,
    b2: ChangeDetectionBuilder,
    fs1: Fs,
    fs2: Fs,
)
    requires
        b1 == b2,
        fs1 == fs2,
    ensures
        generate_spec(b1, fs1) == generate_spec(b2, fs2),
        generate_lines_spec(b1, fs1) == generate_lines_spec(b2, fs2),
{
}

/// Declarations do not interact: a path is emitted exactly when some single
/// declaration, collected on its own, emits it.
pub proof fn lemma_generate_is_union(b: ChangeDetectionBuilder, fs: Fs)
    ensures
        forall|x: Seq<char>|
            generate_spec(b, fs).contains(x) <==> exists|i: int|
                0 <= i < b.paths@.len() && (#[trigger] b.paths@[i].collect_spec_for(
                    b,
                    fs,
                )).contains(x),
{
    lemma_decls_collect_union(b.paths@, b, fs);
}

/// The union property over any declaration sequence, by induction on it.
proof fn lemma_decls_collect_union(decls: Seq<ChangeDetectionPath>, b: ChangeDetectionBuilder, fs: Fs)
    ensures
        forall|x: Seq<char>|
            decls_collect(decls, b, fs).contains(x) <==> exists|i: int|
                0 <= i < decls.len() && (#[trigger] decls[i].collect_spec_for(b, fs)).contains(x),
    decreases decls.len(),
{
    broadcast use vstd::seq_lib::lemma_seq_concat_contains_all_elements;
    broadcast use vstd::seq_lib::lemma_seq_empty_contains_nothing;

    if decls.len() > 0 {
        lemma_decls_collect_union(decls.drop_last(), b, fs);
        let front = decls_collect(decls.drop_last(), b, fs);
        let part = decls.last().collect_spec_for(b, fs);
        assert(decls_collect(decls, b, fs) == front + part);
        assert forall|x: Seq<char>| decls_collect(decls, b, fs).contains(x) implies exists|i: int|
            0 <= i < decls.len() && (#[trigger] decls[i].collect_spec_for(b, fs)).contains(x) by {
            if front.contains(x) {
                let i = choose|i: int|
                    0 <= i < decls.drop_last().len() && (#[trigger] decls.drop_last()[i].collect_spec_for(
                        b,
                        fs,
                    )).contains(x);
                assert(decls[i] == decls.drop_last()[i]);
                assert((decls[i].collect_spec_for(b, fs)).contains(x));
            } else {
                let last = decls.len() - 1;
                assert(decls[last] == decls.last());
                assert((decls[last].collect_spec_for(b, fs)).contains(x));
            }
        }
        assert forall|x: Seq<char>|
            (exists|i: int|
                0 <= i < decls.len() && (#[trigger] decls[i].collect_spec_for(b, fs)).contains(
                    x,
                )) implies decls_collect(decls, b, fs).contains(x) by {
            let i = choose|i: int|
                0 <= i < decls.len() && (#[trigger] decls[i].collect_spec_for(b, fs)).contains(x);
            if i < decls.len() - 1 {
                assert(decls.drop_last()[i] == decls[i]);
                assert(front.contains(x));
            } else {
                assert(decls.last() == decls[i]);
                assert(part.contains(x));
            }
        }
    }
}

} // verus!
