//! Where a dependency's package content comes from.
use vstd::prelude::*;
use vstd::string::StringExecFns;

verus! {

/// The mathematical value of a `DepSource`.
pub enum SourceModel {
    Version(Seq<char>),
    Git {
        url: Seq<char>,
        branch: Option<Seq<char>>,
        rev: Option<Seq<char>>,
        tag: Option<Seq<char>>,
    },
    Path(Seq<char>),
    Workspace,
}

/// How a member locates a dependency, apart from any build attributes.
#[derive(Debug)]
pub enum DepSource {
    /// A registry version requirement.
    Version(String),
    /// A git repository, with an optional branch, revision or tag.
    Git { url: String, branch: Option<String>, rev: Option<String>, tag: Option<String> },
    /// A local path, relative to the workspace root and starting with `./` or `../`.
    Path(String),
    /// Already delegates to the shared declaration.
    Workspace,
}

pub open spec fn opt_view(o: Option<String>) -> Option<Seq<char>> {
    match o {
        Some(s) => Some(s@),
        None => None,
    }
}

impl View for DepSource {
    type V = SourceModel;

    open spec fn view(&self) -> SourceModel {
        match self {
            DepSource::Version(v) => SourceModel::Version(v@),
            DepSource::Git { url, branch, rev, tag } => SourceModel::Git {
                url: url@,
                branch: opt_view(*branch),
                rev: opt_view(*rev),
                tag: opt_view(*tag),
            },
            DepSource::Path(p) => SourceModel::Path(p@),
            DepSource::Workspace => SourceModel::Workspace,
        }
    }
}

pub fn clone_opt_string(o: &Option<String>) -> (r: Option<String>)
    ensures
        opt_view(r) == opt_view(*o),
{
    match o {
        Some(s) => Some(s.clone()),
        None => None,
    }
}

fn eq_opt_string(a: &Option<String>, b: &Option<String>) -> (r: bool)
    ensures
        r == (opt_view(*a) == opt_view(*b)),
{
    match (a, b) {
        (Some(x), Some(y)) => *x == *y,
        (None, None) => true,
        _ => false,
    }
}

impl DepSource {
    /// A copy with the same value.
    pub fn duplicate(&self) -> (r: DepSource)
        ensures
            r@ == self@,
    {
        match self {
            DepSource::Version(v) => DepSource::Version(v.clone()),
            DepSource::Git { url, branch, rev, tag } => DepSource::Git {
                url: url.clone(),
                branch: clone_opt_string(branch),
                rev: clone_opt_string(rev),
                tag: clone_opt_string(tag),
            },
            DepSource::Path(p) => DepSource::Path(p.clone()),
            DepSource::Workspace => DepSource::Workspace,
        }
    }

    /// Whether two sources locate the package in the same way.
    pub fn same_as(&self, o: &DepSource) -> (r: bool)
        ensures
            r == (self@ == o@),
    {
        match (self, o) {
            (DepSource::Version(a), DepSource::Version(b)) => *a == *b,
            (
                DepSource::Git { url: u1, branch: b1, rev: r1, tag: t1 },
                DepSource::Git { url: u2, branch: b2, rev: r2, tag: t2 },
            ) => *u1 == *u2 && eq_opt_string(b1, b2) && eq_opt_string(r1, r2) && eq_opt_string(
                t1,
                t2,
            ),
            (DepSource::Path(a), DepSource::Path(b)) => *a == *b,
            (DepSource::Workspace, DepSource::Workspace) => true,
            _ => false,
        }
    }
}

impl PartialEq for DepSource {
    fn eq(&self, o: &DepSource) -> (r: bool) {
        self.same_as(o)
    }
}

impl vstd::std_specs::cmp::PartialEqSpecImpl for DepSource {
    open spec fn obeys_eq_spec() -> bool {
        true
    }

    open spec fn eq_spec(&self, o: &DepSource) -> bool {
        self@ == o@
    }
}

impl Clone for DepSource {
    fn clone(&self) -> (r: DepSource)
        ensures
            r@ == self@,
    {
        self.duplicate()
    }
}

/// An optional labelled part of a git source's description.
pub open spec fn labelled(label: Seq<char>, o: Option<Seq<char>>) -> Seq<char> {
    match o {
        Some(s) => label + s,
        None => Seq::empty(),
    }
}

/// The one-line description of a source shown to the operator.
pub open spec fn describe_spec(s: SourceModel) -> Seq<char> {
    match s {
        SourceModel::Version(v) => "version: "@ + v,
        SourceModel::Git { url, branch, rev, tag } => "git: "@ + url + labelled(", branch: "@, branch)
            + labelled(", rev: "@, rev) + labelled(", tag: "@, tag),
        SourceModel::Path(p) => "path: "@ + p,
        SourceModel::Workspace => "workspace"@,
    }
}

fn append_labelled(out: &mut String, label: &str, o: &Option<String>)
    ensures
        final(out)@ == old(out)@ + labelled(label@, opt_view(*o)),
{
    match o {
        Some(s) => {
            out.append(label);
            out.append(s.as_str());
            assert(final(out)@ == old(out)@ + (label@ + s@));
        },
        None => {
            assert(out@ == old(out)@ + Seq::<char>::empty());
        },
    }
}

impl DepSource {
    /// The description of this source, as listed when the operator has to choose.
    pub fn describe(&self) -> (r: String)
        ensures
            r@ == describe_spec(self@),
    {
        match self {
            DepSource::Version(v) => {
                let mut r = String::from_str("version: ");
                r.append(v.as_str());
                r
            },
            DepSource::Git { url, branch, rev, tag } => {
                let mut r = String::from_str("git: ");
                r.append(url.as_str());
                append_labelled(&mut r, ", branch: ", branch);
                append_labelled(&mut r, ", rev: ", rev);
                append_labelled(&mut r, ", tag: ", tag);
                r
            },
            DepSource::Path(p) => {
                let mut r = String::from_str("path: ");
                r.append(p.as_str());
                r
            },
            DepSource::Workspace => String::from_str("workspace"),
        }
    }
}

} // verus!
