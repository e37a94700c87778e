//! Classifying a declaration by where its package comes from.
use vstd::prelude::*;
use crate::decl::{get_str, is_true_at, lookup, str_at, Decl, DeclModel, Scalar, ScalarModel};
use crate::source::{opt_view, DepSource, SourceModel};

verus! {

/// The source a declaration names, in order of precedence: a bare string is a
/// version; in a table a string `git`, then a string `path` (which counts only
/// where it could be made relative to the workspace root: `resolved`), then a
/// string `version`, then `workspace = true`.
pub open spec fn classify_spec(d: DeclModel, resolved: Option<Seq<char>>) -> Option<SourceModel> {
    match d {
        DeclModel::Bare(ScalarModel::Str(s)) => Some(SourceModel::Version(s)),
        DeclModel::Bare(_) => None,
        DeclModel::Table { entries, .. } => {
            if str_at(entries, "git"@) is Some {
                Some(
                    SourceModel::Git {
                        url: str_at(entries, "git"@).unwrap(),
                        branch: str_at(entries, "branch"@),
                        rev: str_at(entries, "rev"@),
                        tag: str_at(entries, "tag"@),
                    },
                )
            } else if str_at(entries, "path"@) is Some {
                match resolved {
                    Some(p) => Some(SourceModel::Path(p)),
                    None => None,
                }
            } else if str_at(entries, "version"@) is Some {
                Some(SourceModel::Version(str_at(entries, "version"@).unwrap()))
            } else if lookup(entries, "workspace"@) == Some(ScalarModel::Bool(true)) {
                Some(SourceModel::Workspace)
            } else {
                None
            }
        },
    }
}

/// The local path a declaration names, where the path rule is the one that
/// decides its source.
pub open spec fn local_path_spec(d: DeclModel) -> Option<Seq<char>> {
    match d {
        DeclModel::Table { entries, .. } => {
            if str_at(entries, "git"@) is Some {
                None
            } else {
                str_at(entries, "path"@)
            }
        },
        DeclModel::Bare(_) => None,
    }
}

fn copy_opt(o: Option<&String>) -> (r: Option<String>)
    ensures
        match o {
            Some(s) => opt_view(r) == Some(s@),
            None => r is None,
        },
{
    match o {
        Some(s) => Some(s.clone()),
        None => None,
    }
}

/// The path string whose relativized form `classify` needs, if any.
pub fn local_path(d: &Decl) -> (r: Option<String>)
    ensures
        opt_view(r) == local_path_spec(d@),
{
    match d {
        Decl::Table { entries, .. } => {
            if get_str(entries, "git").is_some() {
                None
            } else {
                copy_opt(get_str(entries, "path"))
            }
        },
        Decl::Bare(_) => None,
    }
}

/// Classifies a declaration; `resolved` is the root-relative form of its local
/// path, `None` where there is none or it could not be resolved.
pub fn classify(d: &Decl, resolved: &Option<String>) -> (r: Option<DepSource>)
    ensures
        match r {
            Some(s) => classify_spec(d@, opt_view(*resolved)) == Some(s@),
            None => classify_spec(d@, opt_view(*resolved)) is None,
        },
{
    match d {
        Decl::Bare(Scalar::Str(s)) => Some(DepSource::Version(s.clone())),
        Decl::Bare(_) => None,
        Decl::Table { entries, .. } => {
            if let Some(url) = get_str(entries, "git") {
                Some(
                    DepSource::Git {
                        url: url.clone(),
                        branch: copy_opt(get_str(entries, "branch")),
                        rev: copy_opt(get_str(entries, "rev")),
                        tag: copy_opt(get_str(entries, "tag")),
                    },
                )
            } else if get_str(entries, "path").is_some() {
                match resolved {
                    Some(p) => Some(DepSource::Path(p.clone())),
                    None => None,
                }
            } else if let Some(v) = get_str(entries, "version") {
                Some(DepSource::Version(v.clone()))
            } else if is_true_at(entries, "workspace") {
                Some(DepSource::Workspace)
            } else {
                None
            }
        },
    }
}

} // verus!
