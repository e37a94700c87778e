//! New declarations for the shared table and for the members that use it.
use vstd::prelude::*;
use vstd::string::StringExecFns;
use crate::decl::{entries_view, first_at, str_equal, is_delegating, Decl, DeclModel, Entry, Scalar, ScalarModel};
use crate::reconcile::{contains_string, strings_view};
use crate::source::{DepSource, SourceModel};

verus! {

/// The mathematical value of a `NamedDecl`.
pub struct NamedModel {
    pub name: Seq<char>,
    pub decl: DeclModel,
}

/// One entry of a `[dependencies]` table: a name and its declaration.
#[derive(Debug, PartialEq)]
pub struct NamedDecl {
    pub name: String,
    pub decl: Decl,
}

impl View for NamedDecl {
    type V = NamedModel;

    open spec fn view(&self) -> NamedModel {
        NamedModel { name: self.name@, decl: self.decl@ }
    }
}

pub open spec fn named_view(v: Seq<NamedDecl>) -> Seq<NamedModel> {
    v.map_values(|n: NamedDecl| n@)
}

/// A dependency name and the source accepted for it.
#[derive(Debug, PartialEq)]
pub struct SharedDep {
    pub name: String,
    pub source: DepSource,
}

pub open spec fn shared_view(v: Seq<SharedDep>) -> Seq<(Seq<char>, SourceModel)> {
    v.map_values(|s: SharedDep| (s.name@, s.source@))
}

pub open spec fn str_entry(k: Seq<char>, v: Seq<char>) -> (Seq<char>, ScalarModel) {
    (k, ScalarModel::Str(v))
}

pub open spec fn opt_entry(k: Seq<char>, o: Option<Seq<char>>) -> Seq<(Seq<char>, ScalarModel)> {
    match o {
        Some(v) => seq![str_entry(k, v)],
        None => Seq::empty(),
    }
}

/// The entry of the shared table for a source: a version as a bare string, a
/// git or path source as an inline table of its source keys only.
pub open spec fn shared_entry_spec(s: SourceModel) -> DeclModel {
    match s {
        SourceModel::Version(v) => DeclModel::Bare(ScalarModel::Str(v)),
        SourceModel::Git { url, branch, rev, tag } => DeclModel::Table {
            inline: true,
            entries: seq![str_entry("git"@, url)] + opt_entry("branch"@, branch) + opt_entry(
                "rev"@,
                rev,
            ) + opt_entry("tag"@, tag),
        },
        SourceModel::Path(p) => DeclModel::Table {
            inline: true,
            entries: seq![str_entry("path"@, p)],
        },
        SourceModel::Workspace => DeclModel::Bare(ScalarModel::Other),
    }
}

fn push_opt(es: &mut Vec<Entry>, k: &str, o: &Option<String>)
    ensures
        entries_view(final(es)@) == entries_view(old(es)@) + opt_entry(k@, crate::source::opt_view(*o)),
{
    match o {
        Some(v) => {
            let ghost prev = es@;
            es.push(Entry { key: String::from_str(k), value: Scalar::Str(v.clone()) });
            assert(entries_view(es@) =~= entries_view(prev) + opt_entry(
                k@,
                crate::source::opt_view(*o),
            ));
        },
        None => {
            assert(entries_view(es@) =~= entries_view(old(es)@) + Seq::empty());
        },
    }
}

/// Builds the shared-table entry for an accepted source.
pub fn shared_entry(s: &DepSource) -> (r: Decl)
    requires
        !(s@ is Workspace),
    ensures
        r@ == shared_entry_spec(s@),
{
    match s {
        DepSource::Version(v) => Decl::Bare(Scalar::Str(v.clone())),
        DepSource::Git { url, branch, rev, tag } => {
            let mut es: Vec<Entry> = Vec::new();
            es.push(Entry { key: String::from_str("git"), value: Scalar::Str(url.clone()) });
            assert(entries_view(es@) =~= seq![str_entry("git"@, url@)]);
            push_opt(&mut es, "branch", branch);
            push_opt(&mut es, "rev", rev);
            push_opt(&mut es, "tag", tag);
            Decl::Table { inline: true, entries: es }
        },
        DepSource::Path(p) => {
            let mut es: Vec<Entry> = Vec::new();
            es.push(Entry { key: String::from_str("path"), value: Scalar::Str(p.clone()) });
            assert(entries_view(es@) =~= seq![str_entry("path"@, p@)]);
            Decl::Table { inline: true, entries: es }
        },
        DepSource::Workspace => Decl::Bare(Scalar::Other),
    }
}

/// Whether a key says where a package comes from.
pub open spec fn is_source_key(k: Seq<char>) -> bool {
    k == "version"@ || k == "git"@ || k == "branch"@ || k == "rev"@ || k == "tag"@ || k
        == "path"@ || k == "workspace"@
}

/// Whether `k` is one of the keys that say where a package comes from.
pub fn source_key(k: &str) -> (r: bool)
    ensures
        r == is_source_key(k@),
{
    str_equal(k, "version") || str_equal(k, "git") || str_equal(k, "branch") || str_equal(
        k,
        "rev",
    ) || str_equal(k, "tag") || str_equal(k, "path") || str_equal(k, "workspace")
}

/// The entries that are not source keys, in their order.
pub open spec fn kept_entries(es: Seq<(Seq<char>, ScalarModel)>) -> Seq<(Seq<char>, ScalarModel)>
    decreases es.len(),
{
    if es.len() == 0 {
        Seq::empty()
    } else if is_source_key(es.last().0) {
        kept_entries(es.drop_last())
    } else {
        kept_entries(es.drop_last()).push(es.last())
    }
}

pub open spec fn delegation_entry() -> (Seq<char>, ScalarModel) {
    ("workspace"@, ScalarModel::Bool(true))
}

/// A member's declaration once its source is shared: `workspace = true` first,
/// then every entry that is not a source key; a bare declaration becomes
/// `{ workspace = true }`. A table keeps its kind (inline or full).
pub open spec fn rewrite_spec(d: DeclModel) -> DeclModel {
    match d {
        DeclModel::Bare(_) => DeclModel::Table { inline: true, entries: seq![delegation_entry()] },
        DeclModel::Table { inline, entries } => DeclModel::Table {
            inline,
            entries: seq![delegation_entry()] + kept_entries(entries),
        },
    }
}

/// Rewrites a member's declaration to delegate to the shared table, keeping its
/// build attributes.
pub fn rewrite_decl(d: &Decl) -> (r: Decl)
    ensures
        r@ == rewrite_spec(d@),
{
    let mut out: Vec<Entry> = Vec::new();
    out.push(Entry { key: String::from_str("workspace"), value: Scalar::Bool(true) });
    assert(entries_view(out@) =~= seq![delegation_entry()]);
    match d {
        Decl::Bare(_) => Decl::Table { inline: true, entries: out },
        Decl::Table { inline, entries } => {
            let ghost ev = entries_view(entries@);
            let mut i: usize = 0;
            while i < entries.len()
                invariant
                    i <= entries.len(),
                    ev == entries_view(entries@),
                    entries_view(out@) == seq![delegation_entry()] + kept_entries(
                        ev.subrange(0, i as int),
                    ),
                decreases entries.len() - i,
            {
                assert(ev.subrange(0, i + 1).drop_last() =~= ev.subrange(0, i as int));
                assert(ev.subrange(0, i + 1).last() == entries@[i as int]@);
                if !source_key(entries[i].key.as_str()) {
                    let ghost prev = out@;
                    out.push(entries[i].duplicate());
                    assert(entries_view(out@) =~= entries_view(prev).push(entries@[i as int]@));
                }
                i = i + 1;
            }
            assert(ev.subrange(0, entries.len() as int) =~= ev);
            Decl::Table { inline: *inline, entries: out }
        },
    }
}

/// Whether a member's declaration is rewritten: its name is shared and it does
/// not delegate already.
pub open spec fn hoisted(nd: NamedModel, names: Seq<Seq<char>>) -> bool {
    names.contains(nd.name) && !is_delegating(nd.decl)
}

pub open spec fn rewritten(nd: NamedModel, names: Seq<Seq<char>>) -> NamedModel {
    if hoisted(nd, names) {
        NamedModel { name: nd.name, decl: rewrite_spec(nd.decl) }
    } else {
        nd
    }
}

/// A member's dependencies after the shared `names` have been hoisted.
pub open spec fn rewrite_all(deps: Seq<NamedModel>, names: Seq<Seq<char>>) -> Seq<NamedModel> {
    Seq::new(deps.len(), |i: int| rewritten(deps[i], names))
}

/// Rewrites a member's dependencies for the shared `names`; the flag says
/// whether any declaration changed, so that an untouched manifest is left as it
/// was.
pub fn rewrite_member(deps: &Vec<NamedDecl>, names: &Vec<String>) -> (r: (Vec<NamedDecl>, bool))
    ensures
        named_view(r.0@) == rewrite_all(named_view(deps@), strings_view(names@)),
        r.1 == exists|i: int|
            0 <= i < deps@.len() && hoisted(#[trigger] named_view(deps@)[i], strings_view(names@)),
        !r.1 ==> named_view(r.0@) == named_view(deps@),
{
    let ghost dv = named_view(deps@);
    let ghost nv = strings_view(names@);
    let mut out: Vec<NamedDecl> = Vec::new();
    let mut modified = false;
    let mut i: usize = 0;
    while i < deps.len()
        invariant
            i <= deps.len(),
            dv == named_view(deps@),
            nv == strings_view(names@),
            named_view(out@) == rewrite_all(dv.subrange(0, i as int), nv),
            modified == exists|j: int| 0 <= j < i && hoisted(#[trigger] dv[j], nv),
        decreases deps.len() - i,
    {
        let d = &deps[i];
        assert(dv[i as int] == d@);
        let ghost prev = out@;
        if contains_string(names, &d.name) && !d.decl.is_delegating() {
            out.push(NamedDecl { name: d.name.clone(), decl: rewrite_decl(&d.decl) });
            modified = true;
            assert(hoisted(dv[i as int], nv));
        } else {
            assert(!hoisted(dv[i as int], nv));
            out.push(NamedDecl { name: d.name.clone(), decl: d.decl.duplicate() });
        }
        assert(named_view(out@) =~= named_view(prev).push(rewritten(dv[i as int], nv)));
        assert(rewrite_all(dv.subrange(0, i + 1), nv) =~= rewrite_all(dv.subrange(0, i as int), nv).push(
            rewritten(dv[i as int], nv),
        ));
        i = i + 1;
    }
    assert(dv.subrange(0, deps.len() as int) =~= dv);
    proof {
        if !modified {
            assert(named_view(out@) =~= dv);
        }
    }
    (out, modified)
}


pub open spec fn names_of_named(v: Seq<NamedModel>) -> Seq<Seq<char>> {
    Seq::new(v.len(), |i: int| v[i].name)
}

pub open spec fn shared_names(shared: Seq<(Seq<char>, SourceModel)>) -> Seq<Seq<char>> {
    Seq::new(shared.len(), |i: int| shared[i].0)
}

/// The entries added to the shared table: one for each accepted name that is
/// neither among its `existing` keys nor added already.
pub open spec fn additions(existing: Seq<Seq<char>>, shared: Seq<(Seq<char>, SourceModel)>) -> Seq<
    NamedModel,
>
    decreases shared.len(),
{
    if shared.len() == 0 {
        Seq::empty()
    } else {
        let prev = additions(existing, shared.drop_last());
        let n = shared.last().0;
        if existing.contains(n) || names_of_named(prev).contains(n) {
            prev
        } else {
            prev.push(NamedModel { name: n, decl: shared_entry_spec(shared.last().1) })
        }
    }
}

/// The entries to add to the shared table whose keys are `existing`.
pub fn root_additions(existing: &Vec<String>, shared: &Vec<SharedDep>) -> (r: Vec<NamedDecl>)
    requires
        forall|i: int| 0 <= i < shared@.len() ==> !(#[trigger] shared@[i].source@ is Workspace),
    ensures
        named_view(r@) == additions(strings_view(existing@), shared_view(shared@)),
{
    let ghost sv = shared_view(shared@);
    let ghost ev = strings_view(existing@);
    let mut out: Vec<NamedDecl> = Vec::new();
    let mut added: Vec<String> = Vec::new();
    let mut i: usize = 0;
    while i < shared.len()
        invariant
            i <= shared.len(),
            sv == shared_view(shared@),
            ev == strings_view(existing@),
            forall|j: int| 0 <= j < shared@.len() ==> !(#[trigger] shared@[j].source@ is Workspace),
            named_view(out@) == additions(ev, sv.subrange(0, i as int)),
            strings_view(added@) == names_of_named(named_view(out@)),
        decreases shared.len() - i,
    {
        let sd = &shared[i];
        assert(sv.subrange(0, i + 1).drop_last() =~= sv.subrange(0, i as int));
        assert(sv.subrange(0, i + 1).last() == (sd.name@, sd.source@));
        if !contains_string(existing, &sd.name) && !contains_string(&added, &sd.name) {
            let ghost prev = out@;
            let ghost prev_added = added@;
            out.push(NamedDecl { name: sd.name.clone(), decl: shared_entry(&sd.source) });
            added.push(sd.name.clone());
            assert(named_view(out@) =~= named_view(prev).push(
                NamedModel { name: sd.name@, decl: shared_entry_spec(sd.source@) },
            ));
            assert(strings_view(added@) =~= strings_view(prev_added).push(sd.name@));
            assert(strings_view(added@) =~= names_of_named(named_view(out@)));
        }
        i = i + 1;
    }
    assert(sv.subrange(0, shared.len() as int) =~= sv);
    out
}

proof fn lemma_rewrite_delegates(d: DeclModel)
    ensures
        is_delegating(rewrite_spec(d)),
{
    let es = match rewrite_spec(d) {
        DeclModel::Table { entries, .. } => entries,
        DeclModel::Bare(_) => Seq::empty(),
    };
    let k = "workspace"@;
    assert(es[0] == delegation_entry());
    assert(first_at_zero(es, k));
    let c = choose|c: int| first_at(es, k, c);
    assert(c == 0) by {
        if c > 0 {
            assert(es[0].0 == k);
        }
    }
}

spec fn first_at_zero(es: Seq<(Seq<char>, ScalarModel)>, k: Seq<char>) -> bool {
    first_at(es, k, 0)
}

proof fn lemma_additions_cover(existing: Seq<Seq<char>>, shared: Seq<(Seq<char>, SourceModel)>)
    ensures
        forall|i: int|
            0 <= i < shared.len() ==> existing.contains(#[trigger] shared[i].0) || names_of_named(
                additions(existing, shared),
            ).contains(shared[i].0),
    decreases shared.len(),
{
    if shared.len() > 0 {
        let prev = additions(existing, shared.drop_last());
        lemma_additions_cover(existing, shared.drop_last());
        let now = additions(existing, shared);
        assert forall|i: int| 0 <= i < shared.len() implies existing.contains(
            #[trigger] shared[i].0,
        ) || names_of_named(now).contains(shared[i].0) by {
            if i < shared.len() - 1 {
                assert(shared.drop_last()[i] == shared[i]);
                if !existing.contains(shared[i].0) {
                    let j = choose|j: int|
                        0 <= j < names_of_named(prev).len() && names_of_named(prev)[j]
                            == shared[i].0;
                    if now != prev {
                        assert(names_of_named(now)[j] == shared[i].0);
                    }
                }
            } else {
                if !existing.contains(shared[i].0) && !names_of_named(prev).contains(
                    shared[i].0,
                ) {
                    assert(names_of_named(now)[prev.len() as int] == shared[i].0);
                }
            }
        }
    }
}

proof fn lemma_no_additions(existing: Seq<Seq<char>>, shared: Seq<(Seq<char>, SourceModel)>)
    requires
        forall|i: int| 0 <= i < shared.len() ==> existing.contains(#[trigger] shared[i].0),
    ensures
        additions(existing, shared).len() == 0,
    decreases shared.len(),
{
    if shared.len() > 0 {
        assert forall|i: int| 0 <= i < shared.drop_last().len() implies existing.contains(
            #[trigger] shared.drop_last()[i].0,
        ) by {
            assert(shared.drop_last()[i] == shared[i]);
        }
        lemma_no_additions(existing, shared.drop_last());
        assert(existing.contains(shared[shared.len() - 1].0));
    }
}

/// Running a second time right after a run changes nothing: no member
/// declaration of a shared name is rewritten again (each now delegates to the
/// shared table, so it is not even collected), and the shared table gains no
/// entry.
pub proof fn lemma_second_run_changes_nothing(
    deps: Seq<NamedModel>,
    existing: Seq<Seq<char>>,
    shared: Seq<(Seq<char>, SourceModel)>,
)
    ensures
        forall|i: int|
            0 <= i < deps.len() ==> !hoisted(
                #[trigger] rewrite_all(deps, shared_names(shared))[i],
                shared_names(shared),
            ),
        rewrite_all(rewrite_all(deps, shared_names(shared)), shared_names(shared)) == rewrite_all(
            deps,
            shared_names(shared),
        ),
        forall|i: int|
            0 <= i < deps.len() && shared_names(shared).contains(deps[i].name) ==> is_delegating(
                (#[trigger] rewrite_all(deps, shared_names(shared))[i]).decl,
            ),
        additions(existing + names_of_named(additions(existing, shared)), shared).len() == 0,
{
    let names = shared_names(shared);
    let once = rewrite_all(deps, names);
    assert forall|i: int| 0 <= i < deps.len() implies !hoisted(#[trigger] once[i], names) && (
    names.contains(deps[i].name) ==> is_delegating(once[i].decl)) by {
        lemma_rewrite_delegates(deps[i].decl);
    }
    assert(rewrite_all(once, names) =~= once);
    let added = names_of_named(additions(existing, shared));
    lemma_additions_cover(existing, shared);
    assert forall|i: int| 0 <= i < shared.len() implies (existing + added).contains(
        #[trigger] shared[i].0,
    ) by {
        if existing.contains(shared[i].0) {
            let j = choose|j: int| 0 <= j < existing.len() && existing[j] == shared[i].0;
            assert((existing + added)[j] == shared[i].0);
        } else {
            let j = choose|j: int| 0 <= j < added.len() && added[j] == shared[i].0;
            assert((existing + added)[existing.len() + j] == shared[i].0);
        }
    }
    lemma_no_additions(existing + added, shared);
}


/// A name that was not accepted for sharing (skipped by the operator, say)
/// leaves every member's declaration of it as it was.
pub proof fn lemma_unshared_name_untouched(deps: Seq<NamedModel>, names: Seq<Seq<char>>, i: int)
    requires
        0 <= i < deps.len(),
        !names.contains(deps[i].name),
    ensures
        rewrite_all(deps, names)[i] == deps[i],
{
}

} // verus!
