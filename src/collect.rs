//! Gathering, across all members, the declarations that could be shared.
use vstd::prelude::*;
use crate::classify::{classify, classify_spec};
use crate::decl::{is_delegating, Decl, DeclModel};
use crate::source::{opt_view, DepSource, SourceModel};

verus! {

/// The mathematical value of a `Declared`.
pub struct DeclaredModel {
    pub member: usize,
    pub name: Seq<char>,
    pub decl: DeclModel,
    pub resolved: Option<Seq<char>>,
}

/// One entry of a member's `[dependencies]`, with the root-relative form of
/// its local path where it names one that could be resolved.
#[derive(Debug, PartialEq)]
pub struct Declared {
    pub member: usize,
    pub name: String,
    pub decl: Decl,
    pub resolved: Option<String>,
}

impl View for Declared {
    type V = DeclaredModel;

    open spec fn view(&self) -> DeclaredModel {
        DeclaredModel {
            member: self.member,
            name: self.name@,
            decl: self.decl@,
            resolved: opt_view(self.resolved),
        }
    }
}

/// The mathematical value of an `Occurrence`.
pub struct OccModel {
    pub member: usize,
    pub name: Seq<char>,
    pub source: SourceModel,
}

/// A member's declaration of a dependency, with the source it names.
#[derive(Debug, PartialEq)]
pub struct Occurrence {
    pub member: usize,
    pub name: String,
    pub source: DepSource,
}

impl View for Occurrence {
    type V = OccModel;

    open spec fn view(&self) -> OccModel {
        OccModel { member: self.member, name: self.name@, source: self.source@ }
    }
}

pub open spec fn declared_view(ds: Seq<Declared>) -> Seq<DeclaredModel> {
    ds.map_values(|d: Declared| d@)
}

pub open spec fn occ_view(os: Seq<Occurrence>) -> Seq<OccModel> {
    os.map_values(|o: Occurrence| o@)
}

/// What a single declaration contributes: nothing where it already delegates to
/// the shared table or its source is unrecognized, else its source.
pub open spec fn occurrence_of(d: DeclaredModel) -> Option<OccModel> {
    if is_delegating(d.decl) {
        None
    } else {
        match classify_spec(d.decl, d.resolved) {
            Some(SourceModel::Workspace) => None,
            Some(s) => Some(OccModel { member: d.member, name: d.name, source: s }),
            None => None,
        }
    }
}

/// The occurrences of a sequence of declarations, in their order.
pub open spec fn occurrences(ds: Seq<DeclaredModel>) -> Seq<OccModel>
    decreases ds.len(),
{
    if ds.len() == 0 {
        Seq::empty()
    } else {
        let prev = occurrences(ds.drop_last());
        match occurrence_of(ds.last()) {
            Some(o) => prev.push(o),
            None => prev,
        }
    }
}

/// Collects the occurrences of all members' declarations, given in the order
/// of the members and, within one, of their manifest.
pub fn collect(ds: &Vec<Declared>) -> (r: Vec<Occurrence>)
    ensures
        occ_view(r@) == occurrences(declared_view(ds@)),
{
    let ghost dv = declared_view(ds@);
    let mut out: Vec<Occurrence> = Vec::new();
    let mut i: usize = 0;
    while i < ds.len()
        invariant
            i <= ds.len(),
            dv == declared_view(ds@),
            occ_view(out@) == occurrences(dv.subrange(0, i as int)),
        decreases ds.len() - i,
    {
        let d = &ds[i];
        assert(dv.subrange(0, i + 1).drop_last() =~= dv.subrange(0, i as int));
        assert(dv.subrange(0, i + 1).last() == d@);
        if !d.decl.is_delegating() {
            match classify(&d.decl, &d.resolved) {
                Some(DepSource::Workspace) => {},
                Some(s) => {
                    let o = Occurrence { member: d.member, name: d.name.clone(), source: s };
                    let ghost prev = out@;
                    let ghost ov = o@;
                    out.push(o);
                    assert(occ_view(out@) =~= occ_view(prev).push(ov));
                },
                None => {},
            }
        }
        i = i + 1;
    }
    assert(dv.subrange(0, ds.len() as int) =~= dv);
    out
}

proof fn lemma_occurrences_append(a: Seq<DeclaredModel>, b: Seq<DeclaredModel>)
    ensures
        occurrences(a + b) == occurrences(a) + occurrences(b),
    decreases b.len(),
{
    if b.len() == 0 {
        assert(a + b =~= a);
        assert(occurrences(a) + occurrences(b) =~= occurrences(a));
    } else {
        lemma_occurrences_append(a, b.drop_last());
        assert((a + b).drop_last() =~= a + b.drop_last());
        assert((a + b).last() == b.last());
        match occurrence_of(b.last()) {
            Some(o) => {
                assert(occurrences(a) + occurrences(b.drop_last()).push(o) =~= (occurrences(a)
                    + occurrences(b.drop_last())).push(o));
            },
            None => {},
        }
    }
}

/// A declaration that already delegates to the shared table is never
/// collected: removing it leaves the occurrences unchanged, whatever the other
/// members declare for the same name.
pub proof fn lemma_delegating_never_collected(ds: Seq<DeclaredModel>, i: int)
    requires
        0 <= i < ds.len(),
        is_delegating(ds[i].decl),
    ensures
        occurrences(ds) == occurrences(ds.remove(i)),
{
    let a = ds.subrange(0, i);
    let x = seq![ds[i]];
    let c = ds.subrange(i + 1, ds.len() as int);
    assert(ds =~= a + x + c);
    assert(ds.remove(i) =~= a + c);
    lemma_occurrences_append(a + x, c);
    lemma_occurrences_append(a, x);
    lemma_occurrences_append(a, c);
    assert(x.drop_last() =~= Seq::<DeclaredModel>::empty());
    assert(x.last() == ds[i]);
    assert(occurrence_of(ds[i]) is None);
    assert(occurrences(x.drop_last()) == Seq::<OccModel>::empty());
    assert(occurrences(x) == Seq::<OccModel>::empty());
    assert(occurrences(a) + occurrences(x) =~= occurrences(a));
}

} // verus!
