//! A plain-value model of one dependency declaration of a manifest.
use vstd::prelude::*;
use vstd::string::StrSliceExecFns;

verus! {

/// The mathematical value of a `Scalar`.
pub enum ScalarModel {
    Str(Seq<char>),
    Bool(bool),
    Other,
}

/// A value in a declaration, as far as the consolidation logic reads it.
#[derive(Debug, PartialEq)]
pub enum Scalar {
    Str(String),
    Bool(bool),
    /// Any other value (an array, a number, a nested table); kept as it was.
    Other,
}

impl View for Scalar {
    type V = ScalarModel;

    open spec fn view(&self) -> ScalarModel {
        match self {
            Scalar::Str(s) => ScalarModel::Str(s@),
            Scalar::Bool(b) => ScalarModel::Bool(*b),
            Scalar::Other => ScalarModel::Other,
        }
    }
}

impl Scalar {
    pub fn duplicate(&self) -> (r: Scalar)
        ensures
            r@ == self@,
    {
        match self {
            Scalar::Str(s) => Scalar::Str(s.clone()),
            Scalar::Bool(b) => Scalar::Bool(*b),
            Scalar::Other => Scalar::Other,
        }
    }
}

/// One `key = value` pair of a table declaration.
#[derive(Debug, PartialEq)]
pub struct Entry {
    pub key: String,
    pub value: Scalar,
}

impl View for Entry {
    type V = (Seq<char>, ScalarModel);

    open spec fn view(&self) -> (Seq<char>, ScalarModel) {
        (self.key@, self.value@)
    }
}

impl Entry {
    pub fn duplicate(&self) -> (r: Entry)
        ensures
            r@ == self@,
    {
        Entry { key: self.key.clone(), value: self.value.duplicate() }
    }
}

/// The mathematical value of a `Decl`.
pub enum DeclModel {
    Bare(ScalarModel),
    Table { inline: bool, entries: Seq<(Seq<char>, ScalarModel)> },
}

/// A dependency declaration: a bare value, or a table (inline or full) of entries.
#[derive(Debug, PartialEq)]
pub enum Decl {
    Bare(Scalar),
    Table { inline: bool, entries: Vec<Entry> },
}

pub open spec fn entries_view(es: Seq<Entry>) -> Seq<(Seq<char>, ScalarModel)> {
    es.map_values(|e: Entry| e@)
}

impl View for Decl {
    type V = DeclModel;

    open spec fn view(&self) -> DeclModel {
        match self {
            Decl::Bare(s) => DeclModel::Bare(s@),
            Decl::Table { inline, entries } => DeclModel::Table {
                inline: *inline,
                entries: entries_view(entries@),
            },
        }
    }
}

/// Whether `i` is the first position of key `k`.
pub open spec fn first_at(es: Seq<(Seq<char>, ScalarModel)>, k: Seq<char>, i: int) -> bool {
    &&& 0 <= i < es.len()
    &&& es[i].0 == k
    &&& forall|j: int| 0 <= j < i ==> es[j].0 != k
}

/// The value of the first entry with key `k`, as a table lookup gives it.
pub open spec fn lookup(es: Seq<(Seq<char>, ScalarModel)>, k: Seq<char>) -> Option<ScalarModel> {
    if exists|i: int| first_at(es, k, i) {
        Some(es[choose|i: int| first_at(es, k, i)].1)
    } else {
        None
    }
}

/// The string stored under `k`, if that value is a string.
pub open spec fn str_at(es: Seq<(Seq<char>, ScalarModel)>, k: Seq<char>) -> Option<Seq<char>> {
    match lookup(es, k) {
        Some(ScalarModel::Str(s)) => Some(s),
        _ => None,
    }
}

/// Whether a declaration is a table whose `workspace` key is `true`.
pub open spec fn is_delegating(d: DeclModel) -> bool {
    match d {
        DeclModel::Table { entries, .. } => lookup(entries, "workspace"@) == Some(
            ScalarModel::Bool(true),
        ),
        DeclModel::Bare(_) => false,
    }
}

/// Whether two strings are equal.
pub fn str_equal(a: &str, b: &str) -> (r: bool)
    ensures
        r == (a@ == b@),
{
    let n = a.unicode_len();
    if n != b.unicode_len() {
        return false;
    }
    let mut i: usize = 0;
    while i < n
        invariant
            i <= n,
            n == a@.len(),
            n == b@.len(),
            forall|j: int| 0 <= j < i ==> a@[j] == b@[j],
        decreases n - i,
    {
        if a.get_char(i) != b.get_char(i) {
            return false;
        }
        i = i + 1;
    }
    assert(a@ =~= b@);
    true
}

/// The position of the first entry with key `k`.
pub fn find_key(es: &Vec<Entry>, k: &str) -> (r: Option<usize>)
    ensures
        match r {
            Some(i) => first_at(entries_view(es@), k@, i as int) && lookup(entries_view(es@), k@)
                == Some(es@[i as int].value@),
            None => lookup(entries_view(es@), k@) is None,
        },
{
    let ghost v = entries_view(es@);
    let mut i: usize = 0;
    while i < es.len()
        invariant
            i <= es.len(),
            v == entries_view(es@),
            forall|j: int| 0 <= j < i ==> v[j].0 != k@,
        decreases es.len() - i,
    {
        assert(v[i as int] == es@[i as int]@);
        if str_equal(es[i].key.as_str(), k) {
            assert(first_at(v, k@, i as int));
            let ghost c = choose|c: int| first_at(v, k@, c);
            assert(c == i) by {
                if c < i {
                } else if c > i {
                    assert(v[i as int].0 == k@);
                }
            }
            return Some(i);
        }
        i = i + 1;
    }
    assert(!exists|c: int| first_at(v, k@, c));
    None
}

/// The string stored under `k`, if that value is a string.
pub fn get_str<'a>(es: &'a Vec<Entry>, k: &str) -> (r: Option<&'a String>)
    ensures
        match r {
            Some(s) => str_at(entries_view(es@), k@) == Some(s@),
            None => str_at(entries_view(es@), k@) is None,
        },
{
    match find_key(es, k) {
        Some(i) => match &es[i].value {
            Scalar::Str(s) => Some(s),
            _ => None,
        },
        None => None,
    }
}

/// Whether the value under `k` is the boolean `true`.
pub fn is_true_at(es: &Vec<Entry>, k: &str) -> (r: bool)
    ensures
        r == (lookup(entries_view(es@), k@) == Some(ScalarModel::Bool(true))),
{
    match find_key(es, k) {
        Some(i) => match &es[i].value {
            Scalar::Bool(b) => *b,
            _ => false,
        },
        None => false,
    }
}

/// A copy of a list of entries.
pub fn copy_entries(es: &Vec<Entry>) -> (r: Vec<Entry>)
    ensures
        entries_view(r@) == entries_view(es@),
{
    let mut out: Vec<Entry> = Vec::new();
    let mut i: usize = 0;
    while i < es.len()
        invariant
            i <= es.len(),
            entries_view(out@) == entries_view(es@.subrange(0, i as int)),
        decreases es.len() - i,
    {
        let ghost prev = out@;
        out.push(es[i].duplicate());
        assert(entries_view(out@) =~= entries_view(prev).push(es@[i as int]@));
        assert(entries_view(es@.subrange(0, i + 1)) =~= entries_view(es@.subrange(0, i as int)).push(
            es@[i as int]@,
        ));
        i = i + 1;
    }
    assert(es@.subrange(0, es.len() as int) =~= es@);
    out
}

impl Decl {
    pub fn duplicate(&self) -> (r: Decl)
        ensures
            r@ == self@,
    {
        match self {
            Decl::Bare(s) => Decl::Bare(s.duplicate()),
            Decl::Table { inline, entries } => Decl::Table {
                inline: *inline,
                entries: copy_entries(entries),
            },
        }
    }

    /// Whether this declaration already delegates to the shared table.
    pub fn is_delegating(&self) -> (r: bool)
        ensures
            r == is_delegating(self@),
    {
        match self {
            Decl::Table { entries, .. } => is_true_at(entries, "workspace"),
            Decl::Bare(_) => false,
        }
    }
}

} // verus!
