//! Settling, for each dependency name, the one source to share.
use vstd::prelude::*;
use vstd::string::StrSliceExecFns;
use crate::collect::{occ_view, OccModel, Occurrence};
use crate::source::{DepSource, SourceModel};

verus! {

pub open spec fn strings_view(v: Seq<String>) -> Seq<Seq<char>> {
    v.map_values(|s: String| s@)
}

pub open spec fn sources_view(v: Seq<DepSource>) -> Seq<SourceModel> {
    v.map_values(|s: DepSource| s@)
}

/// The names that occur, each once, in the order they are first seen.
pub open spec fn names_of(os: Seq<OccModel>) -> Seq<Seq<char>>
    decreases os.len(),
{
    if os.len() == 0 {
        Seq::empty()
    } else {
        let prev = names_of(os.drop_last());
        if prev.contains(os.last().name) {
            prev
        } else {
            prev.push(os.last().name)
        }
    }
}

/// The distinct sources declared for `name`, in the order they are first seen.
pub open spec fn sources_for(os: Seq<OccModel>, name: Seq<char>) -> Seq<SourceModel>
    decreases os.len(),
{
    if os.len() == 0 {
        Seq::empty()
    } else {
        let prev = sources_for(os.drop_last(), name);
        if os.last().name != name || prev.contains(os.last().source) {
            prev
        } else {
            prev.push(os.last().source)
        }
    }
}

/// Whether `v` holds a string equal to `s`.
pub fn contains_string(v: &Vec<String>, s: &String) -> (r: bool)
    ensures
        r == strings_view(v@).contains(s@),
{
    let ghost w = strings_view(v@);
    let mut i: usize = 0;
    while i < v.len()
        invariant
            i <= v.len(),
            w == strings_view(v@),
            forall|j: int| 0 <= j < i ==> w[j] != s@,
        decreases v.len() - i,
    {
        assert(w[i as int] == v@[i as int]@);
        if v[i] == *s {
            assert(w[i as int] == s@);
            return true;
        }
        i = i + 1;
    }
    false
}

/// Whether `v` holds a source equal to `s`.
pub fn contains_source(v: &Vec<DepSource>, s: &DepSource) -> (r: bool)
    ensures
        r == sources_view(v@).contains(s@),
{
    let ghost w = sources_view(v@);
    let mut i: usize = 0;
    while i < v.len()
        invariant
            i <= v.len(),
            w == sources_view(v@),
            forall|j: int| 0 <= j < i ==> w[j] != s@,
        decreases v.len() - i,
    {
        assert(w[i as int] == v@[i as int]@);
        if v[i].same_as(s) {
            assert(w[i as int] == s@);
            return true;
        }
        i = i + 1;
    }
    false
}

/// The dependency names that occur, each once, in first-seen order.
pub fn dep_names(occs: &Vec<Occurrence>) -> (r: Vec<String>)
    ensures
        strings_view(r@) == names_of(occ_view(occs@)),
        strings_view(r@).no_duplicates(),
        forall|i: int|
            0 <= i < occs@.len() ==> strings_view(r@).contains(#[trigger] occs@[i].name@),
{
    let ghost ov = occ_view(occs@);
    let mut out: Vec<String> = Vec::new();
    let mut i: usize = 0;
    while i < occs.len()
        invariant
            i <= occs.len(),
            ov == occ_view(occs@),
            strings_view(out@) == names_of(ov.subrange(0, i as int)),
            strings_view(out@).no_duplicates(),
            forall|j: int| 0 <= j < i ==> strings_view(out@).contains(#[trigger] occs@[j].name@),
        decreases occs.len() - i,
    {
        assert(ov.subrange(0, i + 1).drop_last() =~= ov.subrange(0, i as int));
        assert(ov.subrange(0, i + 1).last() == occs@[i as int]@);
        if !contains_string(&out, &occs[i].name) {
            let ghost prev = out@;
            out.push(occs[i].name.clone());
            assert(strings_view(out@) =~= strings_view(prev).push(occs@[i as int].name@));
            assert forall|j: int| 0 <= j <= i implies strings_view(out@).contains(
                #[trigger] occs@[j].name@,
            ) by {
                if j < i {
                    let k = choose|k: int|
                        0 <= k < strings_view(prev).len() && strings_view(prev)[k]
                            == occs@[j].name@;
                    assert(strings_view(out@)[k] == occs@[j].name@);
                } else {
                    assert(strings_view(out@)[prev.len() as int] == occs@[j].name@);
                }
            }
        }
        i = i + 1;
    }
    assert(ov.subrange(0, occs.len() as int) =~= ov);
    out
}

/// The distinct sources declared for `name`, in first-seen order.
pub fn distinct_sources(occs: &Vec<Occurrence>, name: &String) -> (r: Vec<DepSource>)
    ensures
        sources_view(r@) == sources_for(occ_view(occs@), name@),
        sources_view(r@).no_duplicates(),
{
    let ghost ov = occ_view(occs@);
    let mut out: Vec<DepSource> = Vec::new();
    let mut i: usize = 0;
    while i < occs.len()
        invariant
            i <= occs.len(),
            ov == occ_view(occs@),
            sources_view(out@) == sources_for(ov.subrange(0, i as int), name@),
            sources_view(out@).no_duplicates(),
        decreases occs.len() - i,
    {
        assert(ov.subrange(0, i + 1).drop_last() =~= ov.subrange(0, i as int));
        assert(ov.subrange(0, i + 1).last() == occs@[i as int]@);
        if occs[i].name == *name && !contains_source(&out, &occs[i].source) {
            let ghost prev = out@;
            out.push(occs[i].source.duplicate());
            assert(sources_view(out@) =~= sources_view(prev).push(occs@[i as int].source@));
        }
        i = i + 1;
    }
    assert(ov.subrange(0, occs.len() as int) =~= ov);
    out
}

/// The source accepted among `options` for the operator's `choice`: the only
/// option where there is one; where there are several, option `choice`
/// counted from 1, and none for 0 or a number past the last.
pub open spec fn accept_spec(options: Seq<SourceModel>, choice: int) -> Option<SourceModel> {
    if options.len() == 0 {
        None
    } else if options.len() == 1 {
        Some(options[0])
    } else if 1 <= choice <= options.len() {
        Some(options[choice - 1])
    } else {
        None
    }
}

/// Picks the shared source among the distinct `options` of one name.
pub fn accept(options: &Vec<DepSource>, choice: usize) -> (r: Option<DepSource>)
    ensures
        match r {
            Some(s) => accept_spec(sources_view(options@), choice as int) == Some(s@),
            None => accept_spec(sources_view(options@), choice as int) is None,
        },
{
    let ghost w = sources_view(options@);
    if options.len() == 0 {
        None
    } else if options.len() == 1 {
        assert(w[0] == options@[0]@);
        Some(options[0].duplicate())
    } else if 1 <= choice && choice <= options.len() {
        assert(w[choice - 1] == options@[choice - 1]@);
        Some(options[choice - 1].duplicate())
    } else {
        None
    }
}

/// The text of an answer without its surrounding whitespace, as `str::trim` gives it.
pub uninterp spec fn trim_of(s: Seq<char>) -> Seq<char>;

/// Relies on `str::trim`: the answer without leading and trailing whitespace,
/// which depends on the text alone.
#[verifier::external_body]
fn trim(s: &str) -> (r: &str)
    ensures
        r@ == trim_of(s@),
{
    s.trim()
}

pub open spec fn is_digit(c: char) -> bool {
    '0' <= c <= '9'
}

pub open spec fn digit_value(c: char) -> nat {
    if is_digit(c) {
        (c as u32 - '0' as u32) as nat
    } else {
        0
    }
}

/// The value of a string of decimal digits.
pub open spec fn digits_value(s: Seq<char>) -> nat
    decreases s.len(),
{
    if s.len() == 0 {
        0
    } else {
        digits_value(s.drop_last()) * 10 + digit_value(s.last())
    }
}

/// The digits of a number without its optional leading `+`.
pub open spec fn unsigned_part(s: Seq<char>) -> Seq<char> {
    if s.len() > 0 && s[0] == '+' {
        s.drop_first()
    } else {
        s
    }
}

/// The number an answer states: one or more decimal digits after an optional
/// `+`, and a value that fits a `usize`; else the answer chooses 0.
pub open spec fn choice_of(t: Seq<char>) -> nat {
    let d = unsigned_part(t);
    if d.len() > 0 && (forall|i: int| 0 <= i < d.len() ==> is_digit(#[trigger] d[i]))
        && digits_value(d) <= usize::MAX {
        digits_value(d)
    } else {
        0
    }
}

proof fn lemma_digits_value_grows(s: Seq<char>, k: int)
    requires
        0 <= k <= s.len(),
    ensures
        digits_value(s.subrange(0, k)) <= digits_value(s),
    decreases s.len(),
{
    if k < s.len() {
        lemma_digits_value_grows(s.drop_last(), k);
        assert(s.drop_last().subrange(0, k) =~= s.subrange(0, k));
    } else {
        assert(s.subrange(0, k) =~= s);
    }
}

/// The operator's choice in an already trimmed answer; 0 where it states no number.
pub fn parse_choice_trimmed(t: &str) -> (r: usize)
    ensures
        r as nat == choice_of(t@),
{
    let n = t.unicode_len();
    let mut start: usize = 0;
    if n > 0 && t.get_char(0) == '+' {
        start = 1;
    }
    let ghost d = unsigned_part(t@);
    assert(d =~= t@.subrange(start as int, n as int));
    if start == n {
        return 0;
    }
    let mut acc: usize = 0;
    let mut i: usize = start;
    while i < n
        invariant
            start <= i <= n,
            n == t@.len(),
            d == t@.subrange(start as int, n as int),
            d == unsigned_part(t@),
            acc as nat == digits_value(d.subrange(0, i - start)),
            forall|j: int| 0 <= j < i - start ==> is_digit(#[trigger] d[j]),
        decreases n - i,
    {
        let c = t.get_char(i);
        assert(d[i - start] == c);
        if !('0' <= c && c <= '9') {
            assert(!is_digit(d[i - start]));
            return 0;
        }
        let dv = (c as u32 - '0' as u32) as usize;
        assert(digit_value(c) == dv as nat);
        assert(d.subrange(0, i + 1 - start).drop_last() =~= d.subrange(0, i - start));
        assert(d.subrange(0, i + 1 - start).last() == c);
        match acc.checked_mul(10) {
            Some(m) => match m.checked_add(dv) {
                Some(v) => {
                    acc = v;
                },
                None => {
                    proof {
                        lemma_digits_value_grows(d, i + 1 - start);
                    }
                    return 0;
                },
            },
            None => {
                proof {
                    lemma_digits_value_grows(d, i + 1 - start);
                }
                return 0;
            },
        }
        i = i + 1;
    }
    assert(d.subrange(0, n - start) =~= d);
    acc
}

/// The operator's choice in a line of input: the number it states, or 0 (skip)
/// where it is empty, not a number, or too large.
pub fn parse_choice(line: &str) -> (r: usize)
    ensures
        r as nat == choice_of(trim_of(line@)),
{
    parse_choice_trimmed(trim(line))
}

/// An answer that is empty, not a number, or outside the listed options
/// shares nothing for a name with conflicting sources.
pub proof fn lemma_invalid_answer_skips(options: Seq<SourceModel>, line: Seq<char>)
    requires
        options.len() > 1,
        choice_of(trim_of(line)) == 0 || choice_of(trim_of(line)) > options.len(),
    ensures
        accept_spec(options, choice_of(trim_of(line)) as int) is None,
{
}

} // verus!
