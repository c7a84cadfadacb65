//! Section-level diffs of `memo.md` files and their application.
//!
//! A memo is a markdown document whose `## Name` headers open sections; a
//! `# Title` header closes the current section. Lines before the first section
//! header belong to no section.

use vstd::prelude::*;
use crate::text::{join, lines, starts_with, ends_with, trim, strs};

verus! {

/// Section name and body lines while a memo is being read.
pub struct ParseState {
    pub done: Seq<(Seq<char>, Seq<Seq<char>>)>,
    pub cur: Seq<char>,
    pub body: Seq<Seq<char>>,
}

/// The finished sections plus the open one, if it has a name.
pub open spec fn close_section(st: ParseState) -> Seq<(Seq<char>, Seq<Seq<char>>)> {
    if st.cur.len() > 0 {
        st.done.push((st.cur, st.body))
    } else {
        st.done
    }
}

/// Reads one line of a memo.
pub open spec fn parse_step(st: ParseState, line: Seq<char>) -> ParseState {
    if starts_with(line, "## "@) {
        ParseState { done: close_section(st), cur: trim(line.skip(3)), body: Seq::empty() }
    } else if starts_with(line, "# "@) {
        ParseState { done: close_section(st), cur: Seq::empty(), body: Seq::empty() }
    } else if st.cur.len() > 0 {
        ParseState { done: st.done, cur: st.cur, body: st.body.push(line) }
    } else {
        st
    }
}

/// The state after reading `ls` from the start of a memo.
pub open spec fn parse_fold(ls: Seq<Seq<char>>) -> ParseState
    decreases ls.len(),
{
    if ls.len() == 0 {
        ParseState { done: Seq::empty(), cur: Seq::empty(), body: Seq::empty() }
    } else {
        parse_step(parse_fold(ls.drop_last()), ls.last())
    }
}

/// Sections of a memo in document order, each body joined with `\n`.
pub open spec fn parse_ordered(content: Seq<char>) -> Seq<(Seq<char>, Seq<char>)> {
    close_section(parse_fold(lines(content))).map_values(
        |p: (Seq<char>, Seq<Seq<char>>)| (p.0, join(p.1, "\n"@)),
    )
}

/// Position of the first section named `name`, or `secs.len()`.
pub open spec fn find_name(secs: Seq<(Seq<char>, Seq<char>)>, name: Seq<char>) -> int
    decreases secs.len(),
{
    if secs.len() == 0 {
        0
    } else if secs[0].0 == name {
        0
    } else {
        1 + find_name(secs.drop_first(), name)
    }
}

/// Sections keyed by name: each name once, at its first position, with the body
/// of its last occurrence.
pub open spec fn dedup_sections(secs: Seq<(Seq<char>, Seq<char>)>) -> Seq<(Seq<char>, Seq<char>)>
    decreases secs.len(),
{
    if secs.len() == 0 {
        Seq::empty()
    } else {
        let prev = dedup_sections(secs.drop_last());
        let k = find_name(prev, secs.last().0);
        if k < prev.len() {
            prev.update(k, secs.last())
        } else {
            prev.push(secs.last())
        }
    }
}


/// Sections with their bodies joined by `\n`.
pub open spec fn joined(secs: Seq<(Seq<char>, Seq<Seq<char>>)>) -> Seq<(Seq<char>, Seq<char>)> {
    secs.map_values(|p: (Seq<char>, Seq<Seq<char>>)| (p.0, join(p.1, "\n"@)))
}

/// Views of (name, body) pairs held as character vectors.
pub open spec fn sec_views(v: Seq<(Vec<char>, Vec<char>)>) -> Seq<(Seq<char>, Seq<char>)> {
    v.map_values(|p: (Vec<char>, Vec<char>)| (p.0@, p.1@))
}

pub open spec fn line_views(v: Seq<Vec<char>>) -> Seq<Seq<char>> {
    v.map_values(|l: Vec<char>| l@)
}

/// Sections of a memo in document order.
fn parse_sections_ordered(content: &[char]) -> (r: Vec<(Vec<char>, Vec<char>)>)
    ensures
        sec_views(r@) == parse_ordered(content@),
{
    let ls = crate::text::split_lines(content);
    let ghost lv = line_views(ls@);
    let h2 = crate::text::to_chars("## ");
    let h1 = crate::text::to_chars("# ");
    let nl = crate::text::to_chars("\n");
    let mut done: Vec<(Vec<char>, Vec<char>)> = Vec::new();
    let mut cur: Vec<char> = Vec::new();
    let mut body: Vec<Vec<char>> = Vec::new();
    let mut i: usize = 0;
    while i < ls.len()
        invariant
            i <= lv.len(),
            lv == line_views(ls@),
            lv == lines(content@),
            h2@ == "## "@,
            h1@ == "# "@,
            nl@ == "\n"@,
            sec_views(done@) == joined(parse_fold(lv.take(i as int)).done),
            cur@ == parse_fold(lv.take(i as int)).cur,
            line_views(body@) == parse_fold(lv.take(i as int)).body,
        decreases lv.len() - i,
    {
        let ghost st = parse_fold(lv.take(i as int));
        proof {
            assert(lv.take(i + 1).drop_last() =~= lv.take(i as int));
            assert(lv.take(i + 1).last() == ls@[i as int]@);
        }
        let line = &ls[i];
        let is_h2 = crate::text::starts_with_chars(line.as_slice(), h2.as_slice());
        let is_h1 = crate::text::starts_with_chars(line.as_slice(), h1.as_slice());
        if is_h2 || is_h1 {
            if cur.len() > 0 {
                let content_joined = crate::text::join_chars(&body, nl.as_slice());
                let ghost before = done@;
                done.push((cur, content_joined));
                proof {
                    assert(sec_views(done@) =~= sec_views(before).push((st.cur, join(st.body, "\n"@))));
                    assert(joined(st.done.push((st.cur, st.body))) =~= joined(st.done).push((st.cur, join(st.body, "\n"@))));
                }
            }
            if is_h2 {
                proof {
                    reveal_strlit("## ");
                    assert(h2@.len() == 3);
                }
                let rest = crate::text::slice_range(line.as_slice(), 3, line.len());
                proof {
                    assert(rest@ =~= line@.skip(3));
                }
                cur = crate::text::trim_chars(rest.as_slice());
            } else {
                cur = Vec::new();
            }
            body = Vec::new();
            proof {
                assert(line_views(body@) =~= Seq::<Seq<char>>::empty());
            }
        } else if cur.len() > 0 {
            let ghost before = body@;
            body.push(copy_chars(line));
            proof {
                assert(line_views(body@) =~= line_views(before).push(line@));
            }
        }
        i = i + 1;
    }
    let ghost st = parse_fold(lv);
    proof {
        assert(lv.take(lv.len() as int) =~= lv);
    }
    if cur.len() > 0 {
        let content_joined = crate::text::join_chars(&body, nl.as_slice());
        let ghost before = done@;
        done.push((cur, content_joined));
        proof {
            assert(sec_views(done@) =~= sec_views(before).push((st.cur, join(st.body, "\n"@))));
            assert(joined(st.done.push((st.cur, st.body))) =~= joined(st.done).push((st.cur, join(st.body, "\n"@))));
        }
    }
    proof {
        assert(sec_views(done@) =~= parse_ordered(content@));
    }
    done
}

/// Copy of a character vector.
pub fn copy_chars(v: &Vec<char>) -> (r: Vec<char>)
    ensures
        r@ == v@,
{
    crate::text::slice_range(v.as_slice(), 0, v.len())
}


/// The first section named `name` is at `k` when it is there and none
/// before it has that name.
pub proof fn lemma_find_name_is(secs: Seq<(Seq<char>, Seq<char>)>, name: Seq<char>, k: int)
    requires
        0 <= k <= secs.len(),
        k < secs.len() ==> secs[k].0 == name,
        forall|j: int| 0 <= j < k ==> secs[j].0 != name,
    ensures
        find_name(secs, name) == k,
    decreases secs.len(),
{
    if secs.len() > 0 && k > 0 {
        lemma_find_name_is(secs.drop_first(), name, k - 1);
    }
}

/// `find_name` is the position of the first section named `name`, or the
/// number of sections when none is.
pub proof fn lemma_find_name_bounds(secs: Seq<(Seq<char>, Seq<char>)>, name: Seq<char>)
    ensures
        0 <= find_name(secs, name) <= secs.len(),
        find_name(secs, name) < secs.len() ==> secs[find_name(secs, name)].0 == name,
        forall|j: int| 0 <= j < find_name(secs, name) ==> secs[j].0 != name,
    decreases secs.len(),
{
    if secs.len() > 0 && secs[0].0 != name {
        lemma_find_name_bounds(secs.drop_first(), name);
        assert forall|j: int| 0 <= j < find_name(secs, name) implies secs[j].0 != name by {
            if j > 0 {
                assert(secs[j] == secs.drop_first()[j - 1]);
            }
        }
    }
}

/// Position of the first section named `name`, or the number of sections.
fn find_name_exec(secs: &Vec<(Vec<char>, Vec<char>)>, name: &[char]) -> (k: usize)
    ensures
        k as int == find_name(sec_views(secs@), name@),
        k <= secs@.len(),
{
    let mut i: usize = 0;
    while i < secs.len()
        invariant
            i <= secs@.len(),
            forall|j: int| 0 <= j < i ==> sec_views(secs@)[j].0 != name@,
        decreases secs@.len() - i,
    {
        proof {
            assert(sec_views(secs@)[i as int].0 == secs@[i as int].0@);
        }
        if crate::text::chars_eq(secs[i].0.as_slice(), name) {
            proof {
                lemma_find_name_is(sec_views(secs@), name@, i as int);
            }
            return i;
        }
        i = i + 1;
    }
    proof {
        lemma_find_name_is(sec_views(secs@), name@, i as int);
    }
    i
}

fn copy_pair(p: &(Vec<char>, Vec<char>)) -> (r: (Vec<char>, Vec<char>))
    ensures
        r.0@ == p.0@,
        r.1@ == p.1@,
{
    (copy_chars(&p.0), copy_chars(&p.1))
}

/// Sections keyed by name (see `dedup_sections`).
fn dedup_sections_exec(secs: &Vec<(Vec<char>, Vec<char>)>) -> (r: Vec<(Vec<char>, Vec<char>)>)
    ensures
        sec_views(r@) == dedup_sections(sec_views(secs@)),
{
    let ghost sv = sec_views(secs@);
    let mut out: Vec<(Vec<char>, Vec<char>)> = Vec::new();
    let mut i: usize = 0;
    while i < secs.len()
        invariant
            i <= sv.len(),
            sv == sec_views(secs@),
            sec_views(out@) == dedup_sections(sv.take(i as int)),
        decreases sv.len() - i,
    {
        proof {
            assert(sv.take(i + 1).drop_last() =~= sv.take(i as int));
            assert(sv.take(i + 1).last() == sv[i as int]);
        }
        let k = find_name_exec(&out, secs[i].0.as_slice());
        let pair = copy_pair(&secs[i]);
        let ghost before = sec_views(out@);
        if k < out.len() {
            out.set(k, pair);
            proof {
                assert(sec_views(out@) =~= before.update(k as int, sv[i as int]));
            }
        } else {
            out.push(pair);
            proof {
                assert(sec_views(out@) =~= before.push(sv[i as int]));
            }
        }
        i = i + 1;
    }
    proof {
        assert(sv.take(sv.len() as int) =~= sv);
    }
    out
}

/// Some line of `ls` trims to `t`.
pub open spec fn trimmed_in(ls: Seq<Seq<char>>, t: Seq<char>) -> bool {
    exists|k: int| 0 <= k < ls.len() && trim(#[trigger] ls[k]) == t
}

/// Lines of `ms` whose trimmed form is non-empty and is no trimmed line of `orig_lines`.
pub open spec fn added_filter(orig_lines: Seq<Seq<char>>, ms: Seq<Seq<char>>) -> Seq<Seq<char>>
    decreases ms.len(),
{
    if ms.len() == 0 {
        Seq::empty()
    } else {
        let prev = added_filter(orig_lines, ms.drop_last());
        let l = ms.last();
        if trim(l).len() > 0 && !trimmed_in(orig_lines, trim(l)) {
            prev.push(l)
        } else {
            prev
        }
    }
}

/// Lines of `modified` that `original` does not have (compared trimmed).
pub open spec fn added_lines(original: Seq<char>, modified: Seq<char>) -> Seq<Seq<char>> {
    added_filter(lines(original), lines(modified))
}

fn trimmed_in_exec(trimmed: &Vec<Vec<char>>, t: &[char]) -> (r: bool)
    ensures
        r == exists|k: int| 0 <= k < trimmed@.len() && (#[trigger] trimmed@[k])@ == t@,
{
    let mut i: usize = 0;
    while i < trimmed.len()
        invariant
            i <= trimmed@.len(),
            forall|k: int| 0 <= k < i ==> (#[trigger] trimmed@[k])@ != t@,
        decreases trimmed@.len() - i,
    {
        if crate::text::chars_eq(trimmed[i].as_slice(), t) {
            return true;
        }
        i = i + 1;
    }
    false
}

/// Lines in `modified` that are not in `original`.
fn find_added_lines(original: &[char], modified: &[char]) -> (r: Vec<Vec<char>>)
    ensures
        line_views(r@) == added_lines(original@, modified@),
{
    let ol = crate::text::split_lines(original);
    let ghost olv = line_views(ol@);
    let mut trimmed: Vec<Vec<char>> = Vec::new();
    let mut j: usize = 0;
    while j < ol.len()
        invariant
            j <= ol@.len(),
            olv == line_views(ol@),
            trimmed@.len() == j,
            forall|k: int| 0 <= k < j ==> (#[trigger] trimmed@[k])@ == trim(olv[k]),
        decreases ol@.len() - j,
    {
        trimmed.push(crate::text::trim_chars(ol[j].as_slice()));
        j = j + 1;
    }
    let ml = crate::text::split_lines(modified);
    let ghost mlv = line_views(ml@);
    let mut out: Vec<Vec<char>> = Vec::new();
    let mut i: usize = 0;
    while i < ml.len()
        invariant
            i <= mlv.len(),
            mlv == line_views(ml@),
            olv == lines(original@),
            trimmed@.len() == olv.len(),
            forall|k: int| 0 <= k < olv.len() ==> (#[trigger] trimmed@[k])@ == trim(olv[k]),
            line_views(out@) == added_filter(olv, mlv.take(i as int)),
        decreases mlv.len() - i,
    {
        proof {
            assert(mlv.take(i + 1).drop_last() =~= mlv.take(i as int));
            assert(mlv.take(i + 1).last() == ml@[i as int]@);
        }
        let t = crate::text::trim_chars(ml[i].as_slice());
        if t.len() > 0 {
            let found = trimmed_in_exec(&trimmed, t.as_slice());
            proof {
                if found {
                    let k = choose|k: int| 0 <= k < trimmed@.len() && (#[trigger] trimmed@[k])@ == t@;
                    assert(trim(olv[k]) == t@);
                    assert(trimmed_in(olv, t@));
                } else {
                    assert forall|k: int| 0 <= k < olv.len() implies trim(#[trigger] olv[k]) != t@ by {
                        assert(trimmed@[k]@ == trim(olv[k]));
                    }
                }
            }
            if !found {
                let ghost before = out@;
                out.push(copy_chars(&ml[i]));
                proof {
                    assert(line_views(out@) =~= line_views(before).push(ml@[i as int]@));
                }
            }
        }
        i = i + 1;
    }
    proof {
        assert(mlv.take(mlv.len() as int) =~= mlv);
    }
    out
}


/// A change to one section of a memo.
#[derive(Debug, Clone)]
pub enum SectionChange {
    /// New lines added to an existing section.
    Added(Vec<String>),
    /// Section content replaced entirely.
    Replaced(String),
    /// A section that did not exist before.
    NewSection(String),
}

/// A section change as plain values.
pub enum ChangeView {
    Added(Seq<Seq<char>>),
    Replaced(Seq<char>),
    NewSection(Seq<char>),
}

impl View for SectionChange {
    type V = ChangeView;

    open spec fn view(&self) -> ChangeView {
        match self {
            SectionChange::Added(ls) => ChangeView::Added(strs(ls@)),
            SectionChange::Replaced(c) => ChangeView::Replaced(c@),
            SectionChange::NewSection(c) => ChangeView::NewSection(c@),
        }
    }
}

/// Changed sections keyed by section name, in the order they were recorded.
#[derive(Debug, Clone)]
pub struct SectionChanges {
    pub entries: Vec<(String, SectionChange)>,
}

pub open spec fn entry_views(v: Seq<(String, SectionChange)>) -> Seq<(Seq<char>, ChangeView)> {
    v.map_values(|p: (String, SectionChange)| (p.0@, p.1@))
}

impl View for SectionChanges {
    type V = Seq<(Seq<char>, ChangeView)>;

    open spec fn view(&self) -> Seq<(Seq<char>, ChangeView)> {
        entry_views(self.entries@)
    }
}

/// Position of the first entry named `name`, or the number of entries.
pub open spec fn find_entry(es: Seq<(Seq<char>, ChangeView)>, name: Seq<char>) -> int
    decreases es.len(),
{
    if es.len() == 0 {
        0
    } else if es[0].0 == name {
        0
    } else {
        1 + find_entry(es.drop_first(), name)
    }
}

/// No two entries share a name.
pub open spec fn names_unique(es: Seq<(Seq<char>, ChangeView)>) -> bool {
    forall|i: int, j: int| 0 <= i < j < es.len() ==> (#[trigger] es[i]).0 != (#[trigger] es[j]).0
}

/// Represents changes made to a memo.
#[derive(Debug, Clone)]
pub struct MemoryDiff {
    /// Sections that were added or modified, keyed by section name.
    pub changed_sections: SectionChanges,
}

/// The change recorded for a section whose modified body is `mc`.
pub open spec fn change_for(orig: Seq<(Seq<char>, Seq<char>)>, name: Seq<char>, mc: Seq<char>) -> Option<ChangeView> {
    let k = find_name(orig, name);
    if k >= orig.len() || k < 0 {
        if trim(mc).len() > 0 {
            Some(ChangeView::NewSection(mc))
        } else {
            None
        }
    } else {
        let oc = orig[k].1;
        if trim(oc) != trim(mc) {
            let a = added_lines(oc, mc);
            if a.len() > 0 {
                Some(ChangeView::Added(a))
            } else {
                Some(ChangeView::Replaced(mc))
            }
        } else {
            None
        }
    }
}

/// Changes for each modified section, in order.
pub open spec fn diff_entries(orig: Seq<(Seq<char>, Seq<char>)>, ms: Seq<(Seq<char>, Seq<char>)>) -> Seq<(Seq<char>, ChangeView)>
    decreases ms.len(),
{
    if ms.len() == 0 {
        Seq::empty()
    } else {
        let prev = diff_entries(orig, ms.drop_last());
        match change_for(orig, ms.last().0, ms.last().1) {
            Some(c) => prev.push((ms.last().0, c)),
            None => prev,
        }
    }
}

/// Key used for memos without any section header.
pub open spec fn raw_key() -> Seq<char> {
    "__raw__"@
}

/// The diff between two memos.
pub open spec fn memory_diff_spec(original: Seq<char>, modified: Seq<char>) -> Seq<(Seq<char>, ChangeView)> {
    let os = dedup_sections(parse_ordered(original));
    let ms = dedup_sections(parse_ordered(modified));
    if os.len() == 0 && ms.len() == 0 {
        if trim(original) != trim(modified) {
            let a = added_lines(original, modified);
            seq![
                (
                    raw_key(),
                    if a.len() > 0 {
                        ChangeView::Added(a)
                    } else {
                        ChangeView::Replaced(modified)
                    },
                ),
            ]
        } else {
            Seq::empty()
        }
    } else {
        diff_entries(os, ms)
    }
}

/// Strings holding the given character vectors.
fn strings_of(v: &Vec<Vec<char>>) -> (r: Vec<String>)
    ensures
        strs(r@) == line_views(v@),
{
    let mut r: Vec<String> = Vec::new();
    let mut i: usize = 0;
    while i < v.len()
        invariant
            i <= v@.len(),
            strs(r@) == line_views(v@).take(i as int),
        decreases v@.len() - i,
    {
        let ghost before = r@;
        let s = crate::text::from_chars(v[i].as_slice());
        r.push(s);
        proof {
            assert(strs(r@) =~= strs(before).push(v@[i as int]@));
            assert(line_views(v@).take(i + 1) =~= line_views(v@).take(i as int).push(v@[i as int]@));
        }
        i = i + 1;
    }
    proof {
        assert(line_views(v@).take(v@.len() as int) =~= line_views(v@));
    }
    r
}

fn change_for_exec(orig: &Vec<(Vec<char>, Vec<char>)>, name: &Vec<char>, mc: &Vec<char>) -> (r: Option<SectionChange>)
    ensures
        match r {
            Some(c) => change_for(sec_views(orig@), name@, mc@) == Some(c@),
            None => change_for(sec_views(orig@), name@, mc@) is None,
        },
{
    let k = find_name_exec(orig, name.as_slice());
    if k >= orig.len() {
        let t = crate::text::trim_chars(mc.as_slice());
        if t.len() > 0 {
            Some(SectionChange::NewSection(crate::text::from_chars(mc.as_slice())))
        } else {
            None
        }
    } else {
        let oc = &orig[k].1;
        let to = crate::text::trim_chars(oc.as_slice());
        let tm = crate::text::trim_chars(mc.as_slice());
        proof {
            assert(sec_views(orig@)[k as int].1 == oc@);
        }
        if !crate::text::chars_eq(to.as_slice(), tm.as_slice()) {
            let added = find_added_lines(oc.as_slice(), mc.as_slice());
            if added.len() > 0 {
                Some(SectionChange::Added(strings_of(&added)))
            } else {
                Some(SectionChange::Replaced(crate::text::from_chars(mc.as_slice())))
            }
        } else {
            None
        }
    }
}

/// Compute the diff between original memo content and modified content.
pub fn compute_memory_diff(original: &str, modified: &str) -> (d: MemoryDiff)
    ensures
        d.changed_sections@ == memory_diff_spec(original@, modified@),
{
    let oc = crate::text::to_chars(original);
    let mc = crate::text::to_chars(modified);
    let os = dedup_sections_exec(&parse_sections_ordered(oc.as_slice()));
    let ms = dedup_sections_exec(&parse_sections_ordered(mc.as_slice()));
    let mut entries: Vec<(String, SectionChange)> = Vec::new();
    if os.len() == 0 && ms.len() == 0 {
        let to = crate::text::trim_chars(oc.as_slice());
        let tm = crate::text::trim_chars(mc.as_slice());
        if !crate::text::chars_eq(to.as_slice(), tm.as_slice()) {
            let added = find_added_lines(oc.as_slice(), mc.as_slice());
            let change = if added.len() > 0 {
                SectionChange::Added(strings_of(&added))
            } else {
                SectionChange::Replaced(crate::text::owned(modified))
            };
            entries.push((crate::text::owned("__raw__"), change));
            proof {
                assert(entry_views(entries@) =~= memory_diff_spec(original@, modified@));
            }
        } else {
            proof {
                assert(entry_views(entries@) =~= memory_diff_spec(original@, modified@));
            }
        }
        return MemoryDiff { changed_sections: SectionChanges { entries } };
    }
    let ghost osv = sec_views(os@);
    let ghost msv = sec_views(ms@);
    let mut i: usize = 0;
    while i < ms.len()
        invariant
            i <= msv.len(),
            osv == sec_views(os@),
            msv == sec_views(ms@),
            entry_views(entries@) == diff_entries(osv, msv.take(i as int)),
        decreases msv.len() - i,
    {
        proof {
            assert(msv.take(i + 1).drop_last() =~= msv.take(i as int));
            assert(msv.take(i + 1).last() == msv[i as int]);
        }
        let name = &ms[i].0;
        let body = &ms[i].1;
        match change_for_exec(&os, name, body) {
            Some(c) => {
                let ghost before = entries@;
                entries.push((crate::text::from_chars(name.as_slice()), c));
                proof {
                    assert(entry_views(entries@) =~= entry_views(before).push((name@, c@)));
                }
            },
            None => {},
        }
        i = i + 1;
    }
    proof {
        assert(msv.take(msv.len() as int) =~= msv);
    }
    MemoryDiff { changed_sections: SectionChanges { entries } }
}

impl MemoryDiff {
    /// No section changed.
    pub fn is_empty(&self) -> (b: bool)
        ensures
            b == (self.changed_sections@.len() == 0),
    {
        self.changed_sections.entries.len() == 0
    }
}


/// `content` followed by `\n` unless it is empty or already ends with one.
pub open spec fn with_line_break(content: Seq<char>) -> Seq<char> {
    if content.len() > 0 && content.last() != '\n' {
        content.push('\n')
    } else {
        content
    }
}

/// Appends `line` on a line of its own unless a line of `content` equals it trimmed.
pub open spec fn append_line(content: Seq<char>, line: Seq<char>) -> Seq<char> {
    if trimmed_in(lines(content), trim(line)) {
        content
    } else {
        with_line_break(content) + line
    }
}

/// Appends each line in turn, skipping lines already present.
pub open spec fn append_lines(content: Seq<char>, ls: Seq<Seq<char>>) -> Seq<char>
    decreases ls.len(),
{
    if ls.len() == 0 {
        content
    } else {
        append_line(append_lines(content, ls.drop_last()), ls.last())
    }
}

/// The sections after applying one change.
pub open spec fn apply_one(secs: Seq<(Seq<char>, Seq<char>)>, name: Seq<char>, change: ChangeView) -> Seq<(Seq<char>, Seq<char>)> {
    let k = find_name(secs, name);
    let found = 0 <= k < secs.len();
    match change {
        ChangeView::Added(ls) => if found {
            secs.update(k, (name, append_lines(secs[k].1, ls)))
        } else {
            secs.push((name, join(ls, "\n"@)))
        },
        ChangeView::Replaced(c) => if found {
            secs.update(k, (name, c))
        } else {
            secs.push((name, c))
        },
        ChangeView::NewSection(c) => if found {
            secs
        } else {
            secs.push((name, c))
        },
    }
}

/// The sections after applying every change, in order.
pub open spec fn apply_all(secs: Seq<(Seq<char>, Seq<char>)>, es: Seq<(Seq<char>, ChangeView)>) -> Seq<(Seq<char>, Seq<char>)>
    decreases es.len(),
{
    if es.len() == 0 {
        secs
    } else {
        let prev = apply_all(secs, es.drop_last());
        apply_one(prev, es.last().0, es.last().1)
    }
}

/// The text of one section in a rebuilt memo.
pub open spec fn section_text(name: Seq<char>, content: Seq<char>) -> Seq<char> {
    "## "@ + name + "\n"@ + (if trim(content).len() > 0 {
        with_line_break(content)
    } else {
        Seq::empty()
    }) + "\n"@
}

/// A memo rebuilt from its sections.
pub open spec fn rebuild(secs: Seq<(Seq<char>, Seq<char>)>) -> Seq<char>
    decreases secs.len(),
{
    if secs.len() == 0 {
        "# Memo\n\n"@
    } else {
        rebuild(secs.drop_last()) + section_text(secs.last().0, secs.last().1)
    }
}

/// What applying a diff to `current` gives.
pub open spec fn apply_spec(current: Seq<char>, es: Seq<(Seq<char>, ChangeView)>) -> Seq<char> {
    if es.len() == 0 {
        current
    } else {
        let k = find_entry(es, raw_key());
        if 0 <= k < es.len() {
            match es[k].1 {
                ChangeView::Added(ls) => append_lines(current, ls),
                ChangeView::Replaced(c) => c,
                ChangeView::NewSection(c) => with_line_break(current) + c,
            }
        } else {
            rebuild(apply_all(parse_ordered(current), es))
        }
    }
}

/// The first change for `name` is at `k` when it is there and none before
/// it is for that name.
pub proof fn lemma_find_entry_is(es: Seq<(Seq<char>, ChangeView)>, name: Seq<char>, k: int)
    requires
        0 <= k <= es.len(),
        k < es.len() ==> es[k].0 == name,
        forall|j: int| 0 <= j < k ==> es[j].0 != name,
    ensures
        find_entry(es, name) == k,
    decreases es.len(),
{
    if es.len() > 0 && k > 0 {
        lemma_find_entry_is(es.drop_first(), name, k - 1);
    }
}

/// Entries keyed by name: each name once, at its first position, with the
/// change of its last occurrence.
pub open spec fn dedup_entries(es: Seq<(Seq<char>, ChangeView)>) -> Seq<(Seq<char>, ChangeView)>
    decreases es.len(),
{
    if es.len() == 0 {
        Seq::empty()
    } else {
        let prev = dedup_entries(es.drop_last());
        let k = find_entry(prev, es.last().0);
        if 0 <= k < prev.len() {
            prev.update(k, es.last())
        } else {
            prev.push(es.last())
        }
    }
}

impl SectionChanges {
    /// Changes keyed by section name; a later pair for the same name replaces an earlier one.
    pub fn from_pairs(pairs: Vec<(String, SectionChange)>) -> (r: Self)
        ensures
            r@ == dedup_entries(entry_views(pairs@)),
    {
        let ghost pv = entry_views(pairs@);
        let n = pairs.len();
        let mut rest = pairs;
        let mut rev: Vec<(String, SectionChange)> = Vec::new();
        while rest.len() > 0
            invariant
                entry_views(rest@) + entry_views(rev@).reverse() == pv,
            decreases rest@.len(),
        {
            let ghost before_rest = rest@;
            let ghost before_rev = rev@;
            let p = rest.pop().unwrap();
            rev.push(p);
            proof {
                assert(entry_views(before_rest) =~= entry_views(rest@).push((p.0@, p.1@)));
                assert(entry_views(rev@) =~= entry_views(before_rev).push((p.0@, p.1@)));
                assert(entry_views(rev@).reverse() =~= seq![(p.0@, p.1@)] + entry_views(before_rev).reverse());
                assert(entry_views(rest@) + entry_views(rev@).reverse() =~= pv);
            }
        }
        proof {
            assert(entry_views(rest@) =~= Seq::<(Seq<char>, ChangeView)>::empty());
            assert(entry_views(rev@).reverse() =~= pv);
        }
        let mut out = SectionChanges { entries: Vec::new() };
        let mut i: usize = 0;
        while rev.len() > 0
            invariant
                i + rev@.len() == pv.len(),
                pv.len() == n,
                entry_views(rev@).reverse() == pv.skip(i as int),
                out@ == dedup_entries(pv.take(i as int)),
            decreases rev@.len(),
        {
            let ghost before_rev = rev@;
            let p = rev.pop().unwrap();
            proof {
                assert(entry_views(before_rev) =~= entry_views(rev@).push((p.0@, p.1@)));
                assert(entry_views(before_rev).reverse() =~= seq![(p.0@, p.1@)] + entry_views(rev@).reverse());
                assert(pv.skip(i as int)[0] == (p.0@, p.1@));
                assert(pv.take(i + 1).drop_last() =~= pv.take(i as int));
                assert(pv.take(i + 1).last() == (p.0@, p.1@));
                assert(pv.skip(i + 1) =~= pv.skip(i as int).drop_first());
                assert((seq![(p.0@, p.1@)] + entry_views(rev@).reverse()).drop_first() =~= entry_views(rev@).reverse());
                assert(entry_views(rev@).reverse() =~= pv.skip(i + 1));
            }
            let key = crate::text::string_chars(&p.0);
            let k = out.position(key.as_slice());
            let ghost ov = out@;
            if k < out.entries.len() {
                out.entries.set(k, p);
                proof {
                    assert(out@ =~= ov.update(k as int, (p.0@, p.1@)));
                }
            } else {
                out.entries.push(p);
                proof {
                    assert(out@ =~= ov.push((p.0@, p.1@)));
                }
            }
            i = i + 1;
        }
        proof {
            assert(pv.take(pv.len() as int) =~= pv);
        }
        out
    }

    /// Position of the first entry named `name`, or the number of entries.
    fn position(&self, name: &[char]) -> (k: usize)
        ensures
            k as int == find_entry(self@, name@),
            k <= self@.len(),
    {
        let mut i: usize = 0;
        while i < self.entries.len()
            invariant
                i <= self.entries@.len(),
                forall|j: int| 0 <= j < i ==> self@[j].0 != name@,
            decreases self.entries@.len() - i,
        {
            let key = crate::text::string_chars(&self.entries[i].0);
            if crate::text::chars_eq(key.as_slice(), name) {
                proof {
                    lemma_find_entry_is(self@, name@, i as int);
                }
                return i;
            }
            i = i + 1;
        }
        proof {
            lemma_find_entry_is(self@, name@, i as int);
        }
        i
    }

    /// Whether some section named `name` changed.
    pub fn contains_key(&self, name: &str) -> (b: bool)
        ensures
            b == (find_entry(self@, name@) < self@.len()),
    {
        let n = crate::text::to_chars(name);
        self.position(n.as_slice()) < self.entries.len()
    }

    /// The change recorded for section `name`.
    pub fn get(&self, name: &str) -> (r: Option<&SectionChange>)
        ensures
            find_entry(self@, name@) < self@.len() ==> (r matches Some(c) && c@ == self@[find_entry(self@, name@)].1),
            find_entry(self@, name@) >= self@.len() ==> r is None,
    {
        let n = crate::text::to_chars(name);
        let k = self.position(n.as_slice());
        if k < self.entries.len() {
            Some(&self.entries[k].1)
        } else {
            None
        }
    }

    /// Number of changed sections.
    pub fn len(&self) -> (n: usize)
        ensures
            n == self@.len(),
    {
        self.entries.len()
    }

    /// No section changed.
    pub fn is_empty(&self) -> (b: bool)
        ensures
            b == (self@.len() == 0),
    {
        self.entries.len() == 0
    }
}

fn line_present(content: &[char], line: &[char]) -> (b: bool)
    ensures
        b == trimmed_in(lines(content@), trim(line@)),
{
    let ls = crate::text::split_lines(content);
    let t = crate::text::trim_chars(line);
    let mut i: usize = 0;
    while i < ls.len()
        invariant
            i <= ls@.len(),
            line_views(ls@) == lines(content@),
            t@ == trim(line@),
            forall|k: int| 0 <= k < i ==> trim(#[trigger] line_views(ls@)[k]) != t@,
        decreases ls@.len() - i,
    {
        let tl = crate::text::trim_chars(ls[i].as_slice());
        proof {
            assert(line_views(ls@)[i as int] == ls@[i as int]@);
        }
        if crate::text::chars_eq(tl.as_slice(), t.as_slice()) {
            return true;
        }
        i = i + 1;
    }
    false
}

fn push_line_break(content: &mut Vec<char>)
    ensures
        final(content)@ == with_line_break(old(content)@),
{
    if content.len() > 0 && content[content.len() - 1] != '\n' {
        content.push('\n');
    }
}

fn append_line_exec(content: &mut Vec<char>, line: &[char])
    ensures
        final(content)@ == append_line(old(content)@, line@),
{
    if !line_present(content.as_slice(), line) {
        push_line_break(content);
        crate::text::append_chars(content, line);
    }
}

fn append_lines_exec(content: &mut Vec<char>, ls: &Vec<String>)
    ensures
        final(content)@ == append_lines(old(content)@, strs(ls@)),
{
    let ghost start = content@;
    let ghost lv = strs(ls@);
    let mut i: usize = 0;
    while i < ls.len()
        invariant
            i <= lv.len(),
            lv == strs(ls@),
            content@ == append_lines(start, lv.take(i as int)),
        decreases lv.len() - i,
    {
        proof {
            assert(lv.take(i + 1).drop_last() =~= lv.take(i as int));
            assert(lv.take(i + 1).last() == ls@[i as int]@);
        }
        let l = crate::text::string_chars(&ls[i]);
        append_line_exec(content, l.as_slice());
        i = i + 1;
    }
    proof {
        assert(lv.take(lv.len() as int) =~= lv);
    }
}


fn apply_one_exec(secs: &mut Vec<(Vec<char>, Vec<char>)>, name: &String, change: &SectionChange)
    ensures
        sec_views(final(secs)@) == apply_one(sec_views(old(secs)@), name@, change@),
{
    let n = crate::text::string_chars(name);
    let k = find_name_exec(secs, n.as_slice());
    let found = k < secs.len();
    let ghost sv = sec_views(secs@);
    proof {
        lemma_find_name_bounds(sv, name@);
    }
    match change {
        SectionChange::Added(ls) => {
            if found {
                let mut content = copy_chars(&secs[k].1);
                proof {
                    assert(content@ == sv[k as int].1);
                }
                append_lines_exec(&mut content, ls);
                secs.set(k, (n, content));
                proof {
                    assert(sec_views(secs@) =~= sv.update(k as int, (name@, append_lines(sv[k as int].1, strs(ls@)))));
                }
            } else {
                let mut parts: Vec<Vec<char>> = Vec::new();
                let mut i: usize = 0;
                while i < ls.len()
                    invariant
                        i <= ls@.len(),
                        line_views(parts@) == strs(ls@).take(i as int),
                    decreases ls@.len() - i,
                {
                    let ghost before = parts@;
                    parts.push(crate::text::string_chars(&ls[i]));
                    proof {
                        assert(line_views(parts@) =~= line_views(before).push(ls@[i as int]@));
                        assert(strs(ls@).take(i + 1) =~= strs(ls@).take(i as int).push(ls@[i as int]@));
                    }
                    i = i + 1;
                }
                proof {
                    assert(strs(ls@).take(ls@.len() as int) =~= strs(ls@));
                }
                let nl = crate::text::to_chars("\n");
                let content = crate::text::join_chars(&parts, nl.as_slice());
                secs.push((n, content));
                proof {
                    assert(sec_views(secs@) =~= sv.push((name@, join(strs(ls@), "\n"@))));
                }
            }
        },
        SectionChange::Replaced(c) => {
            let content = crate::text::string_chars(c);
            if found {
                secs.set(k, (n, content));
                proof {
                    assert(sec_views(secs@) =~= sv.update(k as int, (name@, c@)));
                }
            } else {
                secs.push((n, content));
                proof {
                    assert(sec_views(secs@) =~= sv.push((name@, c@)));
                }
            }
        },
        SectionChange::NewSection(c) => {
            if !found {
                let content = crate::text::string_chars(c);
                secs.push((n, content));
                proof {
                    assert(sec_views(secs@) =~= sv.push((name@, c@)));
                }
            }
        },
    }
}

fn rebuild_memo(secs: &Vec<(Vec<char>, Vec<char>)>) -> (r: Vec<char>)
    ensures
        r@ == rebuild(sec_views(secs@)),
{
    let ghost sv = sec_views(secs@);
    let mut r = crate::text::to_chars("# Memo\n\n");
    let h2 = crate::text::to_chars("## ");
    let nl = crate::text::to_chars("\n");
    let mut i: usize = 0;
    proof {
        assert(sv.take(0) =~= Seq::<(Seq<char>, Seq<char>)>::empty());
    }
    while i < secs.len()
        invariant
            i <= sv.len(),
            sv == sec_views(secs@),
            h2@ == "## "@,
            nl@ == "\n"@,
            r@ == rebuild(sv.take(i as int)),
        decreases sv.len() - i,
    {
        proof {
            assert(sv.take(i + 1).drop_last() =~= sv.take(i as int));
            assert(sv.take(i + 1).last() == sv[i as int]);
        }
        let ghost before = r@;
        let name = &secs[i].0;
        let content = &secs[i].1;
        crate::text::append_chars(&mut r, h2.as_slice());
        crate::text::append_chars(&mut r, name.as_slice());
        crate::text::append_chars(&mut r, nl.as_slice());
        let t = crate::text::trim_chars(content.as_slice());
        let ghost mid = r@;
        let mut body = copy_chars(content);
        if t.len() > 0 {
            push_line_break(&mut body);
            crate::text::append_chars(&mut r, body.as_slice());
        }
        crate::text::append_chars(&mut r, nl.as_slice());
        proof {
            let sec = if trim(content@).len() > 0 {
                with_line_break(content@)
            } else {
                Seq::<char>::empty()
            };
            assert(r@ =~= before + ("## "@ + name@ + "\n"@ + sec + "\n"@));
        }
        i = i + 1;
    }
    proof {
        assert(sv.take(sv.len() as int) =~= sv);
    }
    r
}

/// Apply a diff to existing memo content, returning the merged result.
///
/// An empty diff returns `current_content` unchanged. A `__raw__` change is
/// applied to the whole text. Otherwise each change is applied to its section
/// in order and the memo is rebuilt under a `# Memo` title.
pub fn apply_memory_diff(current_content: &str, diff: &MemoryDiff) -> (r: String)
    ensures
        r@ == apply_spec(current_content@, diff.changed_sections@),
{
    if diff.is_empty() {
        return crate::text::owned(current_content);
    }
    let raw = crate::text::to_chars("__raw__");
    let k = diff.changed_sections.position(raw.as_slice());
    if k < diff.changed_sections.entries.len() {
        let change = &diff.changed_sections.entries[k].1;
        match change {
            SectionChange::Added(ls) => {
                let mut content = crate::text::to_chars(current_content);
                append_lines_exec(&mut content, ls);
                return crate::text::from_chars(content.as_slice());
            },
            SectionChange::Replaced(c) => {
                return c.clone();
            },
            SectionChange::NewSection(c) => {
                let mut content = crate::text::to_chars(current_content);
                push_line_break(&mut content);
                let extra = crate::text::string_chars(c);
                crate::text::append_chars(&mut content, extra.as_slice());
                return crate::text::from_chars(content.as_slice());
            },
        }
    }
    let cc = crate::text::to_chars(current_content);
    let mut secs = parse_sections_ordered(cc.as_slice());
    let ghost es = diff.changed_sections@;
    let ghost start = sec_views(secs@);
    let mut i: usize = 0;
    while i < diff.changed_sections.entries.len()
        invariant
            i <= es.len(),
            es == diff.changed_sections@,
            start == parse_ordered(current_content@),
            sec_views(secs@) == apply_all(start, es.take(i as int)),
        decreases es.len() - i,
    {
        proof {
            assert(es.take(i + 1).drop_last() =~= es.take(i as int));
            assert(es.take(i + 1).last() == es[i as int]);
        }
        let entry = &diff.changed_sections.entries[i];
        apply_one_exec(&mut secs, &entry.0, &entry.1);
        i = i + 1;
    }
    proof {
        assert(es.take(es.len() as int) =~= es);
    }
    let out = rebuild_memo(&secs);
    crate::text::from_chars(out.as_slice())
}

/// The sections of a memo keyed by name: each name once, at its first
/// position, with the body of its last occurrence.
pub fn parse_sections(content: &str) -> (r: Vec<(String, String)>)
    ensures
        r@.map_values(|p: (String, String)| (p.0@, p.1@)) == dedup_sections(parse_ordered(content@)),
{
    let v = crate::text::to_chars(content);
    let ordered = parse_sections_ordered(v.as_slice());
    let keyed = dedup_sections_exec(&ordered);
    let ghost target = sec_views(keyed@);
    let mut r: Vec<(String, String)> = Vec::new();
    let mut i: usize = 0;
    while i < keyed.len()
        invariant
            i <= keyed@.len(),
            target == sec_views(keyed@),
            r@.map_values(|p: (String, String)| (p.0@, p.1@)) == target.take(i as int),
        decreases keyed@.len() - i,
    {
        let ghost before = r@;
        let name = crate::text::from_chars(keyed[i].0.as_slice());
        let body = crate::text::from_chars(keyed[i].1.as_slice());
        r.push((name, body));
        proof {
            assert(r@.map_values(|p: (String, String)| (p.0@, p.1@)) =~= before.map_values(
                |p: (String, String)| (p.0@, p.1@),
            ).push(target[i as int]));
            assert(target.take(i + 1) =~= target.take(i as int).push(target[i as int]));
        }
        i = i + 1;
    }
    proof {
        assert(target.take(keyed@.len() as int) =~= target);
    }
    r
}


/// Section names of a memo are unique once duplicates are merged.
proof fn lemma_dedup_names_unique(secs: Seq<(Seq<char>, Seq<char>)>)
    ensures
        forall|i: int, j: int| 0 <= i < j < dedup_sections(secs).len()
            ==> (#[trigger] dedup_sections(secs)[i]).0 != (#[trigger] dedup_sections(secs)[j]).0,
    decreases secs.len(),
{
    if secs.len() > 0 {
        lemma_dedup_names_unique(secs.drop_last());
        let prev = dedup_sections(secs.drop_last());
        lemma_find_name_bounds(prev, secs.last().0);
        let d = dedup_sections(secs);
        assert forall|i: int, j: int| 0 <= i < j < d.len() implies (#[trigger] d[i]).0 != (#[trigger] d[j]).0 by {
            if j < prev.len() {
                assert(prev[i].0 != prev[j].0);
            }
        }
    }
}

/// Against sections with unique names, the first `n` of them record no change.
proof fn lemma_no_change_against_itself(d: Seq<(Seq<char>, Seq<char>)>, n: int)
    requires
        0 <= n <= d.len(),
        forall|i: int, j: int| 0 <= i < j < d.len() ==> (#[trigger] d[i]).0 != (#[trigger] d[j]).0,
    ensures
        diff_entries(d, d.take(n)).len() == 0,
    decreases n,
{
    if n > 0 {
        assert(d.take(n).drop_last() =~= d.take(n - 1));
        lemma_no_change_against_itself(d, n - 1);
        lemma_find_name_is(d, d[n - 1].0, n - 1);
    }
}

/// Comparing a memo with itself records no change.
pub proof fn lemma_diff_with_itself_is_empty(memo: Seq<char>)
    ensures
        memory_diff_spec(memo, memo).len() == 0,
{
    let d = dedup_sections(parse_ordered(memo));
    lemma_dedup_names_unique(parse_ordered(memo));
    lemma_no_change_against_itself(d, d.len() as int);
    assert(d.take(d.len() as int) =~= d);
}

/// Each modified section whose change is recorded shows up among the diff's entries.
proof fn lemma_diff_entries_record(orig: Seq<(Seq<char>, Seq<char>)>, ms: Seq<(Seq<char>, Seq<char>)>, i: int)
    requires
        0 <= i < ms.len(),
        change_for(orig, ms[i].0, ms[i].1) is Some,
    ensures
        exists|j: int| 0 <= j < diff_entries(orig, ms).len()
            && #[trigger] diff_entries(orig, ms)[j] == (ms[i].0, change_for(orig, ms[i].0, ms[i].1)->0),
    decreases ms.len(),
{
    let prev = diff_entries(orig, ms.drop_last());
    let d = diff_entries(orig, ms);
    if i == ms.len() - 1 {
        assert(d[prev.len() as int] == (ms[i].0, change_for(orig, ms[i].0, ms[i].1)->0));
    } else {
        assert(ms.drop_last()[i] == ms[i]);
        lemma_diff_entries_record(orig, ms.drop_last(), i);
        let j = choose|j: int| 0 <= j < prev.len()
            && #[trigger] prev[j] == (ms[i].0, change_for(orig, ms[i].0, ms[i].1)->0);
        assert(d[j] == prev[j]);
    }
}

/// A section present in both memos whose trimmed content changed is
/// recorded in the diff under its name: as the lines added to it when the
/// modified section has lines the original lacks, else as a replacement by
/// the modified content.
pub proof fn lemma_changed_section_recorded(original: Seq<char>, modified: Seq<char>, i: int, k: int)
    requires
        0 <= i < dedup_sections(parse_ordered(modified)).len(),
        0 <= k < dedup_sections(parse_ordered(original)).len(),
        dedup_sections(parse_ordered(original))[k].0 == dedup_sections(parse_ordered(modified))[i].0,
        trim(dedup_sections(parse_ordered(original))[k].1) != trim(dedup_sections(parse_ordered(modified))[i].1),
    ensures
        ({
            let os = dedup_sections(parse_ordered(original));
            let ms = dedup_sections(parse_ordered(modified));
            let d = memory_diff_spec(original, modified);
            let a = added_lines(os[k].1, ms[i].1);
            exists|j: int| 0 <= j < d.len() && (#[trigger] d[j]).0 == ms[i].0
                && (a.len() > 0 ==> d[j].1 == ChangeView::Added(a))
                && (a.len() == 0 ==> d[j].1 == ChangeView::Replaced(ms[i].1))
        }),
{
    let os = dedup_sections(parse_ordered(original));
    let ms = dedup_sections(parse_ordered(modified));
    lemma_dedup_names_unique(parse_ordered(original));
    assert forall|j: int| 0 <= j < k implies os[j].0 != ms[i].0 by {
        assert(os[j].0 != os[k].0);
    }
    lemma_find_name_is(os, ms[i].0, k);
    lemma_diff_entries_record(os, ms, i);
    let d = memory_diff_spec(original, modified);
    assert(d == diff_entries(os, ms));
    let c = change_for(os, ms[i].0, ms[i].1)->0;
    let j = choose|j: int| 0 <= j < d.len() && #[trigger] d[j] == (ms[i].0, c);
    assert(d[j].0 == ms[i].0);
}

/// Each entry of the diff is the recorded change of some modified section.
proof fn lemma_diff_entries_from(orig: Seq<(Seq<char>, Seq<char>)>, ms: Seq<(Seq<char>, Seq<char>)>)
    ensures
        forall|j: int| 0 <= j < diff_entries(orig, ms).len() ==> exists|m: int| 0 <= m < ms.len()
            && (#[trigger] diff_entries(orig, ms)[j]).0 == ms[m].0
            && change_for(orig, ms[m].0, ms[m].1) == Some(diff_entries(orig, ms)[j].1),
    decreases ms.len(),
{
    if ms.len() > 0 {
        let pm = ms.drop_last();
        lemma_diff_entries_from(orig, pm);
        let prev = diff_entries(orig, pm);
        let d = diff_entries(orig, ms);
        assert forall|j: int| 0 <= j < d.len() implies exists|m: int| 0 <= m < ms.len()
            && (#[trigger] d[j]).0 == ms[m].0 && change_for(orig, ms[m].0, ms[m].1) == Some(d[j].1) by {
            if j < prev.len() {
                assert(d[j] == prev[j]);
                let m = choose|m: int| 0 <= m < pm.len() && (#[trigger] prev[j]).0 == pm[m].0
                    && change_for(orig, pm[m].0, pm[m].1) == Some(prev[j].1);
                assert(ms[m] == pm[m]);
            } else {
                assert(ms[ms.len() - 1] == ms.last());
            }
        }
    }
}

/// A section that only the modified memo has, with some content, is
/// recorded in the diff as a new section holding the modified content.
pub proof fn lemma_new_section_recorded(original: Seq<char>, modified: Seq<char>, i: int)
    requires
        0 <= i < dedup_sections(parse_ordered(modified)).len(),
        forall|k: int| 0 <= k < dedup_sections(parse_ordered(original)).len()
            ==> (#[trigger] dedup_sections(parse_ordered(original))[k]).0 != dedup_sections(parse_ordered(modified))[i].0,
        trim(dedup_sections(parse_ordered(modified))[i].1).len() > 0,
    ensures
        ({
            let ms = dedup_sections(parse_ordered(modified));
            let d = memory_diff_spec(original, modified);
            exists|j: int| 0 <= j < d.len() && #[trigger] d[j] == (ms[i].0, ChangeView::NewSection(ms[i].1))
        }),
{
    let os = dedup_sections(parse_ordered(original));
    let ms = dedup_sections(parse_ordered(modified));
    lemma_find_name_is(os, ms[i].0, os.len() as int);
    lemma_diff_entries_record(os, ms, i);
    let d = memory_diff_spec(original, modified);
    assert(d == diff_entries(os, ms));
}

/// A section whose trimmed content is the same in both memos is not in the
/// diff, and neither is any section that only the original memo has: every
/// entry names a section of the modified memo.
pub proof fn lemma_unchanged_sections_not_recorded(original: Seq<char>, modified: Seq<char>, i: int, k: int)
    requires
        0 <= i < dedup_sections(parse_ordered(modified)).len(),
        0 <= k < dedup_sections(parse_ordered(original)).len(),
        dedup_sections(parse_ordered(original))[k].0 == dedup_sections(parse_ordered(modified))[i].0,
        trim(dedup_sections(parse_ordered(original))[k].1) == trim(dedup_sections(parse_ordered(modified))[i].1),
    ensures
        forall|j: int| 0 <= j < memory_diff_spec(original, modified).len()
            ==> (#[trigger] memory_diff_spec(original, modified)[j]).0 != dedup_sections(parse_ordered(modified))[i].0,
        forall|j: int| 0 <= j < memory_diff_spec(original, modified).len() ==> exists|m: int|
            0 <= m < dedup_sections(parse_ordered(modified)).len()
            && (#[trigger] memory_diff_spec(original, modified)[j]).0 == dedup_sections(parse_ordered(modified))[m].0,
{
    let os = dedup_sections(parse_ordered(original));
    let ms = dedup_sections(parse_ordered(modified));
    lemma_dedup_names_unique(parse_ordered(original));
    lemma_dedup_names_unique(parse_ordered(modified));
    assert forall|j: int| 0 <= j < k implies os[j].0 != ms[i].0 by {
        assert(os[j].0 != os[k].0);
    }
    lemma_find_name_is(os, ms[i].0, k);
    lemma_diff_entries_from(os, ms);
    let d = memory_diff_spec(original, modified);
    assert(d == diff_entries(os, ms));
    assert forall|j: int| 0 <= j < d.len() implies (#[trigger] d[j]).0 != ms[i].0 by {
        let m = choose|m: int| 0 <= m < ms.len() && (#[trigger] d[j]).0 == ms[m].0
            && change_for(os, ms[m].0, ms[m].1) == Some(d[j].1);
        if d[j].0 == ms[i].0 {
            if m != i {
                if m < i {
                    assert(ms[m].0 != ms[i].0);
                } else {
                    assert(ms[i].0 != ms[m].0);
                }
            }
        }
    }
}

/// Applying a diff that records no change leaves the memo as it is.
pub proof fn lemma_apply_empty_diff(memo: Seq<char>)
    ensures
        apply_spec(memo, Seq::empty()) == memo,
{
}

/// The lines of `w + l`, where `w` is empty or ends a line and `l` is one
/// non-empty line, are those of `w` followed by `l`.
proof fn lemma_lines_append_line(w: Seq<char>, l: Seq<char>)
    requires
        w.len() == 0 || w.last() == '\n',
        l.len() > 0,
        forall|i: int| 0 <= i < l.len() ==> l[i] != '\n',
    ensures
        lines(w + l) == lines(w).push(l),
    decreases w.len(),
{
    if w.len() == 0 {
        assert(w + l =~= l);
        crate::text::lemma_nl_pos_is(l, l.len() as int);
        assert(lines(w) =~= Seq::<Seq<char>>::empty());
        assert(lines(l) =~= seq![l]);
    } else {
        crate::text::lemma_nl_pos_bounds(w);
        let k = crate::text::nl_pos(w);
        assert(k < w.len()) by {
            if k >= w.len() {
                assert(w[w.len() - 1] != '\n');
            }
        }
        let wl = w + l;
        assert forall|j: int| 0 <= j < k implies wl[j] != '\n' by {
            assert(wl[j] == w[j]);
        }
        crate::text::lemma_nl_pos_is(wl, k);
        let rest = w.skip(k + 1);
        assert(wl.take(k) =~= w.take(k));
        assert(wl.skip(k + 1) =~= rest + l);
        assert(rest.len() == 0 || rest.last() == '\n');
        lemma_lines_append_line(rest, l);
        assert(lines(wl) =~= seq![crate::text::strip_cr(w.take(k))] + (lines(rest).push(l)));
        assert(lines(w) =~= seq![crate::text::strip_cr(w.take(k))] + lines(rest));
    }
}

/// Ending a text with a line feed keeps every line it has, up to trimming.
proof fn lemma_lines_break_keeps(c: Seq<char>, t: Seq<char>)
    requires
        c.len() > 0,
        c.last() != '\n',
        trimmed_in(lines(c), t),
    ensures
        trimmed_in(lines(c.push('\n')), t),
    decreases c.len(),
{
    let c2 = c.push('\n');
    crate::text::lemma_nl_pos_bounds(c);
    let k = crate::text::nl_pos(c);
    if k >= c.len() {
        crate::text::lemma_nl_pos_is(c2, c.len() as int);
        assert(c2.take(c.len() as int) =~= c);
        let e = c2.skip(c.len() as int + 1);
        assert(e =~= Seq::<char>::empty());
        assert(lines(e) =~= Seq::<Seq<char>>::empty());
        assert(lines(c) == seq![c]);
        assert(lines(c2) == seq![crate::text::strip_cr(c2.take(c.len() as int))] + lines(e));
        assert(lines(c2) =~= seq![crate::text::strip_cr(c)]);
        crate::text::lemma_trim_strip_cr(c);
        assert(trim(lines(c2)[0]) == t);
    } else {
        crate::text::lemma_nl_pos_is(c2, k);
        let rest = c.skip(k + 1);
        assert(c2.take(k) =~= c.take(k));
        assert(c2.skip(k + 1) =~= rest.push('\n'));
        let head = crate::text::strip_cr(c.take(k));
        assert(lines(c) == seq![head] + lines(rest));
        assert(lines(c2) == seq![head] + lines(rest.push('\n')));
        let i = choose|i: int| 0 <= i < lines(c).len() && trim(#[trigger] lines(c)[i]) == t;
        if i == 0 {
            assert(lines(c2)[0] == head);
        } else {
            assert(rest.len() > 0) by {
                if rest.len() == 0 {
                    assert(lines(rest) =~= Seq::<Seq<char>>::empty());
                }
            }
            assert(rest.last() == c.last());
            assert(lines(rest)[i - 1] == lines(c)[i]);
            lemma_lines_break_keeps(rest, t);
            let j = choose|j: int| 0 <= j < lines(rest.push('\n')).len() && trim(#[trigger] lines(rest.push('\n'))[j]) == t;
            assert(lines(c2)[j + 1] == lines(rest.push('\n'))[j]);
        }
    }
}

/// A line already present stays present when another line is appended.
proof fn lemma_append_line_keeps(c: Seq<char>, m: Seq<char>, t: Seq<char>)
    requires
        m.len() > 0,
        forall|i: int| 0 <= i < m.len() ==> m[i] != '\n',
        trimmed_in(lines(c), t),
    ensures
        trimmed_in(lines(append_line(c, m)), t),
{
    if !trimmed_in(lines(c), trim(m)) {
        let w = with_line_break(c);
        if w != c {
            lemma_lines_break_keeps(c, t);
        }
        lemma_lines_append_line(w, m);
        let i = choose|i: int| 0 <= i < lines(w).len() && trim(#[trigger] lines(w)[i]) == t;
        assert(lines(w + m)[i] == lines(w)[i]);
    }
}

/// An appended line is present afterwards.
proof fn lemma_append_line_present(c: Seq<char>, m: Seq<char>)
    requires
        m.len() > 0,
        forall|i: int| 0 <= i < m.len() ==> m[i] != '\n',
    ensures
        trimmed_in(lines(append_line(c, m)), trim(m)),
{
    if !trimmed_in(lines(c), trim(m)) {
        let w = with_line_break(c);
        lemma_lines_append_line(w, m);
        let ls = lines(w + m);
        assert(ls[ls.len() - 1] == m);
    }
}

/// Lines that can be appended on a line of their own: not empty, no line feed.
pub open spec fn appendable(ls: Seq<Seq<char>>) -> bool {
    forall|j: int| 0 <= j < ls.len() ==> (#[trigger] ls[j]).len() > 0 && forall|i: int| 0 <= i < ls[j].len() ==> ls[j][i] != '\n'
}

/// After appending lines, every one of them is present.
proof fn lemma_append_lines_present(c: Seq<char>, ls: Seq<Seq<char>>)
    requires
        appendable(ls),
    ensures
        forall|j: int| 0 <= j < ls.len() ==> trimmed_in(lines(append_lines(c, ls)), trim(#[trigger] ls[j])),
    decreases ls.len(),
{
    if ls.len() > 0 {
        let prev = append_lines(c, ls.drop_last());
        assert(appendable(ls.drop_last())) by {
            assert forall|j: int| 0 <= j < ls.drop_last().len() implies (#[trigger] ls.drop_last()[j]).len() > 0
                && forall|i: int| 0 <= i < ls.drop_last()[j].len() ==> ls.drop_last()[j][i] != '\n' by {
                assert(ls.drop_last()[j] == ls[j]);
            }
        }
        lemma_append_lines_present(c, ls.drop_last());
        let m = ls.last();
        assert(m == ls[ls.len() - 1]);
        assert forall|j: int| 0 <= j < ls.len() implies trimmed_in(lines(append_lines(c, ls)), trim(#[trigger] ls[j])) by {
            if j == ls.len() - 1 {
                lemma_append_line_present(prev, m);
            } else {
                assert(ls.drop_last()[j] == ls[j]);
                lemma_append_line_keeps(prev, m, trim(ls[j]));
            }
        }
    }
}

/// Appending lines that are all present already changes nothing.
proof fn lemma_append_present_lines(c: Seq<char>, ls: Seq<Seq<char>>)
    requires
        forall|j: int| 0 <= j < ls.len() ==> trimmed_in(lines(c), trim(#[trigger] ls[j])),
    ensures
        append_lines(c, ls) == c,
    decreases ls.len(),
{
    if ls.len() > 0 {
        assert forall|j: int| 0 <= j < ls.drop_last().len() implies trimmed_in(lines(c), trim(#[trigger] ls.drop_last()[j])) by {
            assert(ls.drop_last()[j] == ls[j]);
        }
        lemma_append_present_lines(c, ls.drop_last());
        assert(trimmed_in(lines(c), trim(ls[ls.len() - 1])));
    }
}

/// Adding the same lines to a section twice adds them once: lines that are
/// not empty and hold no line feed, once appended, are all found on the
/// second pass.
pub proof fn lemma_append_lines_idempotent(content: Seq<char>, ls: Seq<Seq<char>>)
    requires
        appendable(ls),
    ensures
        append_lines(append_lines(content, ls), ls) == append_lines(content, ls),
{
    lemma_append_lines_present(content, ls);
    lemma_append_present_lines(append_lines(content, ls), ls);
}

/// Adding the same line twice adds it once: a line that holds no line feed,
/// once appended, is found on the second try.
pub proof fn lemma_append_line_idempotent(content: Seq<char>, line: Seq<char>)
    requires
        forall|i: int| 0 <= i < line.len() ==> line[i] != '\n',
    ensures
        append_line(append_line(content, line), line) == append_line(content, line),
{
    let once = append_line(content, line);
    if !trimmed_in(lines(content), trim(line)) {
        let w = with_line_break(content);
        assert(w.len() == 0 || w.last() == '\n');
        if line.len() > 0 {
            lemma_lines_append_line(w, line);
            let ls = lines(once);
            assert(ls[ls.len() - 1] == line);
            assert(trimmed_in(ls, trim(line)));
        } else {
            assert(once =~= w);
            assert(with_line_break(w) == w);
            assert(with_line_break(once) + line =~= once);
        }
    }
}

/// Every entry adds lines (no replacement or new section), each line not
/// empty and without a line feed.
pub open spec fn all_added(es: Seq<(Seq<char>, ChangeView)>) -> bool {
    forall|i: int| 0 <= i < es.len() ==> ((#[trigger] es[i]).1 matches ChangeView::Added(ls) && appendable(ls))
}

/// The lines of an added-lines change (none for another change).
pub open spec fn added_of(c: ChangeView) -> Seq<Seq<char>> {
    match c {
        ChangeView::Added(ls) => ls,
        _ => Seq::empty(),
    }
}

/// Section `name` exists and holds every line of `ls`, up to trimming.
pub open spec fn lines_present(secs: Seq<(Seq<char>, Seq<char>)>, name: Seq<char>, ls: Seq<Seq<char>>) -> bool {
    let k = find_name(secs, name);
    &&& k < secs.len()
    &&& forall|j: int| 0 <= j < ls.len() ==> trimmed_in(lines(secs[k].1), trim(#[trigger] ls[j]))
}

/// Joined lines hold each of the lines.
proof fn lemma_join_lines_present(ls: Seq<Seq<char>>)
    requires
        appendable(ls),
    ensures
        forall|j: int| 0 <= j < ls.len() ==> trimmed_in(lines(join(ls, "\n"@)), trim(#[trigger] ls[j])),
    decreases ls.len(),
{
    reveal_strlit("\n");
    if ls.len() == 1 {
        let l = ls[0];
        crate::text::lemma_nl_pos_is(l, l.len() as int);
        assert(join(ls, "\n"@) == l);
        assert(lines(l) == seq![l] + lines(l.skip(l.len() as int))) by {
            if l.len() >= 1 {
            }
        }
        assert(l.skip(l.len() as int) =~= Seq::<char>::empty());
        assert(lines(l)[0] == l);
    } else if ls.len() > 1 {
        let prev = ls.drop_last();
        assert(appendable(prev)) by {
            assert forall|j: int| 0 <= j < prev.len() implies (#[trigger] prev[j]).len() > 0
                && forall|i: int| 0 <= i < prev[j].len() ==> prev[j][i] != '\n' by {
                assert(prev[j] == ls[j]);
            }
        }
        lemma_join_lines_present(prev);
        let x = join(prev, "\n"@);
        let m = ls.last();
        assert(m == ls[ls.len() - 1]);
        lemma_join_ends(prev);
        assert(join(ls, "\n"@) == x.push('\n') + m) by {
            assert(x + "\n"@ + m =~= x.push('\n') + m);
        }
        lemma_lines_append_line(x.push('\n'), m);
        assert forall|j: int| 0 <= j < ls.len() implies trimmed_in(lines(join(ls, "\n"@)), trim(#[trigger] ls[j])) by {
            let ls2 = lines(x.push('\n') + m);
            if j == ls.len() - 1 {
                assert(ls2[ls2.len() - 1] == m);
            } else {
                assert(prev[j] == ls[j]);
                lemma_lines_break_keeps(x, trim(ls[j]));
                let q = choose|q: int| 0 <= q < lines(x.push('\n')).len() && trim(#[trigger] lines(x.push('\n'))[q]) == trim(ls[j]);
                assert(ls2[q] == lines(x.push('\n'))[q]);
            }
        }
    }
}

/// Joined lines that are not empty and hold no line feed end with neither
/// nothing nor a line feed.
proof fn lemma_join_ends(ls: Seq<Seq<char>>)
    requires
        ls.len() > 0,
        appendable(ls),
    ensures
        join(ls, "\n"@).len() > 0,
        join(ls, "\n"@).last() == ls.last().last(),
        ls.last().last() != '\n',
    decreases ls.len(),
{
    let m = ls.last();
    assert(m == ls[ls.len() - 1]);
    assert(m[m.len() - 1] != '\n');
    if ls.len() > 1 {
        let x = join(ls.drop_last(), "\n"@);
        assert(join(ls, "\n"@) == x + "\n"@ + m);
    }
}

/// One entry keeps every section it does not name where it was, and the
/// lines of other sections present.
proof fn lemma_apply_one_keeps(secs: Seq<(Seq<char>, Seq<char>)>, name: Seq<char>, c: ChangeView, other: Seq<char>, ls: Seq<Seq<char>>)
    requires
        other != name,
        lines_present(secs, other, ls),
        c is Added,
    ensures
        lines_present(apply_one(secs, name, c), other, ls),
        find_name(apply_one(secs, name, c), other) == find_name(secs, other),
{
    lemma_find_name_bounds(secs, other);
    lemma_find_name_bounds(secs, name);
    let k = find_name(secs, other);
    let kn = find_name(secs, name);
    let t = apply_one(secs, name, c);
    assert(kn != k);
    assert forall|j: int| 0 <= j < k implies (#[trigger] t[j]).0 != other by {
        if j == kn {
            assert(t[j].0 == name);
        } else {
            assert(t[j] == secs[j]);
        }
    }
    assert(t[k] == secs[k]);
    lemma_find_name_is(t, other, k);
}

/// After an added-lines entry, its section exists and holds its lines.
proof fn lemma_apply_one_present(secs: Seq<(Seq<char>, Seq<char>)>, name: Seq<char>, ls: Seq<Seq<char>>)
    requires
        appendable(ls),
    ensures
        lines_present(apply_one(secs, name, ChangeView::Added(ls)), name, ls),
{
    lemma_find_name_bounds(secs, name);
    let k = find_name(secs, name);
    let t = apply_one(secs, name, ChangeView::Added(ls));
    if k < secs.len() {
        assert forall|j: int| 0 <= j < k implies (#[trigger] t[j]).0 != name by {
            assert(t[j] == secs[j]);
        }
        lemma_find_name_is(t, name, k);
        lemma_append_lines_present(secs[k].1, ls);
    } else {
        assert forall|j: int| 0 <= j < k implies (#[trigger] t[j]).0 != name by {
            assert(t[j] == secs[j]);
        }
        lemma_find_name_is(t, name, k);
        if ls.len() > 0 {
            lemma_join_lines_present(ls);
        }
    }
}

/// After all entries of an added-lines diff, each entry's section holds its
/// lines.
proof fn lemma_apply_all_present(secs: Seq<(Seq<char>, Seq<char>)>, es: Seq<(Seq<char>, ChangeView)>)
    requires
        all_added(es),
        names_unique(es),
    ensures
        forall|j: int| 0 <= j < es.len() ==> lines_present(apply_all(secs, es), (#[trigger] es[j]).0, added_of(es[j].1)),
    decreases es.len(),
{
    if es.len() > 0 {
        let prev = es.drop_last();
        assert(all_added(prev)) by {
            assert forall|i: int| 0 <= i < prev.len() implies ((#[trigger] prev[i]).1 matches ChangeView::Added(ls) && appendable(ls)) by {
                assert(prev[i] == es[i]);
            }
        }
        assert(names_unique(prev)) by {
            assert forall|i: int, j: int| 0 <= i < j < prev.len() implies (#[trigger] prev[i]).0 != (#[trigger] prev[j]).0 by {
                assert(prev[i] == es[i] && prev[j] == es[j]);
            }
        }
        lemma_apply_all_present(secs, prev);
        let before = apply_all(secs, prev);
        let e = es.last();
        assert(e == es[es.len() - 1]);
        assert forall|j: int| 0 <= j < es.len() implies lines_present(apply_all(secs, es), (#[trigger] es[j]).0, added_of(es[j].1)) by {
            if j == es.len() - 1 {
                lemma_apply_one_present(before, e.0, added_of(e.1));
            } else {
                assert(prev[j] == es[j]);
                lemma_apply_one_keeps(before, e.0, e.1, es[j].0, added_of(es[j].1));
            }
        }
    }
}

/// Applying an added-lines diff to sections whose lines are all present
/// already changes nothing.
proof fn lemma_apply_all_present_noop(secs: Seq<(Seq<char>, Seq<char>)>, es: Seq<(Seq<char>, ChangeView)>)
    requires
        all_added(es),
        forall|j: int| 0 <= j < es.len() ==> lines_present(secs, (#[trigger] es[j]).0, added_of(es[j].1)),
    ensures
        apply_all(secs, es) == secs,
    decreases es.len(),
{
    if es.len() > 0 {
        let prev = es.drop_last();
        assert(all_added(prev)) by {
            assert forall|i: int| 0 <= i < prev.len() implies ((#[trigger] prev[i]).1 matches ChangeView::Added(ls) && appendable(ls)) by {
                assert(prev[i] == es[i]);
            }
        }
        assert forall|j: int| 0 <= j < prev.len() implies lines_present(secs, (#[trigger] prev[j]).0, added_of(prev[j].1)) by {
            assert(prev[j] == es[j]);
        }
        lemma_apply_all_present_noop(secs, prev);
        let e = es.last();
        assert(e == es[es.len() - 1]);
        let ls = added_of(e.1);
        lemma_find_name_bounds(secs, e.0);
        let k = find_name(secs, e.0);
        lemma_append_present_lines(secs[k].1, ls);
        assert(apply_one(secs, e.0, e.1) =~= secs);
    }
}

/// Applying the same added-lines diff to the sections of a memo a second
/// time changes nothing: every section it names already holds its lines.
pub proof fn lemma_apply_added_sections_idempotent(secs: Seq<(Seq<char>, Seq<char>)>, es: Seq<(Seq<char>, ChangeView)>)
    requires
        all_added(es),
        names_unique(es),
    ensures
        apply_all(apply_all(secs, es), es) == apply_all(secs, es),
{
    lemma_apply_all_present(secs, es);
    lemma_apply_all_present_noop(apply_all(secs, es), es);
}

/// The lines of `a + b`, where `a` is empty or ends a line, are those of `a`
/// followed by those of `b`.
proof fn lemma_lines_concat(a: Seq<char>, b: Seq<char>)
    requires
        a.len() == 0 || a.last() == '\n',
    ensures
        lines(a + b) == lines(a) + lines(b),
    decreases a.len(),
{
    if a.len() == 0 {
        assert(a + b =~= b);
        assert(lines(a) =~= Seq::<Seq<char>>::empty());
        assert(lines(a) + lines(b) =~= lines(b));
    } else {
        crate::text::lemma_nl_pos_bounds(a);
        let k = crate::text::nl_pos(a);
        assert(k < a.len()) by {
            if k >= a.len() {
                assert(a[a.len() - 1] != '\n');
            }
        }
        let ab = a + b;
        assert forall|j: int| 0 <= j < k implies ab[j] != '\n' by {
            assert(ab[j] == a[j]);
        }
        crate::text::lemma_nl_pos_is(ab, k);
        let rest = a.skip(k + 1);
        assert(ab.take(k) =~= a.take(k));
        assert(ab.skip(k + 1) =~= rest + b);
        assert(rest.len() == 0 || rest.last() == '\n');
        lemma_lines_concat(rest, b);
        assert(lines(ab) =~= seq![crate::text::strip_cr(a.take(k))] + (lines(rest) + lines(b)));
        assert(lines(a) =~= seq![crate::text::strip_cr(a.take(k))] + lines(rest));
    }
}

/// A line and its line feed: one line, without a final `\r`.
proof fn lemma_lines_one(l: Seq<char>)
    requires
        forall|i: int| 0 <= i < l.len() ==> l[i] != '\n',
    ensures
        lines(l.push('\n')) == seq![crate::text::strip_cr(l)],
{
    let w = l.push('\n');
    assert forall|j: int| 0 <= j < l.len() implies w[j] != '\n' by {
        assert(w[j] == l[j]);
    }
    crate::text::lemma_nl_pos_is(w, l.len() as int);
    assert(w.take(l.len() as int) =~= l);
    let e = w.skip(l.len() as int + 1);
    assert(e =~= Seq::<char>::empty());
    assert(lines(e) =~= Seq::<Seq<char>>::empty());
    assert(lines(w) =~= seq![crate::text::strip_cr(l)] + lines(e));
}

/// Text without a carriage return.
pub open spec fn no_cr(s: Seq<char>) -> bool {
    forall|i: int| 0 <= i < s.len() ==> s[i] != '\r'
}

/// Lines without line feeds or carriage returns, joined and ended by a
/// line feed, read back as themselves.
proof fn lemma_lines_of_joined(ls: Seq<Seq<char>>)
    requires
        ls.len() > 0,
        forall|j: int| 0 <= j < ls.len() ==> no_cr(#[trigger] ls[j]) && forall|i: int| 0 <= i < ls[j].len() ==> ls[j][i] != '\n',
    ensures
        lines(join(ls, "\n"@).push('\n')) == ls,
    decreases ls.len(),
{
    reveal_strlit("\n");
    let m = ls.last();
    assert(m == ls[ls.len() - 1]);
    lemma_lines_one(m);
    assert(crate::text::strip_cr(m) == m) by {
        if m.len() > 0 {
            assert(m[m.len() - 1] != '\r');
        }
    }
    if ls.len() == 1 {
        assert(join(ls, "\n"@) == m);
        assert(lines(m.push('\n')) =~= ls);
    } else {
        let prev = ls.drop_last();
        assert forall|j: int| 0 <= j < prev.len() implies no_cr(#[trigger] prev[j]) && forall|i: int| 0 <= i < prev[j].len() ==> prev[j][i] != '\n' by {
            assert(prev[j] == ls[j]);
        }
        lemma_lines_of_joined(prev);
        let x = join(prev, "\n"@).push('\n');
        assert(join(ls, "\n"@).push('\n') =~= x + m.push('\n'));
        lemma_lines_concat(x, m.push('\n'));
        assert(lines(x) + seq![m] =~= ls);
    }
}

/// Joining a first line before others puts a separator after it.
proof fn lemma_join_cons(h: Seq<char>, ls: Seq<Seq<char>>, sep: Seq<char>)
    requires
        ls.len() > 0,
    ensures
        join(seq![h] + ls, sep) == h + sep + join(ls, sep),
    decreases ls.len(),
{
    let all = seq![h] + ls;
    assert(all.drop_last() =~= seq![h] + ls.drop_last());
    assert(all.last() == ls.last());
    if ls.len() == 1 {
        assert(all.drop_last() =~= seq![h]);
        assert(join(seq![h], sep) == h);
        assert(join(ls, sep) == ls[0]);
    } else {
        lemma_join_cons(h, ls.drop_last(), sep);
        assert(join(all, sep) == join(all.drop_last(), sep) + sep + all.last());
        assert(join(ls, sep) == join(ls.drop_last(), sep) + sep + ls.last());
        assert(h + sep + join(ls.drop_last(), sep) + sep + ls.last() =~= h + sep + (join(ls.drop_last(), sep) + sep + ls.last()));
    }
}

/// A text that ends a line and has no carriage return is its lines joined
/// and ended by a line feed.
proof fn lemma_join_lines_back(w: Seq<char>)
    requires
        w.len() > 0,
        w.last() == '\n',
        no_cr(w),
    ensures
        lines(w).len() > 0,
        join(lines(w), "\n"@).push('\n') == w,
    decreases w.len(),
{
    reveal_strlit("\n");
    crate::text::lemma_nl_pos_bounds(w);
    let k = crate::text::nl_pos(w);
    assert(k < w.len()) by {
        if k >= w.len() {
            assert(w[w.len() - 1] != '\n');
        }
    }
    let head = w.take(k);
    assert(crate::text::strip_cr(head) == head) by {
        if head.len() > 0 {
            assert(head[head.len() - 1] == w[k - 1]);
        }
    }
    let rest = w.skip(k + 1);
    assert(lines(w) == seq![head] + lines(rest));
    if rest.len() == 0 {
        assert(lines(rest) =~= Seq::<Seq<char>>::empty());
        assert(lines(w) =~= seq![head]);
        assert(join(seq![head], "\n"@) == head);
        assert(head.push('\n') =~= w);
    } else {
        assert(rest.last() == w.last());
        assert(no_cr(rest)) by {
            assert forall|i: int| 0 <= i < rest.len() implies rest[i] != '\r' by {
                assert(rest[i] == w[k + 1 + i]);
            }
        }
        lemma_join_lines_back(rest);
        lemma_join_cons(head, lines(rest), "\n"@);
        assert((head + "\n"@ + join(lines(rest), "\n"@)).push('\n') =~= head.push('\n') + join(lines(rest), "\n"@).push('\n'));
        assert(head.push('\n') + rest =~= w);
    }
}

/// The state after reading `ls` on from `st`.
pub open spec fn parse_from(st: ParseState, ls: Seq<Seq<char>>) -> ParseState
    decreases ls.len(),
{
    if ls.len() == 0 {
        st
    } else {
        parse_step(parse_from(st, ls.drop_last()), ls.last())
    }
}

pub open spec fn parse_start() -> ParseState {
    ParseState { done: Seq::empty(), cur: Seq::empty(), body: Seq::empty() }
}

proof fn lemma_parse_fold_from(ls: Seq<Seq<char>>)
    ensures
        parse_fold(ls) == parse_from(parse_start(), ls),
    decreases ls.len(),
{
    if ls.len() > 0 {
        lemma_parse_fold_from(ls.drop_last());
    }
}

proof fn lemma_parse_from_concat(st: ParseState, a: Seq<Seq<char>>, b: Seq<Seq<char>>)
    ensures
        parse_from(st, a + b) == parse_from(parse_from(st, a), b),
    decreases b.len(),
{
    if b.len() == 0 {
        assert(a + b =~= a);
    } else {
        assert((a + b).drop_last() =~= a + b.drop_last());
        assert((a + b).last() == b.last());
        lemma_parse_from_concat(st, a, b.drop_last());
    }
}

/// A section name as a memo writes it: not empty, trimmed, on one line.
pub open spec fn name_ok(n: Seq<char>) -> bool {
    &&& n.len() > 0
    &&& trim(n) == n
    &&& forall|i: int| 0 <= i < n.len() ==> n[i] != '\n'
}

/// A line that opens or closes no section.
pub open spec fn plain(l: Seq<char>) -> bool {
    !starts_with(l, "## "@) && !starts_with(l, "# "@)
}

/// Reading a section's header and then lines that open or close nothing.
proof fn lemma_parse_section(st: ParseState, n: Seq<char>, ls: Seq<Seq<char>>)
    requires
        name_ok(n),
        forall|j: int| 0 <= j < ls.len() ==> plain(#[trigger] ls[j]),
    ensures
        parse_from(st, seq!["## "@ + n] + ls) == (ParseState { done: close_section(st), cur: n, body: ls }),
    decreases ls.len(),
{
    reveal_strlit("## ");
    let hl = "## "@ + n;
    if ls.len() == 0 {
        assert(seq![hl] + ls =~= seq![hl]);
        assert(seq![hl].drop_last() =~= Seq::<Seq<char>>::empty());
        assert(starts_with(hl, "## "@)) by {
            assert(hl.subrange(0, 3) =~= "## "@);
        }
        assert(hl.skip(3) =~= n);
        assert(parse_from(st, seq![hl].drop_last()) == st);
        assert(parse_from(st, seq![hl]) == parse_step(st, hl));
        let r = parse_from(st, seq![hl] + ls);
        assert(r.body =~= ls);
    } else {
        assert((seq![hl] + ls).drop_last() =~= seq![hl] + ls.drop_last());
        assert((seq![hl] + ls).last() == ls.last());
        assert forall|j: int| 0 <= j < ls.drop_last().len() implies plain(#[trigger] ls.drop_last()[j]) by {
            assert(ls.drop_last()[j] == ls[j]);
        }
        lemma_parse_section(st, n, ls.drop_last());
        assert(plain(ls[ls.len() - 1]));
        assert(ls.drop_last().push(ls.last()) =~= ls);
        let r = parse_from(st, seq![hl] + ls);
        assert(r.body =~= ls);
    }
}

/// A section body as a memo can hold it: no carriage return, and no line
/// that opens or closes a section.
pub open spec fn body_ok(b: Seq<char>) -> bool {
    &&& no_cr(b)
    &&& forall|j: int| 0 <= j < lines(with_line_break(b)).len() ==> plain(#[trigger] lines(with_line_break(b))[j])
}

pub open spec fn sections_ok(secs: Seq<(Seq<char>, Seq<char>)>) -> bool {
    forall|k: int| 0 <= k < secs.len() ==> name_ok((#[trigger] secs[k]).0) && body_ok(secs[k].1)
}

/// The lines a rebuilt section's body is read back as.
pub open spec fn body_lines(b: Seq<char>) -> Seq<Seq<char>> {
    if trim(b).len() > 0 {
        lines(with_line_break(b))
    } else {
        Seq::empty()
    }
}

/// The body a section is read back as after a rebuild.
pub open spec fn normalized(b: Seq<char>) -> Seq<char> {
    join(body_lines(b).push(Seq::empty()), "\n"@)
}

pub open spec fn section_lines(p: (Seq<char>, Seq<char>)) -> (Seq<char>, Seq<Seq<char>>) {
    (p.0, body_lines(p.1).push(Seq::empty()))
}

/// What reading a rebuilt memo has gathered at its end.
pub open spec fn rebuilt_state(secs: Seq<(Seq<char>, Seq<char>)>) -> ParseState {
    if secs.len() == 0 {
        parse_start()
    } else {
        ParseState {
            done: secs.drop_last().map_values(|p: (Seq<char>, Seq<char>)| section_lines(p)),
            cur: secs.last().0,
            body: section_lines(secs.last()).1,
        }
    }
}

/// A trimmed name that is not empty does not end in a carriage return.
proof fn lemma_name_no_trailing_cr(n: Seq<char>)
    requires
        name_ok(n),
    ensures
        n.last() != '\r',
{
    crate::text::lemma_trim_end_prefix(crate::text::trim_start(n));
}

/// The lines of a rebuilt section.
proof fn lemma_section_text_lines(n: Seq<char>, b: Seq<char>)
    requires
        name_ok(n),
        no_cr(b),
    ensures
        lines(section_text(n, b)) == seq!["## "@ + n] + body_lines(b).push(Seq::empty()),
        section_text(n, b).len() > 0,
        section_text(n, b).last() == '\n',
{
    reveal_strlit("## ");
    reveal_strlit("\n");
    let hl = "## "@ + n;
    assert forall|i: int| 0 <= i < hl.len() implies hl[i] != '\n' by {
        if i >= 3 {
            assert(hl[i] == n[i - 3]);
        }
    }
    lemma_lines_one(hl);
    lemma_name_no_trailing_cr(n);
    assert(crate::text::strip_cr(hl) == hl) by {
        assert(hl[hl.len() - 1] == n[n.len() - 1]);
    }
    let a = hl.push('\n');
    let x = if trim(b).len() > 0 { with_line_break(b) } else { Seq::empty() };
    assert(section_text(n, b) =~= a + (x + "\n"@));
    lemma_lines_concat(a, x + "\n"@);
    lemma_lines_one(Seq::<char>::empty());
    assert(Seq::<char>::empty().push('\n') =~= "\n"@);
    assert(crate::text::strip_cr(Seq::<char>::empty()) =~= Seq::<char>::empty());
    if trim(b).len() > 0 {
        assert(x.len() > 0 && x.last() == '\n') by {
            if b.len() == 0 {
                assert(trim(b) =~= Seq::<char>::empty());
            }
        }
        lemma_lines_concat(x, "\n"@);
        assert(lines(x + "\n"@) =~= lines(x).push(Seq::empty()));
    } else {
        assert(x + "\n"@ =~= "\n"@);
        assert(lines(x + "\n"@) =~= seq![Seq::<char>::empty()]);
    }
    assert(lines(section_text(n, b)) =~= seq![hl] + body_lines(b).push(Seq::empty()));
}

/// A body that opens no section has lines that open nothing when rebuilt.
proof fn lemma_body_lines_plain(b: Seq<char>)
    requires
        body_ok(b),
    ensures
        forall|j: int| 0 <= j < body_lines(b).push(Seq::empty()).len() ==> plain(#[trigger] body_lines(b).push(Seq::empty())[j]),
{
    reveal_strlit("## ");
    reveal_strlit("# ");
    let bl = body_lines(b).push(Seq::empty());
    assert forall|j: int| 0 <= j < bl.len() implies plain(#[trigger] bl[j]) by {
        if j < bl.len() - 1 {
            assert(bl[j] == lines(with_line_break(b))[j]);
        } else {
            assert(bl[j] =~= Seq::<char>::empty());
        }
    }
}

/// Reading a rebuilt memo gathers each section's name with its body lines.
proof fn lemma_rebuild_read(secs: Seq<(Seq<char>, Seq<char>)>)
    requires
        sections_ok(secs),
    ensures
        parse_fold(lines(rebuild(secs))) == rebuilt_state(secs),
        rebuild(secs).len() > 0,
        rebuild(secs).last() == '\n',
    decreases secs.len(),
{
    reveal_strlit("# Memo\n\n");
    reveal_strlit("# Memo");
    reveal_strlit("\n");
    reveal_strlit("## ");
    reveal_strlit("# ");
    if secs.len() == 0 {
        let t = "# Memo"@;
        assert("# Memo\n\n"@ =~= t.push('\n') + "\n"@);
        lemma_lines_concat(t.push('\n'), "\n"@);
        lemma_lines_one(t);
        lemma_lines_one(Seq::<char>::empty());
        assert(Seq::<char>::empty().push('\n') =~= "\n"@);
        assert(crate::text::strip_cr(t) == t);
        let ls = lines(rebuild(secs));
        assert(ls =~= seq![t, Seq::<char>::empty()]);
        assert(starts_with(t, "# "@)) by {
            assert(t.subrange(0, 2) =~= "# "@);
        }
        assert(!starts_with(t, "## "@)) by {
            assert(t[1] != "## "@[1]);
            assert(t.subrange(0, 3)[1] == t[1]);
        }
        assert(ls.drop_last() =~= seq![t]);
        assert(seq![t].drop_last() =~= Seq::<Seq<char>>::empty());
        lemma_parse_fold_from(ls);
        assert(!starts_with(Seq::<char>::empty(), "# "@));
        assert(!starts_with(Seq::<char>::empty(), "## "@));
        let st1 = parse_fold(seq![t]);
        assert(parse_fold(seq![t].drop_last()) == parse_fold(Seq::<Seq<char>>::empty()));
        assert(st1 == parse_step(parse_fold(Seq::<Seq<char>>::empty()), t));
        assert(close_section(parse_fold(Seq::<Seq<char>>::empty())) =~= Seq::<(Seq<char>, Seq<Seq<char>>)>::empty());
        assert(st1.done =~= Seq::<(Seq<char>, Seq<Seq<char>>)>::empty());
        assert(st1.cur =~= Seq::<char>::empty());
        assert(st1.body =~= Seq::<Seq<char>>::empty());
        assert(parse_fold(ls) == parse_step(st1, Seq::<char>::empty()));
    } else {
        let d = secs.drop_last();
        let last = secs.last();
        assert(last == secs[secs.len() - 1]);
        assert(sections_ok(d)) by {
            assert forall|k: int| 0 <= k < d.len() implies name_ok((#[trigger] d[k]).0) && body_ok(d[k].1) by {
                assert(d[k] == secs[k]);
            }
        }
        lemma_rebuild_read(d);
        lemma_section_text_lines(last.0, last.1);
        lemma_lines_concat(rebuild(d), section_text(last.0, last.1));
        let head = lines(rebuild(d));
        let sec = seq!["## "@ + last.0] + body_lines(last.1).push(Seq::empty());
        lemma_parse_fold_from(head + sec);
        lemma_parse_fold_from(head);
        lemma_parse_from_concat(parse_start(), head, sec);
        lemma_body_lines_plain(last.1);
        lemma_parse_section(rebuilt_state(d), last.0, body_lines(last.1).push(Seq::empty()));
        let st = rebuilt_state(secs);
        let got = parse_fold(lines(rebuild(secs)));
        if d.len() == 0 {
            assert(close_section(rebuilt_state(d)) =~= secs.drop_last().map_values(|p: (Seq<char>, Seq<char>)| section_lines(p)));
        } else {
            assert(d.last() == d[d.len() - 1]);
            assert(rebuilt_state(d).cur.len() > 0);
            assert(close_section(rebuilt_state(d)) =~= secs.drop_last().map_values(|p: (Seq<char>, Seq<char>)| section_lines(p)));
        }
        assert(got.done == st.done);
        assert(got.cur == st.cur);
        assert(got.body == st.body);
    }
}

pub open spec fn normalize_section(p: (Seq<char>, Seq<char>)) -> (Seq<char>, Seq<char>) {
    (p.0, normalized(p.1))
}

/// Reading back a rebuilt memo gives its sections with normalized bodies.
proof fn lemma_parse_rebuild(secs: Seq<(Seq<char>, Seq<char>)>)
    requires
        sections_ok(secs),
    ensures
        parse_ordered(rebuild(secs)) == secs.map_values(|p: (Seq<char>, Seq<char>)| normalize_section(p)),
{
    lemma_rebuild_read(secs);
    let closed = close_section(rebuilt_state(secs));
    if secs.len() == 0 {
        assert(closed =~= Seq::<(Seq<char>, Seq<Seq<char>>)>::empty());
    } else {
        assert(secs.last() == secs[secs.len() - 1]);
        assert(closed =~= secs.map_values(|p: (Seq<char>, Seq<char>)| section_lines(p)));
    }
    assert(parse_ordered(rebuild(secs)) =~= secs.map_values(|p: (Seq<char>, Seq<char>)| normalize_section(p)));
}

/// A body with something on it reads back as itself ended by a line feed,
/// and every body rebuilds to the same section text as its normalized form.
proof fn lemma_normalized_text(n: Seq<char>, b: Seq<char>)
    requires
        body_ok(b),
    ensures
        trim(b).len() > 0 ==> normalized(b) == with_line_break(b),
        section_text(n, normalized(b)) == section_text(n, b),
{
    reveal_strlit("\n");
    if trim(b).len() > 0 {
        let w = with_line_break(b);
        assert(b.len() > 0) by {
            if b.len() == 0 {
                assert(trim(b) =~= Seq::<char>::empty());
            }
        }
        assert(no_cr(w)) by {
            assert forall|i: int| 0 <= i < w.len() implies w[i] != '\r' by {
                if i < b.len() {
                    assert(w[i] == b[i]);
                }
            }
        }
        lemma_join_lines_back(w);
        let ls = lines(w);
        assert(ls.push(Seq::empty()).drop_last() =~= ls);
        assert(join(ls.push(Seq::empty()), "\n"@) == join(ls, "\n"@) + "\n"@ + Seq::<char>::empty());
        assert(normalized(b) =~= w);
        if w != b {
            crate::text::lemma_trim_push_ws(b, '\n');
        }
        assert(trim(w).len() > 0);
        assert(with_line_break(w) == w);
    } else {
        assert(body_lines(b) =~= Seq::<Seq<char>>::empty());
        assert(body_lines(b).push(Seq::empty()) =~= seq![Seq::<char>::empty()]);
        assert(normalized(b) == Seq::<char>::empty());
        assert(trim(Seq::<char>::empty()) =~= Seq::<char>::empty());
    }
}

/// Rebuilding normalized sections gives the same memo.
proof fn lemma_rebuild_normalized(secs: Seq<(Seq<char>, Seq<char>)>)
    requires
        sections_ok(secs),
    ensures
        rebuild(secs.map_values(|p: (Seq<char>, Seq<char>)| normalize_section(p))) == rebuild(secs),
    decreases secs.len(),
{
    if secs.len() > 0 {
        let d = secs.drop_last();
        assert(sections_ok(d)) by {
            assert forall|k: int| 0 <= k < d.len() implies name_ok((#[trigger] d[k]).0) && body_ok(d[k].1) by {
                assert(d[k] == secs[k]);
            }
        }
        lemma_rebuild_normalized(d);
        let m = secs.map_values(|p: (Seq<char>, Seq<char>)| normalize_section(p));
        assert(m.drop_last() =~= d.map_values(|p: (Seq<char>, Seq<char>)| normalize_section(p)));
        assert(secs.last() == secs[secs.len() - 1]);
        assert(m.last() == normalize_section(secs.last()));
        lemma_normalized_text(secs.last().0, secs.last().1);
    }
}

/// A text of whitespace only trims to nothing.
proof fn lemma_all_ws_trims_empty(s: Seq<char>)
    requires
        forall|i: int| 0 <= i < s.len() ==> crate::text::is_ws(s[i]),
    ensures
        trim(s).len() == 0,
    decreases s.len(),
{
    if s.len() > 0 {
        assert forall|i: int| 0 <= i < s.drop_first().len() implies crate::text::is_ws(s.drop_first()[i]) by {
            assert(s.drop_first()[i] == s[i + 1]);
        }
        lemma_all_ws_trims_empty(s.drop_first());
        assert(crate::text::trim_start(s) == crate::text::trim_start(s.drop_first()));
    } else {
        assert(crate::text::trim_start(s) == s);
    }
}

proof fn lemma_trim_end_keeps_head(x: Seq<char>)
    requires
        x.len() > 0,
        !crate::text::is_ws(x[0]),
    ensures
        crate::text::trim_end(x).len() > 0,
    decreases x.len(),
{
    if crate::text::is_ws(x.last()) {
        assert(x.len() > 1);
        assert(x.drop_last()[0] == x[0]);
        lemma_trim_end_keeps_head(x.drop_last());
    }
}

proof fn lemma_trim_start_nonempty(s: Seq<char>, q: int)
    requires
        0 <= q < s.len(),
        !crate::text::is_ws(s[q]),
    ensures
        crate::text::trim_start(s).len() > 0,
    decreases s.len(),
{
    if crate::text::is_ws(s[0]) {
        assert(q > 0);
        assert(s.drop_first()[q - 1] == s[q]);
        lemma_trim_start_nonempty(s.drop_first(), q - 1);
    }
}

/// A text with a character that is not whitespace does not trim to nothing.
proof fn lemma_non_ws_trims_nonempty(s: Seq<char>, q: int)
    requires
        0 <= q < s.len(),
        !crate::text::is_ws(s[q]),
    ensures
        trim(s).len() > 0,
{
    lemma_trim_start_nonempty(s, q);
    crate::text::lemma_trim_start_head(s);
    lemma_trim_end_keeps_head(crate::text::trim_start(s));
}

/// Every character of a line is a character of the text.
proof fn lemma_lines_chars(b: Seq<char>, j: int, i: int)
    requires
        0 <= j < lines(b).len(),
        0 <= i < lines(b)[j].len(),
    ensures
        exists|q: int| 0 <= q < b.len() && b[q] == lines(b)[j][i],
    decreases b.len(),
{
    crate::text::lemma_nl_pos_bounds(b);
    let k = crate::text::nl_pos(b);
    if k >= b.len() {
        assert(lines(b) == seq![b]);
        assert(b[i] == lines(b)[j][i]);
    } else {
        let rest = b.skip(k + 1);
        assert(lines(b) == seq![crate::text::strip_cr(b.take(k))] + lines(rest));
        if j == 0 {
            let h = crate::text::strip_cr(b.take(k));
            assert(h[i] == b[i]);
        } else {
            assert(lines(b)[j] == lines(rest)[j - 1]);
            lemma_lines_chars(rest, j - 1, i);
            let q = choose|q: int| 0 <= q < rest.len() && rest[q] == lines(rest)[j - 1][i];
            assert(b[k + 1 + q] == rest[q]);
        }
    }
}

/// A body holding a line with something on it has something on it.
proof fn lemma_present_not_blank(b: Seq<char>, t: Seq<char>)
    requires
        t.len() > 0,
        trimmed_in(lines(b), t),
    ensures
        trim(b).len() > 0,
{
    let j = choose|j: int| 0 <= j < lines(b).len() && trim(#[trigger] lines(b)[j]) == t;
    let l = lines(b)[j];
    if forall|i: int| 0 <= i < l.len() ==> crate::text::is_ws(l[i]) {
        lemma_all_ws_trims_empty(l);
    }
    let i = choose|i: int| 0 <= i < l.len() && !crate::text::is_ws(l[i]);
    lemma_lines_chars(b, j, i);
    let q = choose|q: int| 0 <= q < b.len() && b[q] == lines(b)[j][i];
    lemma_non_ws_trims_nonempty(b, q);
}

/// A line a diff can add to a memo and read back: not blank, on one line,
/// without a carriage return, and not starting with `#`.
pub open spec fn line_ok(l: Seq<char>) -> bool {
    &&& trim(l).len() > 0
    &&& l.len() > 0
    &&& l[0] != '#'
    &&& no_cr(l)
    &&& forall|i: int| 0 <= i < l.len() ==> l[i] != '\n'
}

pub open spec fn lines_ok(ls: Seq<Seq<char>>) -> bool {
    forall|j: int| 0 <= j < ls.len() ==> line_ok(#[trigger] ls[j])
}

proof fn lemma_line_ok_plain(l: Seq<char>)
    requires
        line_ok(l),
    ensures
        plain(l),
{
    reveal_strlit("## ");
    reveal_strlit("# ");
    if starts_with(l, "## "@) {
        assert(l.subrange(0, 3)[0] == l[0]);
    }
    if starts_with(l, "# "@) {
        assert(l.subrange(0, 2)[0] == l[0]);
    }
}

proof fn lemma_append_line_ok(b: Seq<char>, l: Seq<char>)
    requires
        body_ok(b),
        line_ok(l),
    ensures
        body_ok(append_line(b, l)),
{
    if !trimmed_in(lines(b), trim(l)) {
        let wb = with_line_break(b);
        let b2 = wb + l;
        assert(b2 == append_line(b, l));
        assert(b2.last() == l[l.len() - 1]);
        assert(with_line_break(b2) =~= wb + l.push('\n'));
        lemma_lines_concat(wb, l.push('\n'));
        lemma_lines_one(l);
        assert(crate::text::strip_cr(l) == l);
        lemma_line_ok_plain(l);
        let all = lines(with_line_break(b2));
        assert(all =~= lines(wb) + seq![l]);
        assert forall|j: int| 0 <= j < all.len() implies plain(#[trigger] all[j]) by {
            if j < lines(wb).len() {
                assert(all[j] == lines(wb)[j]);
            }
        }
        assert forall|i: int| 0 <= i < b2.len() implies b2[i] != '\r' by {
            if i < b.len() {
                assert(b2[i] == b[i]);
            } else if i >= wb.len() {
                assert(b2[i] == l[i - wb.len()]);
            }
        }
    }
}

proof fn lemma_append_lines_ok(b: Seq<char>, ls: Seq<Seq<char>>)
    requires
        body_ok(b),
        lines_ok(ls),
    ensures
        body_ok(append_lines(b, ls)),
    decreases ls.len(),
{
    if ls.len() > 0 {
        assert(lines_ok(ls.drop_last())) by {
            assert forall|j: int| 0 <= j < ls.drop_last().len() implies line_ok(#[trigger] ls.drop_last()[j]) by {
                assert(ls.drop_last()[j] == ls[j]);
            }
        }
        lemma_append_lines_ok(b, ls.drop_last());
        assert(ls.last() == ls[ls.len() - 1]);
        lemma_append_line_ok(append_lines(b, ls.drop_last()), ls.last());
    }
}

proof fn lemma_join_no_cr(ls: Seq<Seq<char>>)
    requires
        lines_ok(ls),
    ensures
        no_cr(join(ls, "\n"@)),
    decreases ls.len(),
{
    reveal_strlit("\n");
    if ls.len() == 1 {
        assert(join(ls, "\n"@) == ls[0]);
    } else if ls.len() > 1 {
        assert(lines_ok(ls.drop_last())) by {
            assert forall|j: int| 0 <= j < ls.drop_last().len() implies line_ok(#[trigger] ls.drop_last()[j]) by {
                assert(ls.drop_last()[j] == ls[j]);
            }
        }
        lemma_join_no_cr(ls.drop_last());
        let x = join(ls.drop_last(), "\n"@);
        let m = ls.last();
        assert(m == ls[ls.len() - 1]);
        let y = join(ls, "\n"@);
        assert(y == x + "\n"@ + m);
        assert forall|i: int| 0 <= i < y.len() implies y[i] != '\r' by {
            if i < x.len() {
                assert(y[i] == x[i]);
            } else if i > x.len() {
                assert(y[i] == m[i - x.len() - 1]);
            }
        }
    } else {
        assert(join(ls, "\n"@) =~= Seq::<char>::empty());
    }
}

proof fn lemma_join_ok(ls: Seq<Seq<char>>)
    requires
        lines_ok(ls),
    ensures
        body_ok(join(ls, "\n"@)),
{
    lemma_join_no_cr(ls);
    if ls.len() == 0 {
        assert(join(ls, "\n"@) =~= Seq::<char>::empty());
        assert(lines(Seq::<char>::empty()) =~= Seq::<Seq<char>>::empty());
    } else {
        assert(appendable(ls)) by {
            assert forall|j: int| 0 <= j < ls.len() implies (#[trigger] ls[j]).len() > 0 && forall|i: int| 0 <= i < ls[j].len() ==> ls[j][i] != '\n' by {
                assert(line_ok(ls[j]));
            }
        }
        lemma_join_ends(ls);
        lemma_lines_of_joined(ls);
        assert forall|j: int| 0 <= j < ls.len() implies plain(#[trigger] ls[j]) by {
            lemma_line_ok_plain(ls[j]);
        }
    }
}

/// An added-lines diff whose names and lines a memo can hold.
pub open spec fn diff_ok(es: Seq<(Seq<char>, ChangeView)>) -> bool {
    forall|j: int| 0 <= j < es.len() ==> name_ok((#[trigger] es[j]).0) && lines_ok(added_of(es[j].1))
}

proof fn lemma_apply_all_ok(secs: Seq<(Seq<char>, Seq<char>)>, es: Seq<(Seq<char>, ChangeView)>)
    requires
        sections_ok(secs),
        all_added(es),
        diff_ok(es),
    ensures
        sections_ok(apply_all(secs, es)),
    decreases es.len(),
{
    if es.len() > 0 {
        let prev = es.drop_last();
        assert(all_added(prev)) by {
            assert forall|i: int| 0 <= i < prev.len() implies ((#[trigger] prev[i]).1 matches ChangeView::Added(ls) && appendable(ls)) by {
                assert(prev[i] == es[i]);
            }
        }
        assert(diff_ok(prev)) by {
            assert forall|j: int| 0 <= j < prev.len() implies name_ok((#[trigger] prev[j]).0) && lines_ok(added_of(prev[j].1)) by {
                assert(prev[j] == es[j]);
            }
        }
        lemma_apply_all_ok(secs, prev);
        let before = apply_all(secs, prev);
        let e = es.last();
        assert(e == es[es.len() - 1]);
        let ls = added_of(e.1);
        assert(e.1 == ChangeView::Added(ls));
        lemma_find_name_bounds(before, e.0);
        let k = find_name(before, e.0);
        let after = apply_all(secs, es);
        assert(after == apply_one(before, e.0, e.1));
        if k < before.len() {
            lemma_append_lines_ok(before[k].1, ls);
        } else {
            lemma_join_ok(ls);
        }
        assert forall|q: int| 0 <= q < after.len() implies name_ok((#[trigger] after[q]).0) && body_ok(after[q].1) by {
            if q < before.len() && q != k {
                assert(after[q] == before[q]);
            }
        }
    }
}

/// Normalizing bodies keeps every non-blank line present where it was.
proof fn lemma_normalized_present(secs: Seq<(Seq<char>, Seq<char>)>, name: Seq<char>, ls: Seq<Seq<char>>)
    requires
        sections_ok(secs),
        lines_ok(ls),
        lines_present(secs, name, ls),
    ensures
        lines_present(secs.map_values(|p: (Seq<char>, Seq<char>)| normalize_section(p)), name, ls),
{
    let m = secs.map_values(|p: (Seq<char>, Seq<char>)| normalize_section(p));
    lemma_find_name_bounds(secs, name);
    let k = find_name(secs, name);
    assert forall|j: int| 0 <= j < k implies (#[trigger] m[j]).0 != name by {
        assert(m[j].0 == secs[j].0);
    }
    assert(m[k].0 == secs[k].0);
    lemma_find_name_is(m, name, k);
    let b = secs[k].1;
    assert(body_ok(b));
    assert forall|j: int| 0 <= j < ls.len() implies trimmed_in(lines(m[k].1), trim(#[trigger] ls[j])) by {
        assert(line_ok(ls[j]));
        assert(trimmed_in(lines(b), trim(ls[j])));
        lemma_present_not_blank(b, trim(ls[j]));
        lemma_normalized_text(name, b);
        assert(m[k].1 == normalized(b));
        if with_line_break(b) != b {
            lemma_lines_break_keeps(b, trim(ls[j]));
        }
    }
}

/// Applying the same added-lines diff to a memo twice gives what applying it
/// once gives, for a memo without carriage returns and a diff that names
/// each section once, with trimmed one-line names other than the raw key,
/// adding non-blank lines that hold no line feed or carriage return and do
/// not start with `#`.
/// A carriage return is excluded because the rebuild drops it: `"## S\na\r"`
/// with `x` added to `S` gives `"# Memo\n\n## S\na\r\nx\n\n"` once and
/// `"# Memo\n\n## S\na\nx\n\n"` twice.
pub proof fn lemma_apply_added_diff_idempotent(current: Seq<char>, es: Seq<(Seq<char>, ChangeView)>)
    requires
        no_cr(current),
        es.len() > 0,
        all_added(es),
        names_unique(es),
        diff_ok(es),
        find_entry(es, raw_key()) >= es.len(),
    ensures
        apply_spec(apply_spec(current, es), es) == apply_spec(current, es),
{
    lemma_parsed_sections_ok(current);
    let p0 = parse_ordered(current);
    let s1 = apply_all(p0, es);
    let t1 = rebuild(s1);
    assert(apply_spec(current, es) == t1);
    lemma_apply_all_ok(p0, es);
    lemma_apply_all_present(p0, es);
    lemma_parse_rebuild(s1);
    let n = s1.map_values(|p: (Seq<char>, Seq<char>)| normalize_section(p));
    assert forall|j: int| 0 <= j < es.len() implies lines_present(n, (#[trigger] es[j]).0, added_of(es[j].1)) by {
        assert(lines_ok(added_of(es[j].1)));
        lemma_normalized_present(s1, es[j].0, added_of(es[j].1));
    }
    lemma_apply_all_present_noop(n, es);
    lemma_rebuild_normalized(s1);
    assert(apply_spec(t1, es) == rebuild(apply_all(parse_ordered(t1), es)));
}

/// The lines of a text hold no line feed, and no carriage return when the
/// text has none.
proof fn lemma_lines_clean(c: Seq<char>, j: int)
    requires
        0 <= j < lines(c).len(),
    ensures
        forall|i: int| 0 <= i < lines(c)[j].len() ==> lines(c)[j][i] != '\n',
        no_cr(c) ==> no_cr(lines(c)[j]),
    decreases c.len(),
{
    crate::text::lemma_nl_pos_bounds(c);
    let k = crate::text::nl_pos(c);
    if k >= c.len() {
        assert(lines(c) == seq![c]);
    } else {
        let rest = c.skip(k + 1);
        assert(lines(c) == seq![crate::text::strip_cr(c.take(k))] + lines(rest));
        if j == 0 {
            let h = crate::text::strip_cr(c.take(k));
            assert forall|i: int| 0 <= i < h.len() implies h[i] != '\n' by {
                assert(h[i] == c[i]);
            }
            if no_cr(c) {
                assert forall|i: int| 0 <= i < h.len() implies h[i] != '\r' by {
                    assert(h[i] == c[i]);
                }
            }
        } else {
            assert(lines(c)[j] == lines(rest)[j - 1]);
            if no_cr(c) {
                assert forall|i: int| 0 <= i < rest.len() implies rest[i] != '\r' by {
                    assert(rest[i] == c[k + 1 + i]);
                }
            }
            lemma_lines_clean(rest, j - 1);
        }
    }
}

/// A line as a section body holds it: on one line, without a carriage
/// return, opening or closing nothing.
pub open spec fn body_line_ok(l: Seq<char>) -> bool {
    &&& plain(l)
    &&& no_cr(l)
    &&& forall|i: int| 0 <= i < l.len() ==> l[i] != '\n'
}

/// Body lines joined make a body a memo can hold.
proof fn lemma_joined_body_ok(ls: Seq<Seq<char>>)
    requires
        forall|j: int| 0 <= j < ls.len() ==> body_line_ok(#[trigger] ls[j]),
    ensures
        body_ok(join(ls, "\n"@)),
    decreases ls.len(),
{
    reveal_strlit("\n");
    let b = join(ls, "\n"@);
    if ls.len() == 0 {
        assert(b =~= Seq::<char>::empty());
        assert(lines(Seq::<char>::empty()) =~= Seq::<Seq<char>>::empty());
    } else {
        assert(no_cr(b)) by {
            lemma_join_no_cr_general(ls);
        }
        if b.len() == 0 {
            assert(with_line_break(b) == b);
            assert(lines(b) =~= Seq::<Seq<char>>::empty());
        } else if b.last() != '\n' {
            assert forall|j: int| 0 <= j < ls.len() implies no_cr(#[trigger] ls[j]) && forall|i: int| 0 <= i < ls[j].len() ==> ls[j][i] != '\n' by {
                assert(body_line_ok(ls[j]));
            }
            lemma_lines_of_joined(ls);
        } else {
            // The last line is empty: the body ends with the line feed before it.
            let m = ls.last();
            assert(m == ls[ls.len() - 1]);
            if ls.len() == 1 {
                assert(b == m);
                assert(m[m.len() - 1] == '\n');
            }
            assert(ls.len() > 1);
            let prev = ls.drop_last();
            assert(b == join(prev, "\n"@) + "\n"@ + m);
            assert(m.len() == 0) by {
                if m.len() > 0 {
                    assert(b.last() == m[m.len() - 1]);
                }
            }
            assert(b =~= join(prev, "\n"@).push('\n'));
            assert forall|j: int| 0 <= j < prev.len() implies no_cr(#[trigger] prev[j]) && forall|i: int| 0 <= i < prev[j].len() ==> prev[j][i] != '\n' by {
                assert(prev[j] == ls[j]);
                assert(body_line_ok(ls[j]));
            }
            lemma_lines_of_joined(prev);
            assert forall|j: int| 0 <= j < prev.len() implies plain(#[trigger] prev[j]) by {
                assert(prev[j] == ls[j]);
                assert(body_line_ok(ls[j]));
            }
        }
    }
}

proof fn lemma_join_no_cr_general(ls: Seq<Seq<char>>)
    requires
        forall|j: int| 0 <= j < ls.len() ==> no_cr(#[trigger] ls[j]),
    ensures
        no_cr(join(ls, "\n"@)),
    decreases ls.len(),
{
    reveal_strlit("\n");
    if ls.len() == 1 {
        assert(join(ls, "\n"@) == ls[0]);
    } else if ls.len() > 1 {
        assert forall|j: int| 0 <= j < ls.drop_last().len() implies no_cr(#[trigger] ls.drop_last()[j]) by {
            assert(ls.drop_last()[j] == ls[j]);
        }
        lemma_join_no_cr_general(ls.drop_last());
        let x = join(ls.drop_last(), "\n"@);
        let m = ls.last();
        assert(m == ls[ls.len() - 1]);
        let y = join(ls, "\n"@);
        assert(y == x + "\n"@ + m);
        assert forall|i: int| 0 <= i < y.len() implies y[i] != '\r' by {
            if i < x.len() {
                assert(y[i] == x[i]);
            } else if i > x.len() {
                assert(y[i] == m[i - x.len() - 1]);
            }
        }
    } else {
        assert(join(ls, "\n"@) =~= Seq::<char>::empty());
    }
}

/// What reading keeps: finished sections with good names and body lines,
/// and an open section (if named) likewise.
pub open spec fn read_state_ok(st: ParseState) -> bool {
    &&& forall|k: int| 0 <= k < st.done.len() ==> name_ok((#[trigger] st.done[k]).0) && forall|j: int|
        0 <= j < st.done[k].1.len() ==> body_line_ok(#[trigger] st.done[k].1[j])
    &&& st.cur.len() > 0 ==> name_ok(st.cur)
    &&& forall|j: int| 0 <= j < st.body.len() ==> body_line_ok(#[trigger] st.body[j])
}

proof fn lemma_parse_step_ok(st: ParseState, line: Seq<char>)
    requires
        read_state_ok(st),
        no_cr(line),
        forall|i: int| 0 <= i < line.len() ==> line[i] != '\n',
    ensures
        read_state_ok(parse_step(st, line)),
{
    reveal_strlit("## ");
    let closed = close_section(st);
    assert forall|k: int| 0 <= k < closed.len() implies name_ok((#[trigger] closed[k]).0) && forall|j: int|
        0 <= j < closed[k].1.len() ==> body_line_ok(#[trigger] closed[k].1[j]) by {
        if k < st.done.len() {
            assert(closed[k] == st.done[k]);
        }
    }
    if starts_with(line, "## "@) {
        let n = trim(line.skip(3));
        if n.len() > 0 {
            crate::text::lemma_trim_idempotent(line.skip(3));
            assert(forall|i: int| 0 <= i < n.len() ==> n[i] != '\n') by {
                let t0 = crate::text::trim_start(line.skip(3));
                crate::text::lemma_trim_start_suffix(line.skip(3));
                crate::text::lemma_trim_end_prefix(t0);
                assert forall|i: int| 0 <= i < n.len() implies n[i] != '\n' by {
                    let p = line.skip(3).len() - t0.len();
                    assert(n[i] == t0[i]);
                    assert(t0[i] == line.skip(3)[p + i]);
                    assert(line.skip(3)[p + i] == line[3 + p + i]);
                }
            }
        }
    }
}

proof fn lemma_parse_fold_ok(ls: Seq<Seq<char>>)
    requires
        forall|j: int| 0 <= j < ls.len() ==> no_cr(#[trigger] ls[j]) && forall|i: int| 0 <= i < ls[j].len() ==> ls[j][i] != '\n',
    ensures
        read_state_ok(parse_fold(ls)),
    decreases ls.len(),
{
    if ls.len() > 0 {
        assert forall|j: int| 0 <= j < ls.drop_last().len() implies no_cr(#[trigger] ls.drop_last()[j]) && forall|i: int|
            0 <= i < ls.drop_last()[j].len() ==> ls.drop_last()[j][i] != '\n' by {
            assert(ls.drop_last()[j] == ls[j]);
        }
        lemma_parse_fold_ok(ls.drop_last());
        assert(ls.last() == ls[ls.len() - 1]);
        lemma_parse_step_ok(parse_fold(ls.drop_last()), ls.last());
    }
}

/// A memo without carriage returns reads as sections a rebuild reads back.
proof fn lemma_parsed_sections_ok(c: Seq<char>)
    requires
        no_cr(c),
    ensures
        sections_ok(parse_ordered(c)),
{
    let ls = lines(c);
    assert forall|j: int| 0 <= j < ls.len() implies no_cr(#[trigger] ls[j]) && forall|i: int| 0 <= i < ls[j].len() ==> ls[j][i] != '\n' by {
        lemma_lines_clean(c, j);
    }
    lemma_parse_fold_ok(ls);
    let st = parse_fold(ls);
    let closed = close_section(st);
    assert forall|k: int| 0 <= k < closed.len() implies name_ok((#[trigger] closed[k]).0) && forall|j: int|
        0 <= j < closed[k].1.len() ==> body_line_ok(#[trigger] closed[k].1[j]) by {
        if k < st.done.len() {
            assert(closed[k] == st.done[k]);
        }
    }
    let p = parse_ordered(c);
    assert forall|k: int| 0 <= k < p.len() implies name_ok((#[trigger] p[k]).0) && body_ok(p[k].1) by {
        assert(p[k] == (closed[k].0, join(closed[k].1, "\n"@)));
        lemma_joined_body_ok(closed[k].1);
    }
}

} // verus!
