//! Single-track subtitle parsing, validation and non-destructive retiming.
use vstd::prelude::*;

use crate::paths::{extension_of, path_extension, path_file_stem};
use crate::segments::{monus, ClipRange};
use crate::text::{blank, chars_of, is_blank, lowercase, starts_with, texts};

pub mod parse;

pub use crate::subtitles::parse::{
    parse_spec, parsed_from, ParseErrorView, ParsedTrack, SubtitleLoadError, SubtitleParseError,
};

verus! {

#[derive(Debug, Clone, Copy, PartialEq, Eq, Structural)]
pub enum SubtitleFormat {
    Srt,
    WebVtt,
    Ass,
}

/// The subtitle format that an extension names, compared without regard to
/// ASCII case.
pub open spec fn format_of_extension(ext: Seq<char>) -> Option<SubtitleFormat> {
    let e = lowercase(ext);
    if e == seq!['s', 'r', 't'] {
        Some(SubtitleFormat::Srt)
    } else if e == seq!['v', 't', 't'] {
        Some(SubtitleFormat::WebVtt)
    } else if e == seq!['a', 's', 's'] || e == seq!['s', 's', 'a'] {
        Some(SubtitleFormat::Ass)
    } else {
        None
    }
}

pub open spec fn format_of_path(path: Seq<char>) -> Option<SubtitleFormat> {
    match path_extension(path) {
        Some(ext) => format_of_extension(ext),
        None => None,
    }
}

impl SubtitleFormat {
    /// The format a subtitle file's extension names (`srt`, `vtt`, `ass`/`ssa`).
    pub fn from_path(path: &str) -> (r: Option<Self>)
        ensures
            r == format_of_path(path@),
    {
        let ext = match extension_of(path) {
            Some(ext) => ext,
            None => return None,
        };
        let e = crate::text::lowercased(&chars_of(ext));
        if crate::text::chars_eq(&e, &vec!['s', 'r', 't']) {
            Some(Self::Srt)
        } else if crate::text::chars_eq(&e, &vec!['v', 't', 't']) {
            Some(Self::WebVtt)
        } else if crate::text::chars_eq(&e, &vec!['a', 's', 's']) || crate::text::chars_eq(
            &e,
            &vec!['s', 's', 'a'],
        ) {
            Some(Self::Ass)
        } else {
            None
        }
    }
}

// ---------------------------------------------------------------------------
// Cues
// ---------------------------------------------------------------------------

#[derive(Debug, Clone, PartialEq, Eq)]
pub struct SubtitleCue {
    pub id: u64,
    pub start_ms: u64,
    pub end_ms: u64,
    pub text: String,
    pub identifier: Option<String>,
    pub settings: Option<String>,
    pub style: Option<String>,
    pub speaker: Option<String>,
}

/// The mathematical value of a cue.
pub struct CueView {
    pub id: u64,
    pub start_ms: u64,
    pub end_ms: u64,
    pub text: Seq<char>,
    pub identifier: Option<Seq<char>>,
    pub settings: Option<Seq<char>>,
    pub style: Option<Seq<char>>,
    pub speaker: Option<Seq<char>>,
}

pub open spec fn opt_view(o: Option<String>) -> Option<Seq<char>> {
    match o {
        Some(s) => Some(s@),
        None => None,
    }
}

impl View for SubtitleCue {
    type V = CueView;

    open spec fn view(&self) -> CueView {
        CueView {
            id: self.id,
            start_ms: self.start_ms,
            end_ms: self.end_ms,
            text: self.text@,
            identifier: opt_view(self.identifier),
            settings: opt_view(self.settings),
            style: opt_view(self.style),
            speaker: opt_view(self.speaker),
        }
    }
}

/// A cue with only times and text set.
pub open spec fn plain_cue(id: u64, start_ms: u64, end_ms: u64, text: Seq<char>) -> CueView {
    CueView {
        id,
        start_ms,
        end_ms,
        text,
        identifier: None,
        settings: None,
        style: None,
        speaker: None,
    }
}

pub fn copy_opt_string(o: &Option<String>) -> (r: Option<String>)
    ensures
        opt_view(r) == opt_view(*o),
{
    match o {
        Some(s) => Some(s.clone()),
        None => None,
    }
}

impl SubtitleCue {
    pub fn new(id: u64, start_ms: u64, end_ms: u64, text: &str) -> (r: Self)
        ensures
            r@ == plain_cue(id, start_ms, end_ms, text@),
    {
        Self {
            id,
            start_ms,
            end_ms,
            text: text.to_owned(),
            identifier: None,
            settings: None,
            style: None,
            speaker: None,
        }
    }

    pub fn duration_ms(&self) -> (r: u64)
        ensures
            r == monus(self.end_ms, self.start_ms),
    {
        self.end_ms.saturating_sub(self.start_ms)
    }

    /// A copy of this cue.
    pub fn duplicate(&self) -> (r: Self)
        ensures
            r@ == self@,
    {
        SubtitleCue {
            id: self.id,
            start_ms: self.start_ms,
            end_ms: self.end_ms,
            text: self.text.clone(),
            identifier: copy_opt_string(&self.identifier),
            settings: copy_opt_string(&self.settings),
            style: copy_opt_string(&self.style),
            speaker: copy_opt_string(&self.speaker),
        }
    }
}

// ---------------------------------------------------------------------------
// Metadata
// ---------------------------------------------------------------------------

/// Key/value metadata of a track: a finite map from keys to values, kept as
/// a list of entries in which no key occurs twice.
#[derive(Debug, PartialEq, Eq)]
pub struct Metadata {
    entries: Vec<(String, String)>,
}

pub open spec fn entry_views(e: Seq<(String, String)>) -> Seq<(Seq<char>, Seq<char>)> {
    e.map_values(|p: (String, String)| (p.0@, p.1@))
}

/// The map that a list of entries denotes, later entries taking precedence.
pub open spec fn map_of(e: Seq<(Seq<char>, Seq<char>)>) -> Map<Seq<char>, Seq<char>>
    decreases e.len(),
{
    if e.len() == 0 {
        Map::empty()
    } else {
        map_of(e.drop_last()).insert(e.last().0, e.last().1)
    }
}

pub open spec fn distinct_keys(e: Seq<(Seq<char>, Seq<char>)>) -> bool {
    forall|i: int, j: int| 0 <= i < j < e.len() ==> e[i].0 != e[j].0
}

proof fn lemma_map_of_lookup(e: Seq<(Seq<char>, Seq<char>)>, k: Seq<char>)
    requires
        distinct_keys(e),
    ensures
        map_of(e).dom().finite(),
        map_of(e).dom().len() == e.len(),
        forall|i: int| 0 <= i < e.len() && e[i].0 == k ==> map_of(e).contains_key(k) && map_of(e)[k] == e[i].1,
        (forall|i: int| 0 <= i < e.len() ==> e[i].0 != k) ==> !map_of(e).contains_key(k),
    decreases e.len(),
{
    if e.len() > 0 {
        let init = e.drop_last();
        assert(distinct_keys(init));
        lemma_map_of_lookup(init, k);
        lemma_map_of_lookup(init, e.last().0);
        assert forall|i: int| 0 <= i < init.len() implies init[i].0 != e.last().0 by {
            assert(e[i].0 != e[e.len() - 1].0);
        }
        assert(!map_of(init).contains_key(e.last().0));
        assert forall|i: int| 0 <= i < e.len() && e[i].0 == k implies map_of(e).contains_key(k)
            && map_of(e)[k] == e[i].1 by {
            if i < e.len() - 1 {
                assert(init[i] == e[i]);
                assert(e[i].0 != e[e.len() - 1].0);
            }
        }
        assert((forall|i: int| 0 <= i < e.len() ==> e[i].0 != k) ==> !map_of(e).contains_key(k)) by {
            if forall|i: int| 0 <= i < e.len() ==> e[i].0 != k {
                assert forall|i: int| 0 <= i < init.len() implies init[i].0 != k by {
                    assert(init[i] == e[i]);
                }
                assert(e[e.len() - 1].0 != k);
            }
        }
    }
}

proof fn lemma_map_of_update(e: Seq<(Seq<char>, Seq<char>)>, i: int, v: Seq<char>)
    requires
        distinct_keys(e),
        0 <= i < e.len(),
    ensures
        map_of(e.update(i, (e[i].0, v))) == map_of(e).insert(e[i].0, v),
        distinct_keys(e.update(i, (e[i].0, v))),
    decreases e.len(),
{
    let u = e.update(i, (e[i].0, v));
    assert(distinct_keys(u));
    if i == e.len() - 1 {
        assert(u.drop_last() =~= e.drop_last());
        assert(distinct_keys(e.drop_last()));
        lemma_map_of_lookup(e.drop_last(), e[i].0);
        assert(map_of(u) =~= map_of(e).insert(e[i].0, v));
    } else {
        let init = e.drop_last();
        assert(distinct_keys(init));
        lemma_map_of_update(init, i, v);
        assert(u.drop_last() =~= init.update(i, (e[i].0, v)));
        assert(e[i].0 != e.last().0);
        assert(map_of(u) =~= map_of(e).insert(e[i].0, v));
    }
}

impl View for Metadata {
    type V = Map<Seq<char>, Seq<char>>;

    closed spec fn view(&self) -> Map<Seq<char>, Seq<char>> {
        map_of(entry_views(self.entries@))
    }
}

impl Clone for Metadata {
    fn clone(&self) -> (r: Self)
        ensures
            r@ == self@,
    {
        self.duplicate()
    }
}

impl Metadata {
    #[verifier::type_invariant]
    spec fn keys_distinct(&self) -> bool {
        distinct_keys(entry_views(self.entries@))
    }

    pub fn new() -> (r: Self)
        ensures
            r@ == Map::<Seq<char>, Seq<char>>::empty(),
    {
        let r = Metadata { entries: Vec::new() };
        assert(entry_views(r.entries@) =~= seq![]);
        r
    }

    fn position(&self, key: &str) -> (r: Option<usize>)
        ensures
            match r {
                Some(i) => i < self.entries@.len() && entry_views(self.entries@)[i as int].0
                    == key@,
                None => forall|i: int|
                    0 <= i < self.entries@.len() ==> entry_views(self.entries@)[i].0 != key@,
            },
    {
        let k = key.to_owned();
        let mut i: usize = 0;
        while i < self.entries.len()
            invariant
                k@ == key@,
                i <= self.entries@.len(),
                forall|j: int| 0 <= j < i ==> entry_views(self.entries@)[j].0 != key@,
            decreases self.entries.len() - i,
        {
            if self.entries[i].0 == k {
                return Some(i);
            }
            i = i + 1;
        }
        None
    }

    /// The value stored under `key`, if any.
    pub fn get(&self, key: &str) -> (r: Option<&String>)
        ensures
            match r {
                Some(v) => self@.contains_key(key@) && self@[key@] == v@,
                None => !self@.contains_key(key@),
            },
    {
        proof {
            use_type_invariant(self);
            lemma_map_of_lookup(entry_views(self.entries@), key@);
        }
        match self.position(key) {
            Some(i) => Some(&self.entries[i].1),
            None => None,
        }
    }

    pub fn contains_key(&self, key: &str) -> (r: bool)
        ensures
            r == self@.contains_key(key@),
    {
        proof {
            use_type_invariant(self);
            lemma_map_of_lookup(entry_views(self.entries@), key@);
        }
        self.position(key).is_some()
    }

    pub fn len(&self) -> (r: usize)
        ensures
            self@.dom().finite(),
            r == self@.dom().len(),
    {
        proof {
            use_type_invariant(self);
            lemma_map_of_lookup(entry_views(self.entries@), seq![]);
        }
        self.entries.len()
    }

    pub fn is_empty(&self) -> (r: bool)
        ensures
            r == (self@.dom().len() == 0),
    {
        proof {
            use_type_invariant(self);
            lemma_map_of_lookup(entry_views(self.entries@), seq![]);
        }
        self.entries.len() == 0
    }

    /// Stores `value` under `key`, returning the value it replaces.
    pub fn insert(&mut self, key: String, value: String) -> (r: Option<String>)
        ensures
            final(self)@ == old(self)@.insert(key@, value@),
            match r {
                Some(v) => old(self)@.contains_key(key@) && old(self)@[key@] == v@,
                None => !old(self)@.contains_key(key@),
            },
    {
        proof {
            use_type_invariant(&*self);
            lemma_map_of_lookup(entry_views(self.entries@), key@);
        }
        let pos = self.position(key.as_str());
        let mut entries: Vec<(String, String)> = Vec::new();
        std::mem::swap(&mut entries, &mut self.entries);
        let ghost e = entry_views(entries@);
        match pos {
            Some(i) => {
                let mut entry = (key, value);
                entries.set_and_swap(i, &mut entry);
                proof {
                    lemma_map_of_update(e, i as int, value@);
                    assert(entry_views(entries@) =~= e.update(i as int, (e[i as int].0, value@)));
                }
                self.entries = entries;
                Some(entry.1)
            },
            None => {
                entries.push((key, value));
                proof {
                    assert(entry_views(entries@) =~= e.push((key@, value@)));
                    assert(entry_views(entries@).drop_last() =~= e);
                    assert forall|a: int, b: int|
                        0 <= a < b < entry_views(entries@).len() implies entry_views(entries@)[a].0
                        != entry_views(entries@)[b].0 by {
                        if b == e.len() {
                            assert(e[a].0 != key@);
                        }
                    }
                }
                self.entries = entries;
                None
            },
        }
    }

    /// A copy with the same entries.
    pub fn duplicate(&self) -> (r: Self)
        ensures
            r@ == self@,
    {
        proof {
            use_type_invariant(self);
        }
        let mut entries: Vec<(String, String)> = Vec::new();
        let mut i: usize = 0;
        while i < self.entries.len()
            invariant
                i <= self.entries@.len(),
                distinct_keys(entry_views(self.entries@)),
                entry_views(entries@) == entry_views(self.entries@).take(i as int),
            decreases self.entries.len() - i,
        {
            let k = self.entries[i].0.clone();
            let v = self.entries[i].1.clone();
            let ghost prev = entries@;
            entries.push((k, v));
            assert(entry_views(entries@) =~= entry_views(prev).push((k@, v@)));
            i = i + 1;
            assert(entry_views(entries@) =~= entry_views(self.entries@).take(i as int));
        }
        assert(entry_views(self.entries@).take(i as int) =~= entry_views(self.entries@));
        Metadata { entries }
    }
}

} // verus!

verus! {

// ---------------------------------------------------------------------------
// Cue order
// ---------------------------------------------------------------------------

/// Cues are ordered by start, then end, then id.
pub open spec fn cue_le(a: CueView, b: CueView) -> bool {
    ||| a.start_ms < b.start_ms
    ||| (a.start_ms == b.start_ms && a.end_ms < b.end_ms)
    ||| (a.start_ms == b.start_ms && a.end_ms == b.end_ms && a.id <= b.id)
}

pub open spec fn sorted_cues(s: Seq<CueView>) -> bool {
    forall|i: int, j: int| 0 <= i < j < s.len() ==> cue_le(#[trigger] s[i], #[trigger] s[j])
}

pub open spec fn cue_views(v: Seq<SubtitleCue>) -> Seq<CueView> {
    v.map_values(|c: SubtitleCue| c@)
}

fn cue_le_exec(a: &SubtitleCue, b: &SubtitleCue) -> (r: bool)
    ensures
        r == cue_le(a@, b@),
{
    a.start_ms < b.start_ms || (a.start_ms == b.start_ms && a.end_ms < b.end_ms) || (a.start_ms
        == b.start_ms && a.end_ms == b.end_ms && a.id <= b.id)
}

proof fn lemma_insert_multiset<A>(s: Seq<A>, pos: int, x: A)
    requires
        0 <= pos <= s.len(),
    ensures
        s.insert(pos, x).to_multiset() == s.to_multiset().insert(x),
{
    broadcast use vstd::seq_lib::group_to_multiset_ensures;

    let t = s.insert(pos, x);
    assert(t.remove(pos) =~= s);
    vstd::seq_lib::to_multiset_remove(t, pos);
    assert(t[pos] == x);
    assert(t.contains(x));
    assert(t.to_multiset().count(x) > 0);
    assert(t.to_multiset() =~= s.to_multiset().insert(x));
}

/// Inserts `cue` into the sorted `cues` after every cue that orders at or
/// before it.
fn insert_sorted(cues: &mut Vec<SubtitleCue>, cue: SubtitleCue) -> (pos: usize)
    requires
        sorted_cues(cue_views(old(cues)@)),
    ensures
        pos <= old(cues)@.len(),
        cue_views(final(cues)@) == cue_views(old(cues)@).insert(pos as int, cue@),
        sorted_cues(cue_views(final(cues)@)),
        cue_views(final(cues)@).to_multiset() == cue_views(old(cues)@).to_multiset().insert(cue@),
{
    let mut pos: usize = 0;
    while pos < cues.len() && cue_le_exec(&cues[pos], &cue)
        invariant
            pos <= cues.len(),
            forall|j: int| 0 <= j < pos ==> cue_le(#[trigger] cues@[j]@, cue@),
        decreases cues.len() - pos,
    {
        pos = pos + 1;
    }
    let ghost before = cue_views(cues@);
    let ghost x = cue@;
    cues.insert(pos, cue);
    proof {
        assert(cue_views(cues@) =~= before.insert(pos as int, x));
        lemma_insert_multiset(before, pos as int, x);
        let after = cue_views(cues@);
        assert forall|i: int, j: int| 0 <= i < j < after.len() implies cue_le(
            #[trigger] after[i],
            #[trigger] after[j],
        ) by {
            if j < pos {
                assert(after[i] == before[i] && after[j] == before[j]);
            } else if j == pos {
                assert(after[i] == before[i]);
                assert(cue_le(cues@[i]@, x));
            } else if i == pos {
                assert(after[j] == before[j - 1]);
                assert(!cue_le(before[pos as int], x));
                assert(pos == j - 1 || cue_le(before[pos as int], before[j - 1]));
            } else if i < pos {
                assert(after[i] == before[i] && after[j] == before[j - 1]);
            } else {
                assert(after[i] == before[i - 1] && after[j] == before[j - 1]);
            }
        }
    }
    pos
}

} // verus!

verus! {

// ---------------------------------------------------------------------------
// Tracks
// ---------------------------------------------------------------------------

pub open spec fn ids_below(s: Seq<CueView>, n: u64) -> bool {
    forall|i: int| 0 <= i < s.len() ==> (#[trigger] s[i]).id < n
}

pub open spec fn distinct_ids(s: Seq<CueView>) -> bool {
    forall|i: int, j: int| 0 <= i < j < s.len() ==> (#[trigger] s[i]).id != (#[trigger] s[j]).id
}

/// `n + 1`, saturating at `u64::MAX`.
pub open spec fn sat_inc(n: u64) -> u64 {
    if n < u64::MAX {
        (n + 1) as u64
    } else {
        u64::MAX
    }
}

/// The index of the first cue with this id.
pub open spec fn index_of_id_from(s: Seq<CueView>, id: u64, i: int) -> Option<int>
    decreases s.len() - i,
{
    if i < 0 || i >= s.len() {
        None
    } else if s[i].id == id {
        Some(i)
    } else {
        index_of_id_from(s, id, i + 1)
    }
}

pub open spec fn index_of_id(s: Seq<CueView>, id: u64) -> Option<int> {
    index_of_id_from(s, id, 0)
}

proof fn lemma_index_of_id(s: Seq<CueView>, id: u64, i: int)
    requires
        0 <= i,
    ensures
        index_of_id_from(s, id, i) matches Some(k) ==> i <= k < s.len() && s[k].id == id && (forall|
            j: int,
        | i <= j < k ==> s[j].id != id),
        index_of_id_from(s, id, i) is None ==> forall|j: int| i <= j < s.len() ==> s[j].id != id,
    decreases s.len() - i,
{
    if i < s.len() && s[i].id != id {
        lemma_index_of_id(s, id, i + 1);
    }
}

/// The cues whose id is not `id`, in order.
pub open spec fn without_id(s: Seq<CueView>, id: u64) -> Seq<CueView>
    decreases s.len(),
{
    if s.len() == 0 {
        seq![]
    } else if s.last().id == id {
        without_id(s.drop_last(), id)
    } else {
        without_id(s.drop_last(), id).push(s.last())
    }
}

proof fn lemma_without_id(s: Seq<CueView>, id: u64)
    ensures
        forall|i: int| 0 <= i < without_id(s, id).len() ==> s.contains(#[trigger] without_id(s, id)[i]) && without_id(s, id)[i].id != id,
        sorted_cues(s) ==> sorted_cues(without_id(s, id)),
        distinct_ids(s) ==> distinct_ids(without_id(s, id)),
        (without_id(s, id).len() == s.len()) <==> (forall|i: int| 0 <= i < s.len() ==> s[i].id != id),
        without_id(s, id).len() <= s.len(),
    decreases s.len(),
{
    if s.len() > 0 {
        let init = s.drop_last();
        lemma_without_id(init, id);
        let w = without_id(s, id);
        let wi = without_id(init, id);
        assert forall|i: int| 0 <= i < w.len() implies s.contains(#[trigger] w[i]) && w[i].id != id by {
            if i < wi.len() {
                assert(w[i] == wi[i]);
                let k = choose|k: int| 0 <= k < init.len() && init[k] == wi[i];
                assert(s[k] == init[k]);
            } else {
                assert(w[i] == s[s.len() - 1]);
            }
        }
        if sorted_cues(s) {
            assert(sorted_cues(init));
            if s.last().id != id {
                assert forall|i: int, j: int| 0 <= i < j < w.len() implies cue_le(
                    #[trigger] w[i],
                    #[trigger] w[j],
                ) by {
                    if j == w.len() - 1 {
                        let k = choose|k: int| 0 <= k < init.len() && init[k] == wi[i];
                        assert(s[k] == init[k]);
                        assert(cue_le(s[k], s[s.len() - 1]));
                    } else {
                        assert(w[i] == wi[i] && w[j] == wi[j]);
                    }
                }
            }
        }
        if distinct_ids(s) {
            assert(distinct_ids(init));
            if s.last().id != id {
                assert forall|i: int, j: int| 0 <= i < j < w.len() implies (#[trigger] w[i]).id
                    != (#[trigger] w[j]).id by {
                    if j == w.len() - 1 {
                        let k = choose|k: int| 0 <= k < init.len() && init[k] == wi[i];
                        assert(s[k] == init[k]);
                        assert(s[k].id != s[s.len() - 1].id);
                    } else {
                        assert(w[i] == wi[i] && w[j] == wi[j]);
                    }
                }
            }
        }
        if w.len() == s.len() {
            assert(s.last().id != id);
            assert forall|i: int| 0 <= i < s.len() implies s[i].id != id by {
                if i < init.len() {
                    assert(s[i] == init[i]);
                }
            }
        }
        if forall|i: int| 0 <= i < s.len() ==> s[i].id != id {
            assert(s[s.len() - 1].id != id);
            assert forall|i: int| 0 <= i < init.len() implies init[i].id != id by {
                assert(s[i] == init[i]);
            }
        }
    }
}

/// The cues of a track with the counter that hands out their ids. The cues
/// are kept ordered by (start, end, id); while ids are still available (the
/// counter has not reached `u64::MAX`) every cue has its own id, below the
/// counter.
#[derive(Debug, PartialEq, Eq)]
pub struct CueList {
    cues: Vec<SubtitleCue>,
    next_id: u64,
}

pub open spec fn cue_list_invariant(s: Seq<CueView>, next_id: u64) -> bool {
    &&& sorted_cues(s)
    &&& next_id >= 1
    &&& next_id < u64::MAX ==> ids_below(s, next_id) && distinct_ids(s)
}

impl View for CueList {
    type V = Seq<CueView>;

    closed spec fn view(&self) -> Seq<CueView> {
        cue_views(self.cues@)
    }
}

impl Clone for CueList {
    fn clone(&self) -> (r: Self)
        ensures
            r@ == self@,
            r.next_id() == self.next_id(),
    {
        self.duplicate()
    }
}

impl CueList {
    #[verifier::type_invariant]
    spec fn well_formed(&self) -> bool {
        cue_list_invariant(cue_views(self.cues@), self.next_id)
    }

    /// The id the next added cue receives.
    pub closed spec fn next_id(&self) -> u64 {
        self.next_id
    }

    pub fn new() -> (r: Self)
        ensures
            r@ == Seq::<CueView>::empty(),
            r.next_id() == 1,
    {
        let r = CueList { cues: Vec::new(), next_id: 1 };
        assert(r@ =~= Seq::<CueView>::empty());
        r
    }

    /// The invariant, for callers that reason about the list.
    pub fn check_invariant(&self)
        ensures
            cue_list_invariant(self@, self.next_id()),
    {
        proof {
            use_type_invariant(self);
        }
    }

    pub fn duplicate(&self) -> (r: Self)
        ensures
            r@ == self@,
            r.next_id() == self.next_id(),
    {
        proof {
            use_type_invariant(self);
        }
        let mut cues: Vec<SubtitleCue> = Vec::new();
        let mut i: usize = 0;
        while i < self.cues.len()
            invariant
                i <= self.cues.len(),
                cue_views(cues@) == cue_views(self.cues@).take(i as int),
            decreases self.cues.len() - i,
        {
            let c = self.cues[i].duplicate();
            let ghost prev = cues@;
            cues.push(c);
            assert(cue_views(cues@) =~= cue_views(prev).push(c@));
            assert(cue_views(cues@) =~= cue_views(self.cues@).take(i + 1));
            i = i + 1;
        }
        assert(cue_views(self.cues@).take(i as int) =~= cue_views(self.cues@));
        CueList { cues, next_id: self.next_id }
    }

    pub fn as_slice(&self) -> (r: &[SubtitleCue])
        ensures
            cue_views(r@) == self@,
    {
        self.cues.as_slice()
    }

    pub fn len(&self) -> (r: usize)
        ensures
            r == self@.len(),
    {
        self.cues.len()
    }

    /// The index of the first cue with this id.
    pub fn position_of(&self, id: u64) -> (r: Option<usize>)
        ensures
            match r {
                Some(k) => index_of_id(self@, id) == Some(k as int) && k < self@.len(),
                None => index_of_id(self@, id) is None,
            },
    {
        let mut i: usize = 0;
        while i < self.cues.len()
            invariant
                i <= self.cues.len(),
                index_of_id(self@, id) == index_of_id_from(self@, id, i as int),
            decreases self.cues.len() - i,
        {
            if self.cues[i].id == id {
                return Some(i);
            }
            i = i + 1;
        }
        None
    }

    pub fn get(&self, k: usize) -> (r: &SubtitleCue)
        requires
            k < self@.len(),
        ensures
            r@ == self@[k as int],
    {
        &self.cues[k]
    }

    /// Gives `cue` a fresh id and inserts it in order.
    pub fn insert_with_new_id(&mut self, cue: SubtitleCue) -> (id: u64)
        ensures
            id == old(self).next_id(),
            final(self).next_id() == sat_inc(old(self).next_id()),
            final(self)@.to_multiset() == old(self)@.to_multiset().insert(CueView { id, ..cue@ }),
            old(self).next_id() < u64::MAX ==> forall|i: int|
                0 <= i < old(self)@.len() ==> (#[trigger] old(self)@[i]).id != id,
    {
        proof {
            use_type_invariant(&*self);
        }
        let mut cues: Vec<SubtitleCue> = Vec::new();
        std::mem::swap(&mut cues, &mut self.cues);
        let id = self.next_id;
        let next_id = self.next_id.saturating_add(1);
        let mut cue = cue;
        cue.id = id;
        let ghost before = cue_views(cues@);
        let ghost x = cue@;
        let pos = insert_sorted(&mut cues, cue);
        proof {
            lemma_insert_multiset(before, pos as int, x);
            let after = cue_views(cues@);
            if next_id < u64::MAX {
                assert forall|i: int| 0 <= i < after.len() implies (#[trigger] after[i]).id
                    < next_id by {
                    if i < pos {
                        assert(after[i] == before[i]);
                    } else if i > pos {
                        assert(after[i] == before[i - 1]);
                    }
                }
                assert forall|i: int, j: int| 0 <= i < j < after.len() implies (
                #[trigger] after[i]).id != (#[trigger] after[j]).id by {
                    if i == pos {
                        assert(after[j] == before[j - 1]);
                    } else if j == pos {
                        assert(after[i] == before[i]);
                    } else {
                        let a = if i < pos {
                            i
                        } else {
                            i - 1
                        };
                        let b = if j < pos {
                            j
                        } else {
                            j - 1
                        };
                        assert(after[i] == before[a] && after[j] == before[b]);
                    }
                }
            }
        }
        *self = CueList { cues, next_id };
        id
    }

    /// Changes the times and text of the cue at index `k` and puts it back
    /// in order.
    pub fn update_at(&mut self, k: usize, start_ms: u64, end_ms: u64, text: &str)
        requires
            k < old(self)@.len(),
        ensures
            final(self)@.to_multiset() == old(self)@.to_multiset().remove(old(self)@[k as int]).insert(
                CueView { start_ms, end_ms, text: text@, ..old(self)@[k as int] },
            ),
            final(self).next_id() == old(self).next_id(),
    {
        proof {
            use_type_invariant(&*self);
        }
        let mut cues: Vec<SubtitleCue> = Vec::new();
        std::mem::swap(&mut cues, &mut self.cues);
        let ghost before = cue_views(cues@);
        let mut cue = cues.remove(k);
        let ghost removed = cue_views(cues@);
        proof {
            assert(removed =~= before.remove(k as int));
            vstd::seq_lib::to_multiset_remove(before, k as int);
            assert forall|i: int, j: int| 0 <= i < j < removed.len() implies cue_le(
                #[trigger] removed[i],
                #[trigger] removed[j],
            ) by {
                let a = if i < k {
                    i
                } else {
                    i + 1
                };
                let b = if j < k {
                    j
                } else {
                    j + 1
                };
                assert(removed[i] == before[a] && removed[j] == before[b]);
            }
        }
        cue.start_ms = start_ms;
        cue.end_ms = end_ms;
        cue.text = text.to_owned();
        let ghost x = cue@;
        let pos = insert_sorted(&mut cues, cue);
        proof {
            lemma_insert_multiset(removed, pos as int, x);
            let after = cue_views(cues@);
            if self.next_id < u64::MAX {
                assert forall|i: int| 0 <= i < after.len() implies (#[trigger] after[i]).id
                    < self.next_id by {
                    if i != pos {
                        let r = if i < pos {
                            i
                        } else {
                            i - 1
                        };
                        let a = if r < k {
                            r
                        } else {
                            r + 1
                        };
                        assert(after[i] == removed[r] && removed[r] == before[a]);
                    }
                }
                assert forall|i: int, j: int| 0 <= i < j < after.len() implies (
                #[trigger] after[i]).id != (#[trigger] after[j]).id by {
                    let ri = if i < pos {
                        i
                    } else {
                        i - 1
                    };
                    let rj = if j < pos {
                        j
                    } else {
                        j - 1
                    };
                    let ai = if ri < k {
                        ri
                    } else {
                        ri + 1
                    };
                    let aj = if rj < k {
                        rj
                    } else {
                        rj + 1
                    };
                    if i == pos {
                        assert(after[j] == removed[rj] && removed[rj] == before[aj]);
                        assert(before[k as int].id != before[aj].id);
                    } else if j == pos {
                        assert(after[i] == removed[ri] && removed[ri] == before[ai]);
                        assert(before[k as int].id != before[ai].id);
                    } else {
                        assert(after[i] == removed[ri] && removed[ri] == before[ai]);
                        assert(after[j] == removed[rj] && removed[rj] == before[aj]);
                    }
                }
            }
        }
        *self = CueList { cues, next_id: self.next_id };
    }

    /// Removes every cue with this id.
    pub fn remove_id(&mut self, id: u64)
        ensures
            final(self)@ == without_id(old(self)@, id),
            final(self).next_id() == old(self).next_id(),
    {
        proof {
            use_type_invariant(&*self);
        }
        let ghost before = self@;
        let mut kept: Vec<SubtitleCue> = Vec::new();
        let mut i: usize = 0;
        while i < self.cues.len()
            invariant
                i <= self.cues.len(),
                before == cue_views(self.cues@),
                cue_views(kept@) == without_id(before.take(i as int), id),
            decreases self.cues.len() - i,
        {
            assert(before.take(i + 1).drop_last() =~= before.take(i as int));
            if self.cues[i].id != id {
                let c = self.cues[i].duplicate();
                let ghost prev = kept@;
                kept.push(c);
                assert(cue_views(kept@) =~= cue_views(prev).push(c@));
            }
            i = i + 1;
        }
        assert(before.take(i as int) =~= before);
        proof {
            lemma_without_id(before, id);
            let after = cue_views(kept@);
            if self.next_id < u64::MAX {
                assert forall|j: int| 0 <= j < after.len() implies (#[trigger] after[j]).id
                    < self.next_id by {
                    assert(before.contains(after[j]));
                }
            }
        }
        *self = CueList { cues: kept, next_id: self.next_id };
    }
}

#[derive(Debug, Clone, PartialEq, Eq)]
pub struct SubtitleTrack {
    pub format: SubtitleFormat,
    pub language: Option<String>,
    pub title: Option<String>,
    pub metadata: Metadata,
    /// The cues, in order, with the counter for their ids.
    pub cue_list: CueList,
}

impl SubtitleTrack {
    pub fn new(format: SubtitleFormat) -> (r: Self)
        ensures
            r.format == format,
            r.language is None,
            r.title is None,
            r.metadata@ == Map::<Seq<char>, Seq<char>>::empty(),
            r.cue_list@ == Seq::<CueView>::empty(),
            r.cue_list.next_id() == 1,
    {
        Self {
            format,
            language: None,
            title: None,
            metadata: Metadata::new(),
            cue_list: CueList::new(),
        }
    }

    pub fn cues(&self) -> (r: &[SubtitleCue])
        ensures
            cue_views(r@) == self.cue_list@,
    {
        self.cue_list.as_slice()
    }

    /// The first cue with this id.
    pub fn cue(&self, id: u64) -> (r: Option<&SubtitleCue>)
        ensures
            match r {
                Some(c) => index_of_id(self.cue_list@, id) matches Some(k) && c@ == self.cue_list@[k],
                None => index_of_id(self.cue_list@, id) is None,
            },
    {
        match self.cue_list.position_of(id) {
            Some(k) => Some(self.cue_list.get(k)),
            None => None,
        }
    }

    /// Adds a cue with a fresh id; the cues stay in order.
    pub fn add_cue(&mut self, start_ms: u64, end_ms: u64, text: &str) -> (id: u64)
        ensures
            id == old(self).cue_list.next_id(),
            final(self).cue_list.next_id() == sat_inc(old(self).cue_list.next_id()),
            final(self).cue_list@.to_multiset() == old(self).cue_list@.to_multiset().insert(
                plain_cue(id, start_ms, end_ms, text@),
            ),
            old(self).cue_list.next_id() < u64::MAX ==> forall|i: int|
                0 <= i < old(self).cue_list@.len() ==> (#[trigger] old(self).cue_list@[i]).id != id,
            final(self).format == old(self).format,
            final(self).language == old(self).language,
            final(self).title == old(self).title,
            final(self).metadata == old(self).metadata,
    {
        let cue = SubtitleCue::new(0, start_ms, end_ms, text);
        self.cue_list.insert_with_new_id(cue)
    }

    /// Changes the times and text of the first cue with this id and puts it
    /// back in order; false when no cue has the id.
    pub fn update_cue(&mut self, id: u64, start_ms: u64, end_ms: u64, text: &str) -> (r: bool)
        ensures
            r == index_of_id(old(self).cue_list@, id) is Some,
            match index_of_id(old(self).cue_list@, id) {
                Some(k) => final(self).cue_list@.to_multiset() == old(
                    self,
                ).cue_list@.to_multiset().remove(old(self).cue_list@[k]).insert(
                    CueView { start_ms, end_ms, text: text@, ..old(self).cue_list@[k] },
                ),
                None => final(self).cue_list@ == old(self).cue_list@,
            },
            final(self).cue_list.next_id() == old(self).cue_list.next_id(),
            final(self).format == old(self).format,
            final(self).language == old(self).language,
            final(self).title == old(self).title,
            final(self).metadata == old(self).metadata,
    {
        match self.cue_list.position_of(id) {
            Some(k) => {
                self.cue_list.update_at(k, start_ms, end_ms, text);
                true
            },
            None => false,
        }
    }

    /// Removes every cue with this id; true when one was there.
    pub fn remove_cue(&mut self, id: u64) -> (r: bool)
        ensures
            final(self).cue_list@ == without_id(old(self).cue_list@, id),
            r == exists|i: int|
                0 <= i < old(self).cue_list@.len() && (#[trigger] old(self).cue_list@[i]).id == id,
            final(self).cue_list.next_id() == old(self).cue_list.next_id(),
            final(self).format == old(self).format,
            final(self).language == old(self).language,
            final(self).title == old(self).title,
            final(self).metadata == old(self).metadata,
    {
        let before = self.cue_list.len();
        self.cue_list.remove_id(id);
        proof {
            lemma_without_id(old(self).cue_list@, id);
        }
        self.cue_list.len() != before
    }
}

} // verus!

verus! {

// ---------------------------------------------------------------------------
// Diagnostics
// ---------------------------------------------------------------------------

#[derive(Debug, Clone, Copy, PartialEq, Eq, Structural)]
pub enum SubtitleDiagnostic {
    InvalidDuration { cue_id: u64 },
    OutsideMedia { cue_id: u64, media_duration_ms: u64 },
    EmptyText { cue_id: u64 },
    Overlap { first_cue_id: u64, second_cue_id: u64 },
}

/// Overlaps of cue `i` with the cues before index `k`.
pub open spec fn overlaps_before(s: Seq<CueView>, i: int, k: int) -> Seq<SubtitleDiagnostic>
    decreases k,
{
    if k <= 0 {
        seq![]
    } else {
        overlaps_before(s, i, k - 1) + if s[i].start_ms < s[k - 1].end_ms {
            seq![SubtitleDiagnostic::Overlap { first_cue_id: s[k - 1].id, second_cue_id: s[i].id }]
        } else {
            seq![]
        }
    }
}

/// The checks of the cue at index `i` that do not involve other cues.
pub open spec fn own_diagnostics(c: CueView, media_duration_ms: u64) -> Seq<SubtitleDiagnostic> {
    (if c.start_ms >= c.end_ms {
        seq![SubtitleDiagnostic::InvalidDuration { cue_id: c.id }]
    } else {
        seq![]
    }) + (if c.end_ms > media_duration_ms {
        seq![SubtitleDiagnostic::OutsideMedia { cue_id: c.id, media_duration_ms }]
    } else {
        seq![]
    }) + (if is_blank(c.text) {
        seq![SubtitleDiagnostic::EmptyText { cue_id: c.id }]
    } else {
        seq![]
    })
}

/// Every problem of the first `n` cues, cue by cue: invalid duration, end
/// past the media, blank text, then each earlier cue it overlaps.
pub open spec fn diagnostics_upto(s: Seq<CueView>, n: int, media_duration_ms: u64) -> Seq<SubtitleDiagnostic>
    decreases n,
{
    if n <= 0 {
        seq![]
    } else {
        diagnostics_upto(s, n - 1, media_duration_ms) + own_diagnostics(s[n - 1], media_duration_ms)
            + overlaps_before(s, n - 1, n - 1)
    }
}

// ---------------------------------------------------------------------------
// Retiming
// ---------------------------------------------------------------------------

pub open spec fn max_u64(a: u64, b: u64) -> u64 {
    if a >= b {
        a
    } else {
        b
    }
}

pub open spec fn min_u64(a: u64, b: u64) -> u64 {
    if a <= b {
        a
    } else {
        b
    }
}

/// The part of cue `c` inside range `r`, moved to start at output time
/// `offset` where `r` starts; none when they do not intersect.
pub open spec fn retime_piece(c: CueView, r: ClipRange, offset: u64) -> Option<CueView> {
    let s = max_u64(c.start_ms, r.start_ms);
    let e = min_u64(c.end_ms, r.end_ms);
    if s >= e {
        None
    } else {
        Some(
            CueView {
                start_ms: (offset + s - r.start_ms) as u64,
                end_ms: (offset + e - r.start_ms) as u64,
                ..c
            },
        )
    }
}

/// The output time `offset + end` of the intersection fits in a `u64`.
pub open spec fn piece_fits(c: CueView, r: ClipRange, offset: u64) -> bool {
    max_u64(c.start_ms, r.start_ms) < min_u64(c.end_ms, r.end_ms) ==> offset + min_u64(
        c.end_ms,
        r.end_ms,
    ) <= u64::MAX
}

/// Where range `k` starts in the joined output: the durations of the ranges
/// before it, summed with saturation.
pub open spec fn range_offset(ranges: Seq<ClipRange>, k: int) -> u64
    decreases k,
{
    if k <= 0 {
        0
    } else {
        let prev = range_offset(ranges, k - 1);
        let d = monus(ranges[k - 1].end_ms, ranges[k - 1].start_ms);
        if prev + d > u64::MAX {
            u64::MAX
        } else {
            (prev + d) as u64
        }
    }
}

pub open spec fn option_seq(o: Option<CueView>) -> Seq<CueView> {
    match o {
        Some(c) => seq![c],
        None => seq![],
    }
}

/// The pieces that the first `n` cues contribute inside range `r`.
pub open spec fn pieces_in_range(cues: Seq<CueView>, r: ClipRange, offset: u64, n: int) -> Seq<CueView>
    decreases n,
{
    if n <= 0 {
        seq![]
    } else {
        pieces_in_range(cues, r, offset, n - 1) + option_seq(retime_piece(cues[n - 1], r, offset))
    }
}

/// The retimed pieces of all cues for the first `k` ranges, range by range.
pub open spec fn retimed_pieces(cues: Seq<CueView>, ranges: Seq<ClipRange>, k: int) -> Seq<CueView>
    decreases k,
{
    if k <= 0 {
        seq![]
    } else {
        retimed_pieces(cues, ranges, k - 1) + pieces_in_range(
            cues,
            ranges[k - 1],
            range_offset(ranges, k - 1),
            cues.len() as int,
        )
    }
}

pub open spec fn retime_fits(cues: Seq<CueView>, ranges: Seq<ClipRange>) -> bool {
    forall|k: int, i: int|
        0 <= k < ranges.len() && 0 <= i < cues.len() ==> piece_fits(
            #[trigger] cues[i],
            #[trigger] ranges[k],
            range_offset(ranges, k),
        )
}

/// The id handed out `i` allocations after `base`.
pub open spec fn id_at(base: u64, i: int) -> u64 {
    if base + i > u64::MAX {
        u64::MAX
    } else {
        (base + i) as u64
    }
}

/// The cues numbered in order from `base`.
pub open spec fn renumber(s: Seq<CueView>, base: u64) -> Seq<CueView> {
    Seq::new(s.len(), |i: int| CueView { id: id_at(base, i), ..s[i] })
}

proof fn lemma_renumber_push(s: Seq<CueView>, base: u64, c: CueView)
    ensures
        renumber(s.push(c), base) == renumber(s, base).push(CueView { id: id_at(base, s.len() as int), ..c }),
{
    assert(renumber(s.push(c), base) =~= renumber(s, base).push(
        CueView { id: id_at(base, s.len() as int), ..c },
    ));
}

impl SubtitleTrack {
    /// Every problem found in the cues, in cue order.
    pub fn diagnostics(&self, media_duration_ms: u64) -> (r: Vec<SubtitleDiagnostic>)
        ensures
            r@ == diagnostics_upto(self.cue_list@, self.cue_list@.len() as int, media_duration_ms),
    {
        let cues = self.cues();
        let ghost s = self.cue_list@;
        let mut out: Vec<SubtitleDiagnostic> = Vec::new();
        let mut i: usize = 0;
        while i < cues.len()
            invariant
                s == cue_views(cues@),
                i <= cues.len(),
                out@ == diagnostics_upto(s, i as int, media_duration_ms),
            decreases cues.len() - i,
        {
            let cue = &cues[i];
            let ghost base = out@;
            if cue.start_ms >= cue.end_ms {
                out.push(SubtitleDiagnostic::InvalidDuration { cue_id: cue.id });
            }
            if cue.end_ms > media_duration_ms {
                out.push(SubtitleDiagnostic::OutsideMedia { cue_id: cue.id, media_duration_ms });
            }
            if blank(&chars_of(cue.text.as_str())) {
                out.push(SubtitleDiagnostic::EmptyText { cue_id: cue.id });
            }
            assert(out@ =~= base + own_diagnostics(s[i as int], media_duration_ms));
            let mut j: usize = 0;
            while j < i
                invariant
                    s == cue_views(cues@),
                    i < cues.len(),
                    j <= i,
                    out@ == base + own_diagnostics(s[i as int], media_duration_ms) + overlaps_before(
                        s,
                        i as int,
                        j as int,
                    ),
                decreases i - j,
            {
                let previous = &cues[j];
                if cues[i].start_ms < previous.end_ms {
                    out.push(
                        SubtitleDiagnostic::Overlap {
                            first_cue_id: previous.id,
                            second_cue_id: cues[i].id,
                        },
                    );
                }
                j = j + 1;
                assert(out@ =~= base + own_diagnostics(s[i as int], media_duration_ms) + overlaps_before(
                    s,
                    i as int,
                    j as int,
                ));
            }
            i = i + 1;
        }
        out
    }

    /// The subtitle timeline for joined source ranges: cues crossing a cut
    /// are clipped to it, then shifted to the corresponding output time; the
    /// pieces are numbered from 1 in the order the ranges and cues come.
    pub fn retimed_for_ranges(&self, ranges: &[ClipRange]) -> (r: Self)
        requires
            retime_fits(self.cue_list@, ranges@),
        ensures
            r.format == self.format,
            opt_view(r.language) == opt_view(self.language),
            opt_view(r.title) == opt_view(self.title),
            r.metadata@ == self.metadata@,
            r.cue_list@.to_multiset() == renumber(
                retimed_pieces(self.cue_list@, ranges@, ranges@.len() as int),
                1,
            ).to_multiset(),
            r.cue_list.next_id() == id_at(
                1,
                retimed_pieces(self.cue_list@, ranges@, ranges@.len() as int).len() as int,
            ),
    {
        let mut output = Self::new(self.format);
        output.language = copy_opt_string(&self.language);
        output.title = copy_opt_string(&self.title);
        output.metadata = self.metadata.duplicate();
        let cues = self.cues();
        let ghost s = self.cue_list@;
        let mut output_offset: u64 = 0;
        let mut k: usize = 0;
        proof {
            assert(output.cue_list@.to_multiset() =~= renumber(seq![], 1).to_multiset()) by {
                broadcast use vstd::seq_lib::group_to_multiset_ensures;

                assert(renumber(seq![], 1) =~= seq![]);
            }
        }
        while k < ranges.len()
            invariant
                s == cue_views(cues@),
                k <= ranges.len(),
                retime_fits(s, ranges@),
                output_offset == range_offset(ranges@, k as int),
                output.format == self.format,
                opt_view(output.language) == opt_view(self.language),
                opt_view(output.title) == opt_view(self.title),
                output.metadata@ == self.metadata@,
                output.cue_list@.to_multiset() == renumber(retimed_pieces(s, ranges@, k as int), 1).to_multiset(),
                output.cue_list.next_id() == id_at(1, retimed_pieces(s, ranges@, k as int).len() as int),
            decreases ranges.len() - k,
        {
            let range = ranges[k];
            let ghost done = retimed_pieces(s, ranges@, k as int);
            let mut i: usize = 0;
            while i < cues.len()
                invariant
                    s == cue_views(cues@),
                    k < ranges.len(),
                    range == ranges@[k as int],
                    i <= cues.len(),
                    retime_fits(s, ranges@),
                    output_offset == range_offset(ranges@, k as int),
                    done == retimed_pieces(s, ranges@, k as int),
                    output.format == self.format,
                    opt_view(output.language) == opt_view(self.language),
                    opt_view(output.title) == opt_view(self.title),
                    output.metadata@ == self.metadata@,
                    output.cue_list@.to_multiset() == renumber(
                        done + pieces_in_range(s, range, output_offset, i as int),
                        1,
                    ).to_multiset(),
                    output.cue_list.next_id() == id_at(
                        1,
                        (done + pieces_in_range(s, range, output_offset, i as int)).len() as int,
                    ),
                decreases cues.len() - i,
            {
                let cue = &cues[i];
                let ghost sofar = done + pieces_in_range(s, range, output_offset, i as int);
                let intersection_start = if cue.start_ms >= range.start_ms {
                    cue.start_ms
                } else {
                    range.start_ms
                };
                let intersection_end = if cue.end_ms <= range.end_ms {
                    cue.end_ms
                } else {
                    range.end_ms
                };
                assert(s[i as int] == cue@);
                if intersection_start < intersection_end {
                    assert(piece_fits(s[i as int], ranges@[k as int], range_offset(ranges@, k as int)));
                    let mut retimed = cue.duplicate();
                    retimed.start_ms = output_offset + intersection_start - range.start_ms;
                    retimed.end_ms = output_offset + intersection_end - range.start_ms;
                    let ghost p = retimed@;
                    assert(retime_piece(s[i as int], range, output_offset) == Some(p));
                    let id = output.cue_list.insert_with_new_id(retimed);
                    proof {
                        broadcast use vstd::seq_lib::group_to_multiset_ensures;

                        lemma_renumber_push(sofar, 1, p);
                        assert(sofar + option_seq(Some(p)) =~= sofar.push(p));
                        assert(done + pieces_in_range(s, range, output_offset, i + 1) =~= sofar.push(p));
                    }
                } else {
                    assert(retime_piece(s[i as int], range, output_offset) is None);
                    assert(done + pieces_in_range(s, range, output_offset, i + 1) =~= sofar);
                }
                i = i + 1;
            }
            assert(done + pieces_in_range(s, range, output_offset, cues.len() as int)
                == retimed_pieces(s, ranges@, k + 1));
            output_offset = output_offset.saturating_add(range.duration_ms());
            k = k + 1;
        }
        output
    }
}

// ---------------------------------------------------------------------------
// Laws
// ---------------------------------------------------------------------------

proof fn lemma_drop_first_multiset<A>(s: Seq<A>)
    requires
        s.len() > 0,
    ensures
        s.drop_first().to_multiset() == s.to_multiset().remove(s[0]),
{
    assert(s.remove(0) =~= s.drop_first());
    vstd::seq_lib::to_multiset_remove(s, 0);
}

/// Two cue lists that are both ordered, hold the same cues, and give every
/// cue its own id are the same list: an ordered list of cues is determined
/// by which cues it holds.
pub proof fn law_ordered_cues_are_determined(s1: Seq<CueView>, s2: Seq<CueView>)
    requires
        sorted_cues(s1),
        sorted_cues(s2),
        distinct_ids(s1),
        s1.to_multiset() == s2.to_multiset(),
    ensures
        s1 == s2,
    decreases s1.len(),
{
    broadcast use vstd::seq_lib::group_to_multiset_ensures;

    if s1.len() == 0 {
        assert(s2.to_multiset().len() == 0);
        assert(s2 =~= s1);
    } else {
        assert(s1.len() == s1.to_multiset().len());
        assert(s2.len() == s2.to_multiset().len());
        assert(s2.len() == s1.len());
        let x = s1[0];
        let y = s2[0];
        assert(s1.to_multiset().count(x) > 0);
        assert(s2.contains(x));
        let j2 = choose|j: int| 0 <= j < s2.len() && s2[j] == x;
        assert(j2 == 0 || cue_le(s2[0], s2[j2]));
        assert(s2.to_multiset().count(y) > 0);
        assert(s1.contains(y));
        let j1 = choose|j: int| 0 <= j < s1.len() && s1[j] == y;
        assert(j1 == 0 || cue_le(s1[0], s1[j1]));
        assert(x.id == y.id);
        if j1 != 0 {
            assert(s1[0].id != s1[j1].id);
        }
        assert(x == y);
        lemma_drop_first_multiset(s1);
        lemma_drop_first_multiset(s2);
        let t1 = s1.drop_first();
        let t2 = s2.drop_first();
        assert(sorted_cues(t1)) by {
            assert forall|i: int, j: int| 0 <= i < j < t1.len() implies cue_le(
                #[trigger] t1[i],
                #[trigger] t1[j],
            ) by {
                assert(t1[i] == s1[i + 1] && t1[j] == s1[j + 1]);
            }
        }
        assert(sorted_cues(t2)) by {
            assert forall|i: int, j: int| 0 <= i < j < t2.len() implies cue_le(
                #[trigger] t2[i],
                #[trigger] t2[j],
            ) by {
                assert(t2[i] == s2[i + 1] && t2[j] == s2[j + 1]);
            }
        }
        assert(distinct_ids(t1)) by {
            assert forall|i: int, j: int| 0 <= i < j < t1.len() implies (#[trigger] t1[i]).id
                != (#[trigger] t1[j]).id by {
                assert(t1[i] == s1[i + 1] && t1[j] == s1[j + 1]);
            }
        }
        law_ordered_cues_are_determined(t1, t2);
        assert(s1 =~= s2) by {
            assert forall|i: int| 0 <= i < s1.len() implies s1[i] == s2[i] by {
                if i > 0 {
                    assert(s1[i] == t1[i - 1] && s2[i] == t2[i - 1]);
                }
            }
        }
    }
}

/// After a cue with a fresh id is added, looking its id up finds exactly
/// that cue.
pub proof fn law_added_cue_is_found(before: Seq<CueView>, after: Seq<CueView>, c: CueView)
    requires
        after.to_multiset() == before.to_multiset().insert(c),
        forall|i: int| 0 <= i < before.len() ==> (#[trigger] before[i]).id != c.id,
    ensures
        index_of_id(after, c.id) matches Some(k) && after[k] == c,
{
    broadcast use vstd::seq_lib::group_to_multiset_ensures;

    assert(after.to_multiset().count(c) > 0);
    assert(after.contains(c));
    let j = choose|j: int| 0 <= j < after.len() && after[j] == c;
    lemma_index_of_id(after, c.id, 0);
    match index_of_id(after, c.id) {
        Some(k) => {
            let d = after[k];
            assert(after.to_multiset().count(d) > 0);
            if d != c {
                assert(before.to_multiset().count(d) > 0);
                assert(before.contains(d));
                let m = choose|m: int| 0 <= m < before.len() && before[m] == d;
                assert(before[m].id != c.id);
            }
        },
        None => {
            assert(after[j].id == c.id);
        },
    }
}

proof fn lemma_id_found(s: Seq<CueView>, id: u64)
    ensures
        index_of_id(s, id) is Some <==> exists|j: int| 0 <= j < s.len() && (#[trigger] s[j]).id == id,
{
    lemma_index_of_id(s, id, 0);
}

/// Changing a cue's times and text keeps every id: an id is found after
/// the change exactly when it was found before.
pub proof fn law_update_keeps_ids(
    before: Seq<CueView>,
    after: Seq<CueView>,
    k: int,
    start_ms: u64,
    end_ms: u64,
    text: Seq<char>,
    id: u64,
)
    requires
        0 <= k < before.len(),
        after.to_multiset() == before.to_multiset().remove(before[k]).insert(
            CueView { start_ms, end_ms, text, ..before[k] },
        ),
    ensures
        index_of_id(after, id) is Some <==> index_of_id(before, id) is Some,
{
    broadcast use vstd::seq_lib::group_to_multiset_ensures;

    let c = CueView { start_ms, end_ms, text, ..before[k] };
    lemma_id_found(before, id);
    lemma_id_found(after, id);
    if index_of_id(before, id) is Some {
        let j = choose|j: int| 0 <= j < before.len() && (#[trigger] before[j]).id == id;
        let x = before[j];
        if x == before[k] {
            assert(after.to_multiset().count(c) > 0);
            assert(after.contains(c));
            let m = choose|m: int| 0 <= m < after.len() && after[m] == c;
            assert(after[m].id == id);
        } else {
            assert(before.to_multiset().count(x) > 0);
            assert(after.to_multiset().count(x) > 0);
            assert(after.contains(x));
            let m = choose|m: int| 0 <= m < after.len() && after[m] == x;
            assert(after[m].id == id);
        }
    }
    if index_of_id(after, id) is Some {
        let j = choose|j: int| 0 <= j < after.len() && (#[trigger] after[j]).id == id;
        let y = after[j];
        if y == c {
            assert(before[k].id == id);
        } else {
            assert(after.to_multiset().count(y) > 0);
            assert(before.to_multiset().count(y) > 0);
            assert(before.contains(y));
            let m = choose|m: int| 0 <= m < before.len() && before[m] == y;
            assert(before[m].id == id);
        }
    }
}

/// After every cue with an id is removed, looking the id up finds nothing,
/// and the remaining cues are still in order.
pub proof fn law_removed_id_is_gone(s: Seq<CueView>, id: u64)
    ensures
        index_of_id(without_id(s, id), id) is None,
        sorted_cues(s) ==> sorted_cues(without_id(s, id)),
{
    lemma_without_id(s, id);
    lemma_index_of_id(without_id(s, id), id, 0);
}

/// A piece of a retimed cue never has zero length, starts no earlier than
/// its range does in the output and ends no later than the range's end there.
pub proof fn law_retimed_piece_stays_in_range(c: CueView, r: ClipRange, offset: u64)
    requires
        piece_fits(c, r, offset),
    ensures
        retime_piece(c, r, offset) matches Some(p) ==> {
            &&& p.start_ms < p.end_ms
            &&& offset <= p.start_ms
            &&& p.end_ms <= offset + monus(r.end_ms, r.start_ms)
            &&& p.end_ms - p.start_ms <= c.end_ms - c.start_ms
        },
{
}

/// A track whose cues all have a positive duration within the media, some
/// visible text, and start no earlier than every earlier cue ends, has no
/// diagnostics.
pub proof fn law_clean_cues_have_no_diagnostics(s: Seq<CueView>, n: int, media_duration_ms: u64)
    requires
        0 <= n <= s.len(),
        forall|i: int|
            0 <= i < n ==> (#[trigger] s[i]).start_ms < s[i].end_ms && s[i].end_ms <= media_duration_ms
                && !is_blank(s[i].text),
        forall|i: int, j: int| 0 <= j < i < n ==> (#[trigger] s[i]).start_ms >= (#[trigger] s[j]).end_ms,
    ensures
        diagnostics_upto(s, n, media_duration_ms) == Seq::<SubtitleDiagnostic>::empty(),
    decreases n,
{
    if n > 0 {
        law_clean_cues_have_no_diagnostics(s, n - 1, media_duration_ms);
        lemma_no_overlaps(s, n - 1, n - 1);
        assert(own_diagnostics(s[n - 1], media_duration_ms) =~= seq![]);
        assert(diagnostics_upto(s, n, media_duration_ms) =~= seq![]);
    }
}

proof fn lemma_no_overlaps(s: Seq<CueView>, i: int, k: int)
    requires
        0 <= k <= i < s.len(),
        forall|j: int| 0 <= j < k ==> s[i].start_ms >= (#[trigger] s[j]).end_ms,
    ensures
        overlaps_before(s, i, k) == Seq::<SubtitleDiagnostic>::empty(),
    decreases k,
{
    if k > 0 {
        lemma_no_overlaps(s, i, k - 1);
        assert(overlaps_before(s, i, k) =~= seq![]);
    }
}

proof fn lemma_concat_contains<A>(a: Seq<A>, b: Seq<A>, x: A)
    ensures
        (a + b).contains(x) <==> a.contains(x) || b.contains(x),
{
    if (a + b).contains(x) {
        let k = choose|k: int| 0 <= k < (a + b).len() && (a + b)[k] == x;
        if k < a.len() {
            assert(a[k] == x);
        } else {
            assert(b[k - a.len()] == x);
        }
    }
    if a.contains(x) {
        let k = choose|k: int| 0 <= k < a.len() && a[k] == x;
        assert((a + b)[k] == x);
    }
    if b.contains(x) {
        let k = choose|k: int| 0 <= k < b.len() && b[k] == x;
        assert((a + b)[k + a.len()] == x);
    }
}

/// Whether the checks of the first `n` cues report `d`: a cue among them
/// whose own problem `d` is, or two of them that overlap, the later one
/// starting before the earlier one ends.
pub open spec fn reported(s: Seq<CueView>, n: int, m: u64, d: SubtitleDiagnostic) -> bool {
    match d {
        SubtitleDiagnostic::InvalidDuration { cue_id } => exists|i: int|
            0 <= i < n && (#[trigger] s[i]).id == cue_id && s[i].start_ms >= s[i].end_ms,
        SubtitleDiagnostic::OutsideMedia { cue_id, media_duration_ms } => media_duration_ms == m
            && exists|i: int| 0 <= i < n && (#[trigger] s[i]).id == cue_id && s[i].end_ms > m,
        SubtitleDiagnostic::EmptyText { cue_id } => exists|i: int|
            0 <= i < n && (#[trigger] s[i]).id == cue_id && is_blank(s[i].text),
        SubtitleDiagnostic::Overlap { first_cue_id, second_cue_id } => exists|j: int, i: int|
            0 <= j < i < n && (#[trigger] s[j]).id == first_cue_id && (#[trigger] s[i]).id
                == second_cue_id && s[i].start_ms < s[j].end_ms,
    }
}

proof fn lemma_overlaps_before_contains(s: Seq<CueView>, i: int, k: int, d: SubtitleDiagnostic)
    requires
        0 <= k <= i < s.len(),
    ensures
        overlaps_before(s, i, k).contains(d) <==> d is Overlap && exists|j: int|
            0 <= j < k && (#[trigger] s[j]).id == d->first_cue_id && s[i].id == d->second_cue_id
                && s[i].start_ms < s[j].end_ms,
    decreases k,
{
    if k > 0 {
        lemma_overlaps_before_contains(s, i, k - 1, d);
        let o = SubtitleDiagnostic::Overlap { first_cue_id: s[k - 1].id, second_cue_id: s[i].id };
        let tail = if s[i].start_ms < s[k - 1].end_ms {
            seq![o]
        } else {
            seq![]
        };
        lemma_concat_contains(overlaps_before(s, i, k - 1), tail, d);
        if tail.contains(d) {
            assert(tail[0] == d);
        }
        if d is Overlap && s[i].id == d->second_cue_id && s[i].start_ms < s[k - 1].end_ms
            && s[k - 1].id == d->first_cue_id {
            assert(tail[0] == d);
        }
    } else {
        assert(overlaps_before(s, i, k) =~= seq![]);
    }
}

proof fn lemma_diagnostics_upto_contains(s: Seq<CueView>, n: int, m: u64, d: SubtitleDiagnostic)
    requires
        0 <= n <= s.len(),
    ensures
        diagnostics_upto(s, n, m).contains(d) <==> reported(s, n, m, d),
    decreases n,
{
    if n > 0 {
        lemma_diagnostics_upto_contains(s, n - 1, m, d);
        let c = s[n - 1];
        let a = if c.start_ms >= c.end_ms {
            seq![SubtitleDiagnostic::InvalidDuration { cue_id: c.id }]
        } else {
            seq![]
        };
        let b = if c.end_ms > m {
            seq![SubtitleDiagnostic::OutsideMedia { cue_id: c.id, media_duration_ms: m }]
        } else {
            seq![]
        };
        let e = if is_blank(c.text) {
            seq![SubtitleDiagnostic::EmptyText { cue_id: c.id }]
        } else {
            seq![]
        };
        let before = diagnostics_upto(s, n - 1, m);
        let ov = overlaps_before(s, n - 1, n - 1);
        assert(own_diagnostics(c, m) == a + b + e);
        lemma_concat_contains(a, b, d);
        lemma_concat_contains(a + b, e, d);
        lemma_concat_contains(before, a + b + e, d);
        lemma_concat_contains(before + (a + b + e), ov, d);
        lemma_overlaps_before_contains(s, n - 1, n - 1, d);
        if a.contains(d) {
            assert(a[0] == d);
        }
        if b.contains(d) {
            assert(b[0] == d);
        }
        if e.contains(d) {
            assert(e[0] == d);
        }
        match d {
            SubtitleDiagnostic::InvalidDuration { cue_id } => {
                if reported(s, n, m, d) && !reported(s, n - 1, m, d) {
                    let i = choose|i: int|
                        0 <= i < n && (#[trigger] s[i]).id == cue_id && s[i].start_ms >= s[i].end_ms;
                    assert(i == n - 1);
                    assert(a[0] == d);
                }
            },
            SubtitleDiagnostic::OutsideMedia { cue_id, media_duration_ms } => {
                if reported(s, n, m, d) && !reported(s, n - 1, m, d) {
                    let i = choose|i: int| 0 <= i < n && (#[trigger] s[i]).id == cue_id && s[i].end_ms > m;
                    assert(i == n - 1);
                    assert(b[0] == d);
                }
            },
            SubtitleDiagnostic::EmptyText { cue_id } => {
                if reported(s, n, m, d) && !reported(s, n - 1, m, d) {
                    let i = choose|i: int| 0 <= i < n && (#[trigger] s[i]).id == cue_id && is_blank(s[i].text);
                    assert(i == n - 1);
                    assert(e[0] == d);
                }
            },
            SubtitleDiagnostic::Overlap { first_cue_id, second_cue_id } => {
                if reported(s, n, m, d) && !reported(s, n - 1, m, d) {
                    let (j, i) = choose|j: int, i: int|
                        0 <= j < i < n && (#[trigger] s[j]).id == first_cue_id && (#[trigger] s[i]).id
                            == second_cue_id && s[i].start_ms < s[j].end_ms;
                    assert(i == n - 1);
                    assert(s[j].id == d->first_cue_id);
                }
                if ov.contains(d) {
                    let j = choose|j: int|
                        0 <= j < n - 1 && (#[trigger] s[j]).id == d->first_cue_id && s[n - 1].id
                            == d->second_cue_id && s[n - 1].start_ms < s[j].end_ms;
                    assert(s[n - 1].id == second_cue_id);
                }
            },
        }
    } else {
        assert(diagnostics_upto(s, n, m) =~= seq![]);
    }
}

/// The diagnostics of a track name exactly its problems: a cue whose end
/// does not come after its start, a cue ending past the media, a cue with
/// no visible text, and each pair of cues where the later one starts
/// before the earlier one ends — and nothing else.
pub proof fn law_diagnostics_membership(s: Seq<CueView>, media_duration_ms: u64, d: SubtitleDiagnostic)
    ensures
        diagnostics_upto(s, s.len() as int, media_duration_ms).contains(d) <==> reported(
            s,
            s.len() as int,
            media_duration_ms,
            d,
        ),
{
    lemma_diagnostics_upto_contains(s, s.len() as int, media_duration_ms, d);
}

/// Where every cue has its own id (as in a track whose id counter has not
/// run out), the diagnostics name each cue's problems by its id: an end
/// that does not come after the start, an end past the media, no visible
/// text, and, for two cues, an overlap exactly when the later one starts
/// before the earlier one ends.
pub proof fn law_diagnostics_per_cue(s: Seq<CueView>, m: u64)
    requires
        distinct_ids(s),
    ensures
        forall|i: int|
            #![trigger s[i]]
            0 <= i < s.len() ==> {
                &&& diagnostics_upto(s, s.len() as int, m).contains(
                    SubtitleDiagnostic::InvalidDuration { cue_id: s[i].id },
                ) <==> s[i].start_ms >= s[i].end_ms
                &&& diagnostics_upto(s, s.len() as int, m).contains(
                    SubtitleDiagnostic::OutsideMedia { cue_id: s[i].id, media_duration_ms: m },
                ) <==> s[i].end_ms > m
                &&& diagnostics_upto(s, s.len() as int, m).contains(
                    SubtitleDiagnostic::EmptyText { cue_id: s[i].id },
                ) <==> is_blank(s[i].text)
            },
        forall|i: int, j: int|
            #![trigger s[i], s[j]]
            0 <= i < s.len() && 0 <= j < s.len() ==> (diagnostics_upto(s, s.len() as int, m).contains(
                SubtitleDiagnostic::Overlap { first_cue_id: s[i].id, second_cue_id: s[j].id },
            ) <==> i < j && s[j].start_ms < s[i].end_ms),
{
    let n = s.len() as int;
    assert forall|i: int| #![trigger s[i]] 0 <= i < s.len() implies {
        &&& diagnostics_upto(s, n, m).contains(SubtitleDiagnostic::InvalidDuration { cue_id: s[i].id })
            <==> s[i].start_ms >= s[i].end_ms
        &&& diagnostics_upto(s, n, m).contains(
            SubtitleDiagnostic::OutsideMedia { cue_id: s[i].id, media_duration_ms: m },
        ) <==> s[i].end_ms > m
        &&& diagnostics_upto(s, n, m).contains(SubtitleDiagnostic::EmptyText { cue_id: s[i].id })
            <==> is_blank(s[i].text)
    } by {
        let d1 = SubtitleDiagnostic::InvalidDuration { cue_id: s[i].id };
        let d2 = SubtitleDiagnostic::OutsideMedia { cue_id: s[i].id, media_duration_ms: m };
        let d3 = SubtitleDiagnostic::EmptyText { cue_id: s[i].id };
        lemma_diagnostics_upto_contains(s, n, m, d1);
        lemma_diagnostics_upto_contains(s, n, m, d2);
        lemma_diagnostics_upto_contains(s, n, m, d3);
        if reported(s, n, m, d1) {
            let k = choose|k: int| 0 <= k < n && (#[trigger] s[k]).id == s[i].id && s[k].start_ms >= s[k].end_ms;
            assert(k == i);
        }
        if reported(s, n, m, d2) {
            let k = choose|k: int| 0 <= k < n && (#[trigger] s[k]).id == s[i].id && s[k].end_ms > m;
            assert(k == i);
        }
        if reported(s, n, m, d3) {
            let k = choose|k: int| 0 <= k < n && (#[trigger] s[k]).id == s[i].id && is_blank(s[k].text);
            assert(k == i);
        }
    }
    assert forall|i: int, j: int| #![trigger s[i], s[j]] 0 <= i < s.len() && 0 <= j < s.len() implies (
    diagnostics_upto(s, n, m).contains(
        SubtitleDiagnostic::Overlap { first_cue_id: s[i].id, second_cue_id: s[j].id },
    ) <==> i < j && s[j].start_ms < s[i].end_ms) by {
        let d = SubtitleDiagnostic::Overlap { first_cue_id: s[i].id, second_cue_id: s[j].id };
        lemma_diagnostics_upto_contains(s, n, m, d);
        if reported(s, n, m, d) {
            let (a, b) = choose|a: int, b: int|
                0 <= a < b < n && (#[trigger] s[a]).id == s[i].id && (#[trigger] s[b]).id == s[j].id
                    && s[b].start_ms < s[a].end_ms;
            assert(a == i);
            assert(b == j);
        }
    }
}

/// `p` is a piece of one of `cues`: that cue with other times, lasting a
/// positive time that ends by `bound`.
pub open spec fn piece_of(p: CueView, cues: Seq<CueView>, bound: int) -> bool {
    &&& p.start_ms < p.end_ms
    &&& p.end_ms <= bound
    &&& exists|i: int|
        #![trigger cues[i]]
        0 <= i < cues.len() && p == (CueView { start_ms: p.start_ms, end_ms: p.end_ms, ..cues[i] })
}

proof fn lemma_range_offset_monotone(ranges: Seq<ClipRange>, a: int, b: int)
    requires
        0 <= a <= b,
    ensures
        range_offset(ranges, a) <= range_offset(ranges, b),
    decreases b,
{
    if a < b {
        lemma_range_offset_monotone(ranges, a, b - 1);
    }
}

proof fn lemma_pieces_in_range(cues: Seq<CueView>, r: ClipRange, offset: u64, n: int)
    requires
        0 <= n <= cues.len(),
        forall|i: int| 0 <= i < n ==> piece_fits(#[trigger] cues[i], r, offset),
    ensures
        forall|q: int|
            0 <= q < pieces_in_range(cues, r, offset, n).len() ==> piece_of(
                #[trigger] pieces_in_range(cues, r, offset, n)[q],
                cues,
                offset + monus(r.end_ms, r.start_ms),
            ),
    decreases n,
{
    if n > 0 {
        lemma_pieces_in_range(cues, r, offset, n - 1);
        let c = cues[n - 1];
        law_retimed_piece_stays_in_range(c, r, offset);
        let before = pieces_in_range(cues, r, offset, n - 1);
        let all = pieces_in_range(cues, r, offset, n);
        assert forall|q: int| 0 <= q < all.len() implies piece_of(
            #[trigger] all[q],
            cues,
            offset + monus(r.end_ms, r.start_ms),
        ) by {
            if q < before.len() {
                assert(all[q] == before[q]);
            } else {
                let p = retime_piece(c, r, offset)->Some_0;
                assert(all[q] == p);
                assert(p == (CueView { start_ms: p.start_ms, end_ms: p.end_ms, ..cues[n - 1] }));
            }
        }
    }
}

proof fn lemma_retimed_pieces(cues: Seq<CueView>, ranges: Seq<ClipRange>, k: int)
    requires
        0 <= k <= ranges.len(),
        retime_fits(cues, ranges),
    ensures
        forall|q: int|
            0 <= q < retimed_pieces(cues, ranges, k).len() ==> piece_of(
                #[trigger] retimed_pieces(cues, ranges, k)[q],
                cues,
                range_offset(ranges, k) as int,
            ),
    decreases k,
{
    if k > 0 {
        lemma_retimed_pieces(cues, ranges, k - 1);
        lemma_range_offset_monotone(ranges, k - 1, k);
        let r = ranges[k - 1];
        let offset = range_offset(ranges, k - 1);
        assert forall|i: int| 0 <= i < cues.len() implies piece_fits(#[trigger] cues[i], r, offset) by {
            assert(piece_fits(cues[i], ranges[k - 1], range_offset(ranges, k - 1)));
        }
        lemma_pieces_in_range(cues, r, offset, cues.len() as int);
        let before = retimed_pieces(cues, ranges, k - 1);
        let added = pieces_in_range(cues, r, offset, cues.len() as int);
        let all = retimed_pieces(cues, ranges, k);
        assert forall|q: int| 0 <= q < all.len() implies piece_of(
            #[trigger] all[q],
            cues,
            range_offset(ranges, k) as int,
        ) by {
            if q < before.len() {
                assert(all[q] == before[q]);
                assert(piece_of(before[q], cues, range_offset(ranges, k - 1) as int));
            } else {
                assert(all[q] == added[q - before.len()]);
                assert(piece_of(added[q - before.len()], cues, offset + monus(r.end_ms, r.start_ms)));
            }
        }
    }
}

/// Every cue of a track retimed for joined ranges is a piece of one of the
/// track's cues: that cue's text, identifier, settings, style and speaker,
/// with new times, lasting a positive time that ends within the joined
/// output.
pub proof fn law_retimed_cues_copy_fields(cues: Seq<CueView>, ranges: Seq<ClipRange>, out: Seq<CueView>)
    requires
        retime_fits(cues, ranges),
        out.to_multiset() == renumber(retimed_pieces(cues, ranges, ranges.len() as int), 1).to_multiset(),
    ensures
        forall|k: int|
            #![trigger out[k]]
            0 <= k < out.len() ==> {
                &&& out[k].start_ms < out[k].end_ms
                &&& out[k].end_ms <= range_offset(ranges, ranges.len() as int)
                &&& exists|i: int|
                    #![trigger cues[i]]
                    0 <= i < cues.len() && out[k] == (CueView {
                        id: out[k].id,
                        start_ms: out[k].start_ms,
                        end_ms: out[k].end_ms,
                        ..cues[i]
                    })
            },
{
    broadcast use vstd::seq_lib::group_to_multiset_ensures;

    let pieces = retimed_pieces(cues, ranges, ranges.len() as int);
    let numbered = renumber(pieces, 1);
    lemma_retimed_pieces(cues, ranges, ranges.len() as int);
    assert forall|k: int| #![trigger out[k]] 0 <= k < out.len() implies {
        &&& out[k].start_ms < out[k].end_ms
        &&& out[k].end_ms <= range_offset(ranges, ranges.len() as int)
        &&& exists|i: int|
            #![trigger cues[i]]
            0 <= i < cues.len() && out[k] == (CueView {
                id: out[k].id,
                start_ms: out[k].start_ms,
                end_ms: out[k].end_ms,
                ..cues[i]
            })
    } by {
        let c = out[k];
        assert(out.contains(c));
        assert(out.to_multiset().contains(c));
        assert(numbered.contains(c));
        let q = choose|q: int| 0 <= q < numbered.len() && numbered[q] == c;
        assert(piece_of(pieces[q], cues, range_offset(ranges, ranges.len() as int) as int));
        let i = choose|i: int|
            #![trigger cues[i]]
            0 <= i < cues.len() && pieces[q] == (CueView {
                start_ms: pieces[q].start_ms,
                end_ms: pieces[q].end_ms,
                ..cues[i]
            });
        assert(c == (CueView { id: c.id, start_ms: c.start_ms, end_ms: c.end_ms, ..cues[i] }));
    }
}

/// How many of the first `n` cues share some time with range `r`.
pub open spec fn crossing_count(cues: Seq<CueView>, r: ClipRange, n: int) -> int
    decreases n,
{
    if n <= 0 {
        0
    } else {
        crossing_count(cues, r, n - 1) + if max_u64(cues[n - 1].start_ms, r.start_ms) < min_u64(
            cues[n - 1].end_ms,
            r.end_ms,
        ) {
            1int
        } else {
            0int
        }
    }
}

/// How many (range, cue) pairs among the first `k` ranges share some time.
pub open spec fn crossing_pairs(cues: Seq<CueView>, ranges: Seq<ClipRange>, k: int) -> int
    decreases k,
{
    if k <= 0 {
        0
    } else {
        crossing_pairs(cues, ranges, k - 1) + crossing_count(cues, ranges[k - 1], cues.len() as int)
    }
}

proof fn lemma_pieces_in_range_len(cues: Seq<CueView>, r: ClipRange, offset: u64, n: int)
    ensures
        pieces_in_range(cues, r, offset, n).len() == crossing_count(cues, r, n),
    decreases n,
{
    if n > 0 {
        lemma_pieces_in_range_len(cues, r, offset, n - 1);
    }
}

proof fn lemma_retimed_pieces_len(cues: Seq<CueView>, ranges: Seq<ClipRange>, k: int)
    ensures
        retimed_pieces(cues, ranges, k).len() == crossing_pairs(cues, ranges, k),
    decreases k,
{
    if k > 0 {
        lemma_retimed_pieces_len(cues, ranges, k - 1);
        lemma_pieces_in_range_len(cues, ranges[k - 1], range_offset(ranges, k - 1), cues.len() as int);
    }
}

/// A track retimed for joined ranges has one cue for each pair of a range
/// and a cue that share some time.
pub proof fn law_retimed_cue_count(cues: Seq<CueView>, ranges: Seq<ClipRange>, out: Seq<CueView>)
    requires
        out.to_multiset() == renumber(retimed_pieces(cues, ranges, ranges.len() as int), 1).to_multiset(),
    ensures
        out.len() == crossing_pairs(cues, ranges, ranges.len() as int),
{
    broadcast use vstd::seq_lib::group_to_multiset_ensures;

    lemma_retimed_pieces_len(cues, ranges, ranges.len() as int);
    let numbered = renumber(retimed_pieces(cues, ranges, ranges.len() as int), 1);
    assert(out.to_multiset().len() == out.len());
    assert(numbered.to_multiset().len() == numbered.len());
}

// ---------------------------------------------------------------------------
// Subtitle files beside a video
// ---------------------------------------------------------------------------

/// Whether a file's stem marks it as a video's subtitles, without regard to
/// ASCII case: the video's own stem, or the video's stem followed by `.` or
/// `-` and more (such as `clip.en` or `clip-forced`).
pub open spec fn sidecar_stem_matches(video_stem: Seq<char>, candidate_stem: Seq<char>) -> bool {
    let v = lowercase(video_stem);
    let c = lowercase(candidate_stem);
    c == v || (starts_with(c, v) && c.len() > v.len() && (c[v.len() as int] == '.' || c[v.len() as int]
        == '-'))
}

/// A file beside the video is one of its subtitle files: its extension
/// names a subtitle format and its stem matches the video's.
pub open spec fn is_sidecar(video_stem: Seq<char>, candidate: Seq<char>) -> bool {
    &&& format_of_path(candidate) is Some
    &&& path_file_stem(candidate) matches Some(cs) && sidecar_stem_matches(video_stem, cs)
}

/// The sidecars among the candidates, in the candidates' order.
pub open spec fn sidecars(video_stem: Seq<char>, candidates: Seq<Seq<char>>) -> Seq<Seq<char>>
    decreases candidates.len(),
{
    if candidates.len() == 0 {
        seq![]
    } else if is_sidecar(video_stem, candidates.last()) {
        sidecars(video_stem, candidates.drop_last()).push(candidates.last())
    } else {
        sidecars(video_stem, candidates.drop_last())
    }
}

/// `a` comes before `b` in the order of code points.
pub open spec fn lex_lt(a: Seq<char>, b: Seq<char>) -> bool
    decreases a.len(),
{
    if a.len() == 0 {
        b.len() > 0
    } else if b.len() == 0 {
        false
    } else if a[0] != b[0] {
        a[0] < b[0]
    } else {
        lex_lt(a.drop_first(), b.drop_first())
    }
}

pub proof fn lemma_lex_lt_transitive(a: Seq<char>, b: Seq<char>, c: Seq<char>)
    requires
        lex_lt(a, b),
        lex_lt(b, c),
    ensures
        lex_lt(a, c),
    decreases a.len(),
{
    if a.len() > 0 && b.len() > 0 && c.len() > 0 && a[0] == b[0] && b[0] == c[0] {
        lemma_lex_lt_transitive(a.drop_first(), b.drop_first(), c.drop_first());
    }
}

pub proof fn lemma_lex_lt_asymmetric(a: Seq<char>, b: Seq<char>)
    ensures
        !(lex_lt(a, b) && lex_lt(b, a)),
    decreases a.len(),
{
    if a.len() > 0 && b.len() > 0 && a[0] == b[0] {
        lemma_lex_lt_asymmetric(a.drop_first(), b.drop_first());
    }
}

fn lex_less(a: &Vec<char>, b: &Vec<char>) -> (r: bool)
    ensures
        r == lex_lt(a@, b@),
{
    let mut i: usize = 0;
    assert(a@.skip(0) =~= a@ && b@.skip(0) =~= b@);
    while i < a.len() && i < b.len()
        invariant
            i <= a.len(),
            i <= b.len(),
            lex_lt(a@, b@) == lex_lt(a@.skip(i as int), b@.skip(i as int)),
        decreases a.len() - i,
    {
        if a[i] != b[i] {
            assert(a@.skip(i as int)[0] == a@[i as int] && b@.skip(i as int)[0] == b@[i as int]);
            return a[i] < b[i];
        }
        assert(a@.skip(i as int).drop_first() =~= a@.skip(i + 1));
        assert(b@.skip(i as int).drop_first() =~= b@.skip(i + 1));
        i = i + 1;
    }
    i < b.len()
}

/// The name a sidecar is sorted by: its file name (a path without one
/// sorts first).
pub open spec fn sorts_before(a: Seq<char>, b: Seq<char>) -> bool {
    match (crate::paths::path_file_name(a), crate::paths::path_file_name(b)) {
        (None, Some(_)) => true,
        (Some(x), Some(y)) => lex_lt(x, y),
        _ => false,
    }
}

proof fn lemma_sorts_before_order(a: Seq<char>, b: Seq<char>, c: Seq<char>)
    ensures
        sorts_before(a, b) && sorts_before(b, c) ==> sorts_before(a, c),
        !(sorts_before(a, b) && sorts_before(b, a)),
{
    match (
        crate::paths::path_file_name(a),
        crate::paths::path_file_name(b),
        crate::paths::path_file_name(c),
    ) {
        (Some(x), Some(y), Some(z)) => {
            if lex_lt(x, y) && lex_lt(y, z) {
                lemma_lex_lt_transitive(x, y, z);
            }
            lemma_lex_lt_asymmetric(x, y);
        },
        (Some(x), Some(y), None) => {
            lemma_lex_lt_asymmetric(x, y);
        },
        _ => {},
    }
}

/// No path sorts before one ahead of it.
pub open spec fn sorted_by_name(s: Seq<Seq<char>>) -> bool {
    forall|i: int, j: int| 0 <= i < j < s.len() ==> !sorts_before(#[trigger] s[j], #[trigger] s[i])
}

fn name_before(a: &str, b: &str) -> (r: bool)
    ensures
        r == sorts_before(a@, b@),
{
    match (crate::paths::file_name_of(a), crate::paths::file_name_of(b)) {
        (None, Some(_)) => true,
        (Some(x), Some(y)) => lex_less(&chars_of(x), &chars_of(y)),
        _ => false,
    }
}

/// Inserts `path` after every path that does not sort after it.
fn insert_by_name(v: &mut Vec<String>, path: String)
    requires
        sorted_by_name(texts(old(v)@)),
    ensures
        sorted_by_name(texts(final(v)@)),
        texts(final(v)@).to_multiset() == texts(old(v)@).to_multiset().insert(path@),
{
    let ghost s = texts(v@);
    let mut p: usize = 0;
    while p < v.len()
        invariant
            p <= v.len(),
            s == texts(v@),
            forall|i: int| 0 <= i < p ==> !sorts_before(path@, #[trigger] s[i]),
        ensures
            p <= v.len(),
            s == texts(v@),
            forall|i: int| 0 <= i < p ==> !sorts_before(path@, #[trigger] s[i]),
            p < v.len() ==> sorts_before(path@, s[p as int]),
        decreases v.len() - p,
    {
        if name_before(path.as_str(), v[p].as_str()) {
            break;
        }
        p = p + 1;
    }
    let ghost x = path@;
    v.insert(p, path);
    proof {
        assert(texts(v@) =~= s.insert(p as int, x));
        let t = s.insert(p as int, x);
        lemma_insert_multiset(s, p as int, x);
        assert forall|i: int, j: int| 0 <= i < j < t.len() implies !sorts_before(
            #[trigger] t[j],
            #[trigger] t[i],
        ) by {
            if j < p {
                assert(t[i] == s[i] && t[j] == s[j]);
            } else if j == p {
                assert(t[j] == x && t[i] == s[i]);
            } else if i > p {
                assert(t[i] == s[i - 1] && t[j] == s[j - 1]);
            } else if i == p {
                assert(t[i] == x && t[j] == s[j - 1]);
                assert(p < s.len());
                assert(sorts_before(x, s[p as int]));
                lemma_sorts_before_order(t[j], x, s[p as int]);
                if j - 1 > p {
                    assert(!sorts_before(s[j - 1], s[p as int]));
                }
            } else {
                assert(t[i] == s[i] && t[j] == s[j - 1]);
            }
        }
    }
}

fn stem_matches(video_lower: &Vec<char>, candidate_stem: &str) -> (r: bool)
    ensures
        r == (lowercase(candidate_stem@) == video_lower@ || (starts_with(lowercase(candidate_stem@), video_lower@)
            && lowercase(candidate_stem@).len() > video_lower@.len() && (lowercase(
            candidate_stem@,
        )[video_lower@.len() as int] == '.' || lowercase(candidate_stem@)[video_lower@.len() as int]
            == '-'))),
{
    let c = crate::text::lowercased(&chars_of(candidate_stem));
    if crate::text::chars_eq(&c, video_lower) {
        return true;
    }
    if crate::text::has_prefix(&c, video_lower) && c.len() > video_lower.len() {
        let next = c[video_lower.len()];
        return next == '.' || next == '-';
    }
    false
}

/// The subtitle files among the files beside a video, ordered by file
/// name. `candidates` are the paths of the other files in the video's
/// folder, whose names differ; a video without a stem has none.
pub fn select_sidecars(video: &str, candidates: &Vec<String>) -> (r: Vec<String>)
    ensures
        match path_file_stem(video@) {
            None => r@.len() == 0,
            Some(stem) => texts(r@).to_multiset() == sidecars(stem, texts(candidates@)).to_multiset()
                && sorted_by_name(texts(r@)),
        },
{
    let mut r: Vec<String> = Vec::new();
    let stem = match crate::paths::file_stem_of(video) {
        Some(s) => s,
        None => {
            return r;
        },
    };
    let video_lower = crate::text::lowercased(&chars_of(stem));
    let ghost vs = stem@;
    let mut i: usize = 0;
    proof {
        broadcast use vstd::seq_lib::group_to_multiset_ensures;

        assert(texts(candidates@).take(0) =~= Seq::<Seq<char>>::empty());
        assert(texts(r@) =~= Seq::<Seq<char>>::empty());
        assert(texts(r@).to_multiset() =~= vstd::multiset::Multiset::<Seq<char>>::empty());
    }
    while i < candidates.len()
        invariant
            i <= candidates.len(),
            vs == path_file_stem(video@)->0,
            video_lower@ == lowercase(vs),
            sorted_by_name(texts(r@)),
            texts(r@).to_multiset() == sidecars(vs, texts(candidates@).take(i as int)).to_multiset(),
        decreases candidates.len() - i,
    {
        let c = candidates[i].as_str();
        let ghost prefix = texts(candidates@).take(i + 1);
        assert(prefix.drop_last() =~= texts(candidates@).take(i as int));
        assert(prefix.last() == candidates@[i as int]@);
        let keep = match SubtitleFormat::from_path(c) {
            None => false,
            Some(_) => match crate::paths::file_stem_of(c) {
                Some(cs) => stem_matches(&video_lower, cs),
                None => false,
            },
        };
        assert(keep == is_sidecar(vs, candidates@[i as int]@));
        if keep {
            insert_by_name(&mut r, candidates[i].clone());
            proof {
                let before = sidecars(vs, prefix.drop_last());
                lemma_insert_multiset(before, before.len() as int, prefix.last());
                assert(before.insert(before.len() as int, prefix.last()) =~= before.push(prefix.last()));
            }
        }
        i = i + 1;
    }
    assert(texts(candidates@).take(candidates.len() as int) =~= texts(candidates@));
    r
}

} // verus!
