//! The diff engine: a structured, line-level diff between a commit and its
//! first parent (or the empty tree for a root commit).
//!
//! The store streams the diff as raw line events ([`crate::store::RawDiffLine`]);
//! everything done with those events — grouping by path, line bookkeeping,
//! per-file counters, fingerprints, ordering — is verified here.

use sha2::Digest;
use vstd::prelude::*;
use vstd::seq_lib::*;
use crate::model::CoreError;
use crate::store;
use crate::store::{DiffTotals, RawDiffLine};
use crate::text;

verus! {

/// One display line of a diff.
///
/// `origin` is the numeric form of the store's one-character origin code:
/// 0 context, 1 addition, 2 deletion, 3 context at end of file, 4 addition
/// at end of file, 5 deletion at end of file, 6 file header, 7 hunk
/// header, 8 binary.
#[derive(Debug, Clone, PartialEq, Eq, PartialOrd, Ord)]
pub struct Line {
    /// Line number on the old side, `-1` when absent.
    pub old_lineno: i64,
    /// Line number on the new side, `-1` when absent.
    pub new_lineno: i64,
    /// Line text, newlines stripped from both ends; hunk headers carry a
    /// two-space display prefix.
    pub content: String,
    pub origin: u8,
}

impl Line {
    pub fn new(old_lineno: i64, new_lineno: i64, content: String, origin: u8) -> (r: Self)
        ensures
            r.old_lineno == old_lineno,
            r.new_lineno == new_lineno,
            r.content == content,
            r.origin == origin,
    {
        Self { old_lineno, new_lineno, content, origin }
    }
}

/// Insertion and deletion counters of one file of a diff.
#[derive(Debug, Clone, PartialEq, Eq, PartialOrd, Ord)]
pub struct Stats {
    pub insertions: usize,
    pub deletions: usize,
}

impl Default for Stats {
    fn default() -> (r: Self)
        ensures
            r.insertions == 0,
            r.deletions == 0,
    {
        Stats { insertions: 0, deletions: 0 }
    }
}

/// One file of a diff: its path, counters, fingerprint and lines.
#[derive(Debug, Clone)]
pub struct File {
    pub name: String,
    pub stats: Stats,
    /// Fingerprint: the hex digest of the file path, kept as a stable
    /// anchor for the file. Because it is computed from the path alone, it
    /// repeats across diffs that touch the same path.
    pub hash: String,
    pub data: Vec<Line>,
}

impl From<(String, (Stats, String, Vec<Line>))> for File {
    fn from(value: (String, (Stats, String, Vec<Line>))) -> (r: File) {
        let (name, (stats, hash, data)) = value;
        File { name, stats, hash, data }
    }
}

impl vstd::std_specs::convert::FromSpecImpl<(String, (Stats, String, Vec<Line>))> for File {
    open spec fn obeys_from_spec() -> bool {
        true
    }

    open spec fn from_spec(value: (String, (Stats, String, Vec<Line>))) -> File {
        File { name: value.0, stats: value.1.0, hash: value.1.1, data: value.1.2 }
    }
}

/// The numeric origin code for a store origin character.
pub open spec fn spec_origin_code(c: char) -> u8 {
    if c == ' ' {
        0
    } else if c == '+' {
        1
    } else if c == '-' {
        2
    } else if c == '=' {
        3
    } else if c == '>' {
        4
    } else if c == '<' {
        5
    } else if c == 'F' {
        6
    } else if c == 'H' {
        7
    } else if c == 'B' {
        8
    } else {
        0
    }
}

/// The `-1`-for-absent encoding of a line number.
pub open spec fn spec_lineno(n: Option<u32>) -> int {
    match n {
        Option::Some(v) => v as int,
        Option::None => -1,
    }
}

/// Whether a line's trimmed content is a hunk header (it opens with `@@`).
pub open spec fn is_hunk_text(s: Seq<char>) -> bool {
    text::is_prefix(seq!['@', '@'], s)
}

/// The mathematical image of a display [`Line`].
#[verifier::ext_equal]
pub struct LineModel {
    pub old_lineno: int,
    pub new_lineno: int,
    pub content: Seq<char>,
    pub origin: int,
}

/// The model of a built line.
pub open spec fn model_of(l: Line) -> LineModel {
    LineModel {
        old_lineno: l.old_lineno as int,
        new_lineno: l.new_lineno as int,
        content: l.content@,
        origin: l.origin as int,
    }
}

/// What one raw event becomes when stored: newlines trimmed, hunk headers
/// prefixed with two spaces, the origin code made numeric, absent line
/// numbers encoded as `-1`.
pub open spec fn spec_process(e: RawDiffLine) -> LineModel {
    let t = text::trim_nl(e.content@);
    LineModel {
        old_lineno: spec_lineno(e.old_lineno),
        new_lineno: spec_lineno(e.new_lineno),
        content: if is_hunk_text(t) {
            seq![' ', ' '] + t
        } else {
            t
        },
        origin: spec_origin_code(e.origin) as int,
    }
}

/// Whether an event counts as an insertion: an addition line that is not a
/// hunk header.
pub open spec fn counted_insertion(e: RawDiffLine) -> bool {
    e.origin == '+' && !is_hunk_text(text::trim_nl(e.content@))
}

/// Whether an event counts as a deletion: a deletion line that is not a
/// hunk header.
pub open spec fn counted_deletion(e: RawDiffLine) -> bool {
    e.origin == '-' && !is_hunk_text(text::trim_nl(e.content@))
}

/// The events that belong to the file at `path`, in emission order.
pub open spec fn events_for(events: Seq<RawDiffLine>, path: Seq<char>) -> Seq<RawDiffLine>
    decreases events.len(),
{
    if events.len() == 0 {
        Seq::empty()
    } else if events.last().path@ == path {
        events_for(events.drop_last(), path).push(events.last())
    } else {
        events_for(events.drop_last(), path)
    }
}

/// The distinct paths of a diff, in order of first appearance.
pub open spec fn spec_paths(events: Seq<RawDiffLine>) -> Seq<Seq<char>>
    decreases events.len(),
{
    if events.len() == 0 {
        Seq::empty()
    } else {
        let rest = spec_paths(events.drop_last());
        if rest.contains(events.last().path@) {
            rest
        } else {
            rest.push(events.last().path@)
        }
    }
}

/// Builds one stored line out of a raw event.
fn process_event(e: &RawDiffLine) -> (r: Line)
    ensures
        model_of(r) == spec_process(*e),
{
    let old_lineno: i64 = match e.old_lineno {
        Option::Some(n) => n as i64,
        Option::None => -1,
    };
    let new_lineno: i64 = match e.new_lineno {
        Option::Some(n) => n as i64,
        Option::None => -1,
    };
    let origin: u8 = origin_code(e.origin);
    let trimmed = text::trim_nl_exec(e.content.as_str());
    proof {
        reveal_strlit("@@");
        assert("@@"@ =~= seq!['@', '@']);
    }
    let content = if text::starts_with_str(trimmed.as_str(), "@@") {
        proof {
            reveal_strlit("  ");
        }
        let mut c = String::from_str("  ");
        c.append(trimmed.as_str());
        assert(c@ =~= seq![' ', ' '] + text::trim_nl(e.content@));
        c
    } else {
        trimmed
    };
    let r = Line::new(old_lineno, new_lineno, content, origin);
    assert(model_of(r) =~= spec_process(*e));
    r
}

/// The fingerprint input: the digest of the file path. Named; the digest
/// depends on its input alone.
pub uninterp spec fn sha256_of(s: Seq<char>) -> Seq<u8>;

/// Relies on `sha2::Sha256`: the digest of the UTF-8 bytes of `s`.
#[verifier::external_body]
fn sha256_digest_str(s: &str) -> (r: Vec<u8>)
    ensures
        r@ == sha256_of(s@),
{
    sha2::Sha256::digest(s.as_bytes()).to_vec()
}

/// The models of a file's stored lines.
pub open spec fn models_of(data: Seq<Line>) -> Seq<LineModel> {
    data.map_values(|l: Line| model_of(l))
}

/// What the stored lines of a file must be, given the file's events: every
/// event after the first, processed. The fold consumes the first event of
/// each file — normally its file header — while creating the file's slot,
/// so that event is never stored.
pub open spec fn lines_of(evs: Seq<RawDiffLine>) -> Seq<LineModel> {
    evs.skip(1).map_values(|e: RawDiffLine| spec_process(e))
}

/// How many events of `s` count as insertions.
pub open spec fn count_insertions(s: Seq<RawDiffLine>) -> int
    decreases s.len(),
{
    if s.len() == 0 {
        0
    } else {
        count_insertions(s.drop_last()) + (if counted_insertion(s.last()) {
            1int
        } else {
            0int
        })
    }
}

/// How many events of `s` count as deletions.
pub open spec fn count_deletions(s: Seq<RawDiffLine>) -> int
    decreases s.len(),
{
    if s.len() == 0 {
        0
    } else {
        count_deletions(s.drop_last()) + (if counted_deletion(s.last()) {
            1int
        } else {
            0int
        })
    }
}

/// The insertion count owed for a file with events `evs`.
pub open spec fn insertions_of(evs: Seq<RawDiffLine>) -> int {
    count_insertions(evs.skip(1))
}

/// The deletion count owed for a file with events `evs`.
pub open spec fn deletions_of(evs: Seq<RawDiffLine>) -> int {
    count_deletions(evs.skip(1))
}

/// What a produced [`File`] must hold, given the whole event stream: the
/// processed lines of its events, the insertion and deletion counts of
/// those lines with hunk headers never contributing, and the path
/// fingerprint once the file has more than its header event.
pub open spec fn file_ok(events: Seq<RawDiffLine>, f: File) -> bool {
    let evs = events_for(events, f.name@);
    &&& models_of(f.data@) == lines_of(evs)
    &&& f.stats.insertions == insertions_of(evs)
    &&& f.stats.deletions == deletions_of(evs)
    &&& (evs.len() >= 2 ==> f.hash@ == text::spec_hex(sha256_of(f.name@)))
    &&& (evs.len() <= 1 ==> f.hash@ == Seq::<char>::empty())
}

/// Appending an event to a stream extends one path's events and leaves
/// every other path's untouched.
proof fn lemma_events_for_push(s: Seq<RawDiffLine>, e: RawDiffLine, p: Seq<char>)
    ensures
        e.path@ == p ==> events_for(s.push(e), p) == events_for(s, p).push(e),
        e.path@ != p ==> events_for(s.push(e), p) == events_for(s, p),
{
    assert(s.push(e).drop_last() =~= s);
    assert(s.push(e).last() == e);
}

/// The counters never exceed the number of events.
proof fn lemma_counts_bound(s: Seq<RawDiffLine>)
    ensures
        0 <= count_insertions(s) <= s.len(),
        0 <= count_deletions(s) <= s.len(),
    decreases s.len(),
{
    if s.len() > 0 {
        lemma_counts_bound(s.drop_last());
    }
}

/// A path owns at most as many events as the stream holds.
proof fn lemma_events_for_len(s: Seq<RawDiffLine>, p: Seq<char>)
    ensures
        events_for(s, p).len() <= s.len(),
    decreases s.len(),
{
    if s.len() > 0 {
        lemma_events_for_len(s.drop_last(), p);
    }
}

/// How one file's accumulated lines and counters grow by one event of its
/// own path.
proof fn lemma_file_acc_push(evs_p: Seq<RawDiffLine>, e: RawDiffLine)
    requires
        evs_p.len() >= 1,
    ensures
        lines_of(evs_p.push(e)) == lines_of(evs_p).push(spec_process(e)),
        insertions_of(evs_p.push(e)) == insertions_of(evs_p) + (if counted_insertion(e) {
            1int
        } else {
            0int
        }),
        deletions_of(evs_p.push(e)) == deletions_of(evs_p) + (if counted_deletion(e) {
            1int
        } else {
            0int
        }),
{
    assert(evs_p.push(e).skip(1) =~= evs_p.skip(1).push(e));
    assert(lines_of(evs_p.push(e)) =~= lines_of(evs_p).push(spec_process(e)));
    assert(evs_p.skip(1).push(e).drop_last() =~= evs_p.skip(1));
    assert(count_insertions(evs_p.skip(1).push(e)) == count_insertions(evs_p.skip(1)) + (
    if counted_insertion(e) {
        1int
    } else {
        0int
    }));
    assert(count_deletions(evs_p.skip(1).push(e)) == count_deletions(evs_p.skip(1)) + (
    if counted_deletion(e) {
        1int
    } else {
        0int
    }));
}

/// A path appears among a stream's paths exactly when it has an event.
proof fn lemma_paths_events(s: Seq<RawDiffLine>, p: Seq<char>)
    ensures
        spec_paths(s).contains(p) <==> events_for(s, p).len() > 0,
    decreases s.len(),
{
    if s.len() == 0 {
    } else {
        lemma_paths_events(s.drop_last(), p);
        let rest = spec_paths(s.drop_last());
        if s.last().path@ == p {
            if !rest.contains(p) {
                assert(rest.push(p)[rest.len() as int] == p);
            }
        } else {
            if rest.contains(p) && !rest.contains(s.last().path@) {
                let i = choose|i: int| 0 <= i < rest.len() && rest[i] == p;
                assert(rest.push(s.last().path@)[i] == p);
            }
            if spec_paths(s).contains(p) && !rest.contains(s.last().path@) {
                let i = choose|i: int|
                    0 <= i < spec_paths(s).len() && spec_paths(s)[i] == p;
                assert(i < rest.len());
                assert(rest[i] == p);
            }
        }
    }
}

/// Finds the file that owns `path`, if one has been created.
fn find_file(files: &Vec<File>, path: &str) -> (r: Option<usize>)
    ensures
        match r {
            Option::Some(i) => i < files@.len() && files@[i as int].name@ == path@,
            Option::None => forall|k: int| 0 <= k < files@.len() ==> files@[k].name@ != path@,
        },
{
    let mut k: usize = 0;
    while k < files.len()
        invariant
            k <= files@.len(),
            forall|j: int| 0 <= j < k ==> files@[j].name@ != path@,
        decreases files@.len() - k,
    {
        if text::str_eq(files[k].name.as_str(), path) {
            return Option::Some(k);
        }
        k += 1;
    }
    Option::None
}

/// Whether an event counts, on each side.
fn event_counts(e: &RawDiffLine) -> (r: (bool, bool))
    ensures
        r.0 == counted_insertion(*e),
        r.1 == counted_deletion(*e),
{
    let t = text::trim_nl_exec(e.content.as_str());
    proof {
        reveal_strlit("@@");
        assert("@@"@ =~= seq!['@', '@']);
    }
    let hunk = text::starts_with_str(t.as_str(), "@@");
    ((e.origin == '+') && !hunk, (e.origin == '-') && !hunk)
}

/// The names of a run of files.
pub open spec fn names_of(files: Seq<File>) -> Seq<Seq<char>> {
    files.map_values(|f: File| f.name@)
}

/// No two files share a path.
pub open spec fn distinct_names(s: Seq<File>) -> bool {
    forall|k1: int, k2: int|
        0 <= k1 < k2 < s.len() ==> (#[trigger] s[k1]).name@ != (#[trigger] s[k2]).name@
}

/// Groups a stream of raw line events into files: one file per distinct
/// path, in order of first appearance, each holding the processed lines of
/// its events past the header event, the counters those lines owe, and the
/// path fingerprint.
pub fn fold_diff_events(events: &Vec<RawDiffLine>) -> (r: Vec<File>)
    ensures
        names_of(r@) == spec_paths(events@),
        forall|k: int| 0 <= k < r@.len() ==> file_ok(events@, #[trigger] r@[k]),
        distinct_names(r@),
{
    let ghost evs = events@;
    let mut files: Vec<File> = Vec::new();
    let mut n: usize = 0;
    proof {
        assert(evs.take(0) =~= Seq::<RawDiffLine>::empty());
        assert(names_of(files@) =~= spec_paths(evs.take(0)));
    }
    while n < events.len()
        invariant
            evs == events@,
            n <= evs.len(),
            names_of(files@) == spec_paths(evs.take(n as int)),
            forall|k: int|
                0 <= k < files@.len() ==> file_ok(evs.take(n as int), #[trigger] files@[k]),
            distinct_names(files@),
        decreases evs.len() - n,
    {
        let e = &events[n];
        let ghost taken = evs.take(n as int);
        let ghost taken1 = evs.take(n as int + 1);
        proof {
            assert(taken1.drop_last() =~= taken);
            assert(taken1.last() == evs[n as int]);
            assert(taken.push(evs[n as int]) =~= taken1);
        }
        match find_file(&files, e.path.as_str()) {
            Option::Some(i) => {
                proof {
                    assert(names_of(files@)[i as int] == files@[i as int].name@);
                    assert(spec_paths(taken).contains(e.path@));
                    assert(spec_paths(taken1) == spec_paths(taken));
                }
                let line = process_event(e);
                let (ins, del) = event_counts(e);
                let digest = sha256_digest_str(e.path.as_str());
                let hex = text::bytes_to_hex(&digest);
                let ghost old_files = files@;
                let mut f = files.remove(i);
                proof {
                    // The file's own events so far: nonempty, and bounded by
                    // the events seen.
                    lemma_paths_events(taken, f.name@);
                    lemma_events_for_len(taken, f.name@);
                    lemma_counts_bound(events_for(taken, f.name@).skip(1));
                }
                f.data.push(line);
                if ins {
                    f.stats.insertions += 1;
                }
                if del {
                    f.stats.deletions += 1;
                }
                f.hash = hex;
                files.insert(i, f);
                proof {
                    assert(files@ =~= old_files.update(i as int, files@[i as int]));
                    let fnew = files@[i as int];
                    let p = fnew.name@;
                    assert(p == e.path@);
                    lemma_events_for_push(taken, evs[n as int], p);
                    lemma_paths_events(taken, p);
                    lemma_file_acc_push(events_for(taken, p), evs[n as int]);
                    assert(files@[i as int] == f);
                    assert(models_of(fnew.data@) =~= models_of(old_files[i as int].data@).push(
                        model_of(line),
                    ));
                    assert(file_ok(taken1, fnew));
                    assert forall|k: int|
                        0 <= k < files@.len() && k != i implies file_ok(
                        taken1,
                        #[trigger] files@[k],
                    ) by {
                        assert(files@[k] == old_files[k]);
                        assert(files@[k].name@ != p);
                        lemma_events_for_push(taken, evs[n as int], files@[k].name@);
                    }
                    assert(names_of(files@) =~= spec_paths(taken1));
                }
            },
            Option::None => {
                let ghost old_files = files@;
                let name = e.path.clone();
                files.push(
                    File { name, stats: Stats::default(), hash: String::new(), data: Vec::new() },
                );
                proof {
                    let p = evs[n as int].path@;
                    assert(!spec_paths(taken).contains(p)) by {
                        if spec_paths(taken).contains(p) {
                            let j = choose|j: int|
                                0 <= j < spec_paths(taken).len() && spec_paths(taken)[j] == p;
                            assert(names_of(old_files)[j] == old_files[j].name@);
                        }
                    }
                    assert(spec_paths(taken1) == spec_paths(taken).push(p));
                    assert(names_of(files@) =~= names_of(old_files).push(p));
                    lemma_paths_events(taken, p);
                    let fnew = files@[files@.len() - 1];
                    assert(fnew.name@ == p);
                    lemma_events_for_push(taken, evs[n as int], p);
                    assert(events_for(taken, p) =~= Seq::<RawDiffLine>::empty());
                    assert(events_for(taken1, p) =~= seq![evs[n as int]]);
                    assert(events_for(taken1, p).skip(1) =~= Seq::<RawDiffLine>::empty());
                    assert(models_of(fnew.data@) =~= Seq::<LineModel>::empty());
                    assert(lines_of(events_for(taken1, p)) =~= Seq::<LineModel>::empty());
                    assert(count_insertions(events_for(taken1, p).skip(1)) == 0);
                    assert(count_deletions(events_for(taken1, p).skip(1)) == 0);
                    assert(file_ok(taken1, fnew));
                    assert forall|k: int|
                        0 <= k < files@.len() - 1 implies file_ok(taken1, #[trigger] files@[k]) by {
                        assert(files@[k] == old_files[k]);
                        assert(spec_paths(taken)[k] == names_of(old_files)[k]);
                        assert(files@[k].name@ != p) by {
                            if files@[k].name@ == p {
                                assert(names_of(old_files)[k] == p);
                            }
                        }
                        lemma_events_for_push(taken, evs[n as int], files@[k].name@);
                    }
                }
            },
        }
        n += 1;
    }
    proof {
        assert(evs.take(evs.len() as int) =~= evs);
    }
    files
}

/// Adjacent-pair ordering of files by path.
pub open spec fn sorted_by_name(s: Seq<File>) -> bool {
    forall|i: int| 0 <= i < s.len() - 1 ==> text::lex_le(#[trigger] s[i].name@, s[i + 1].name@)
}

/// Sorts files by path, ascending; the collection of files is unchanged.
pub fn sort_files(files: &mut Vec<File>)
    ensures
        sorted_by_name(final(files)@),
        final(files)@.to_multiset() == old(files)@.to_multiset(),
        final(files)@.len() == old(files)@.len(),
        distinct_names(old(files)@) ==> distinct_names(final(files)@),
{
    let mut i: usize = 1;
    while i < files.len()
        invariant
            i >= 1,
            files@.len() == old(files)@.len(),
            i <= files@.len() || files@.len() == 0,
            files@.to_multiset() == old(files)@.to_multiset(),
            distinct_names(old(files)@) ==> distinct_names(files@),
            forall|a: int| 0 <= a < i - 1 && a + 1 < files@.len() ==> text::lex_le(
                #[trigger] files@[a].name@,
                files@[a + 1].name@,
            ),
        decreases files@.len() - i,
    {
        let mut k: usize = 0;
        while k < i && text::str_le(files[k].name.as_str(), files[i].name.as_str())
            invariant
                i < files@.len(),
                k <= i,
                forall|a: int| 0 <= a < k ==> text::lex_le(
                    #[trigger] files@[a].name@,
                    files@[i as int].name@,
                ),
            decreases i - k,
        {
            k += 1;
        }
        let ghost before = files@;
        let f = files.remove(i);
        let ghost mid = files@;
        files.insert(k, f);
        proof {
            broadcast use vstd::seq_lib::group_to_multiset_ensures;

            assert(before.remove(i as int).to_multiset() =~= before.to_multiset().remove(
                before[i as int],
            ));
            assert(files@.to_multiset() =~= mid.to_multiset().insert(f));
            assert(before.to_multiset().contains(before[i as int])) by {
                assert(before.contains(before[i as int]));
            }
            assert(files@.to_multiset() =~= before.to_multiset());
            // Where each element now sits.
            assert(forall|a: int| 0 <= a < k ==> files@[a] == before[a]);
            assert(f == before[i as int]);
            assert(files@[k as int] == f);
            assert(forall|a: int| k < a <= i ==> files@[a] == before[a - 1]);
            assert(forall|a: int| i < a < files@.len() ==> files@[a] == before[a]);
            // A permutation of distinct names stays distinct.
            if distinct_names(before) {
                assert forall|a1: int, a2: int|
                    0 <= a1 < a2 < files@.len() implies (#[trigger] files@[a1]).name@ != (
                #[trigger] files@[a2]).name@ by {
                    let b1 = if a1 < k {
                        a1
                    } else if a1 == k {
                        i as int
                    } else if a1 <= i {
                        a1 - 1
                    } else {
                        a1
                    };
                    let b2 = if a2 < k {
                        a2
                    } else if a2 == k {
                        i as int
                    } else if a2 <= i {
                        a2 - 1
                    } else {
                        a2
                    };
                    assert(files@[a1] == before[b1]);
                    assert(files@[a2] == before[b2]);
                    assert(b1 != b2);
                    if b1 < b2 {
                        assert(before[b1].name@ != before[b2].name@);
                    } else {
                        assert(before[b2].name@ != before[b1].name@);
                    }
                }
            }
            if k < i {
                text::lemma_lex_total(before[k as int].name@, f.name@);
            }
            assert forall|a: int| 0 <= a < i && a + 1 < files@.len() implies text::lex_le(
                #[trigger] files@[a].name@,
                files@[a + 1].name@,
            ) by {
                if a + 1 < k {
                } else if a + 1 == k {
                } else if a == k {
                } else {
                }
            }
        }
        i += 1;
    }
    proof {
        if files@.len() > 1 {
            assert(i >= files@.len());
        }
    }
}

/// A structured diff: one file per touched path, sorted by path, plus the
/// store's aggregate totals.
#[derive(Debug)]
pub struct Diff {
    pub files: Vec<File>,
    /// Aggregate totals as the store computes them, independent of, and
    /// authoritative over, the per-file counters.
    pub stats: DiffTotals,
}

impl Diff {
    /// The diff of the commit `id` against its first parent, or against
    /// the empty tree when it has no parent.
    pub fn new(repo: &git2::Repository, id: &str) -> (r: Result<Diff, CoreError>)
        ensures
            r matches Ok(d) ==> sorted_by_name(d.files@) && distinct_names(d.files@),
            r matches Err(e) ==> e is ObjectReadFailure,
    {
        let commit = match store::read_commit(repo, id) {
            Option::Some(c) => c,
            Option::None => {
                return Result::Err(CoreError::ObjectReadFailure);
            },
        };
        let commit_tree = match store::lookup_tree(repo, commit.tree_id.as_str()) {
            Option::Some(t) => t,
            Option::None => {
                return Result::Err(CoreError::ObjectReadFailure);
            },
        };
        let parent_tree = if commit.parent_ids.len() > 0 {
            let parent = match store::read_commit(repo, commit.parent_ids[0].as_str()) {
                Option::Some(p) => p,
                Option::None => {
                    return Result::Err(CoreError::ObjectReadFailure);
                },
            };
            match store::lookup_tree(repo, parent.tree_id.as_str()) {
                Option::Some(t) => Option::Some(t),
                Option::None => {
                    return Result::Err(CoreError::ObjectReadFailure);
                },
            }
        } else {
            Option::None
        };
        let (totals, events) = match store::diff_raw(repo, parent_tree.as_ref(), &commit_tree) {
            Option::Some(pair) => pair,
            Option::None => {
                return Result::Err(CoreError::ObjectReadFailure);
            },
        };
        let stats = DiffTotals {
            files_changed: totals.0,
            insertions: totals.1,
            deletions: totals.2,
        };
        let mut files = fold_diff_events(&events);
        sort_files(&mut files);
        Result::Ok(Diff { files, stats })
    }
}

/// The numeric origin code for `c`.
fn origin_code(c: char) -> (r: u8)
    ensures
        r == spec_origin_code(c),
{
    if c == ' ' {
        0
    } else if c == '+' {
        1
    } else if c == '-' {
        2
    } else if c == '=' {
        3
    } else if c == '>' {
        4
    } else if c == '<' {
        5
    } else if c == 'F' {
        6
    } else if c == 'H' {
        7
    } else if c == 'B' {
        8
    } else {
        0
    }
}

} // verus!
