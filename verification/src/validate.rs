//! The class-usage validation pass.
//!
//! A pass compiles the two regexes, loads the accepted class set out of CSS
//! text, searches each file's whole content with the capture regex (so a
//! match may span lines, and every match counts), splits each captured blob
//! with the split regex, and reports every non-empty token that the accepted
//! set does not hold, with the line its match starts on. A file that could
//! not be read is left out of the aggregate; the pass goes on without it.

use vstd::prelude::*;
use vstd::string::StrSliceExecFns;
use crate::class_set::ClassSet;
use crate::regexes::{
    regex_ok,
    captures_of,
    capture_pair_view,
    split_of,
    regex_compiles,
    capture_all,
    split_with,
};
use crate::text::to_chars;
use crate::input::{glob_ok, glob_pattern_compiles};

verus! {

/// What a validation run is asked to do.
#[derive(Debug, Clone)]
pub struct Options {
    /// CSS file path or URL used for code verification.
    pub css_input: String,
    /// Glob pointing to the files to validate.
    pub input_glob: String,
    /// Classes matcher regex; its capture group 1 holds all the classes of a
    /// match.
    pub capture_regex: String,
    /// Classes splitter regex; it cuts the captured blob into single class
    /// candidates.
    pub split_regex: String,
    /// How many files may be open at once.
    pub max_opened_files: usize,
    /// Watch the CSS file and the matched files, revalidating on change.
    pub watch: bool,
    /// Watch debounce window, in milliseconds.
    pub watch_debounce_duration: u64,
    /// Suppress all per-occurrence output.
    pub quiet: bool,
}

/// Failure of a validation pass.
#[derive(Debug, Clone, Copy, PartialEq, Eq, Structural)]
pub enum Error {
    /// Unknown classes were found.
    InvalidClasses,
    /// The accepted class set could not be extracted.
    Pyaco(crate::errors::Error),
    /// The input glob does not parse.
    GlobPattern,
    /// The capture regex does not compile.
    CaptureRegex,
    /// The split regex does not compile.
    SplitRegex,
}

/// How the failure of opening one file is treated.
#[derive(Debug, Clone, Copy, PartialEq, Eq, Structural)]
pub enum FileErrorKind {
    /// The process ran out of file descriptors; lowering the concurrency cap
    /// is the fix, so the condition is told apart from plain I/O failure.
    TooManyOpenFiles,
    /// Any other failure: the file is skipped and the pass goes on.
    Other,
}

/// Tells the resource-exhaustion failure of an open apart from the rest,
/// from the raw OS error code of the failure.
pub fn classify_open_error(raw_os_code: Option<i32>) -> (r: FileErrorKind)
    ensures
        (r == FileErrorKind::TooManyOpenFiles) <==> (raw_os_code == Some(24i32)),
{
    match raw_os_code {
        Some(code) => if code == 24 {
            FileErrorKind::TooManyOpenFiles
        } else {
            FileErrorKind::Other
        },
        None => FileErrorKind::Other,
    }
}

/// The two regexes a scan works with.
pub struct CaptureConfig {
    capture_regex: String,
    split_regex: String,
}

impl CaptureConfig {
    /// The capture pattern.
    pub closed spec fn capture(&self) -> Seq<char> {
        self.capture_regex@
    }

    /// The split pattern.
    pub closed spec fn split(&self) -> Seq<char> {
        self.split_regex@
    }

    /// Both patterns compile.
    pub open spec fn wf(&self) -> bool {
        regex_ok(self.capture()) && regex_ok(self.split())
    }

    /// Accepts the pair of patterns if and only if both compile; says which
    /// one is at fault otherwise, the capture pattern checked first.
    pub fn new(capture_regex: String, split_regex: String) -> (r: Result<CaptureConfig, Error>)
        ensures
            r matches Ok(cfg) ==> cfg.wf() && cfg.capture() == capture_regex@ && cfg.split()
                == split_regex@,
            r is Ok <==> regex_ok(capture_regex@) && regex_ok(split_regex@),
            !regex_ok(capture_regex@) ==> r == Err::<CaptureConfig, Error>(Error::CaptureRegex),
            regex_ok(capture_regex@) && !regex_ok(split_regex@) ==> r == Err::<
                CaptureConfig,
                Error,
            >(Error::SplitRegex),
    {
        if !regex_compiles(capture_regex.as_str()) {
            return Err(Error::CaptureRegex);
        }
        if !regex_compiles(split_regex.as_str()) {
            return Err(Error::SplitRegex);
        }
        Ok(CaptureConfig { capture_regex, split_regex })
    }

    /// The capture pattern, for handing to the regex engine.
    pub fn capture_pattern(&self) -> (r: &String)
        ensures
            r@ == self.capture(),
    {
        &self.capture_regex
    }

    /// The split pattern, for handing to the regex engine.
    pub fn split_pattern(&self) -> (r: &String)
        ensures
            r@ == self.split(),
    {
        &self.split_regex
    }
}

/// How many newlines `text` holds.
pub open spec fn newline_count(text: Seq<char>) -> nat
    decreases text.len(),
{
    if text.len() == 0 {
        0
    } else {
        (if text.last() == '\n' {
            1nat
        } else {
            0nat
        }) + newline_count(text.drop_last())
    }
}

/// The line, numbered from 1, on which the character at `offset` stands:
/// one more than the newlines before it, capped at the largest number a
/// report can carry.
pub open spec fn spec_line_number(content: Seq<char>, offset: int) -> int {
    let n = newline_count(content.take(offset));
    if n + 1 > u64::MAX {
        u64::MAX as int
    } else {
        n + 1 as int
    }
}

/// The line number of the character at `offset`.
fn line_number_at(content: &Vec<char>, offset: usize) -> (r: u64)
    requires
        offset <= content@.len(),
    ensures
        r as int == spec_line_number(content@, offset as int),
{
    let mut count: usize = 0;
    let mut j: usize = 0;
    proof {
        assert(content@.take(0) =~= Seq::<char>::empty());
    }
    while j < offset
        invariant
            offset <= content@.len(),
            0 <= j <= offset,
            count <= j,
            count == newline_count(content@.take(j as int)),
        decreases offset - j,
    {
        proof {
            let t = content@.take(j + 1 as int);
            assert(t.drop_last() =~= content@.take(j as int));
            assert(t.last() == content@[j as int]);
        }
        if content[j] == '\n' {
            count = count + 1;
        }
        j += 1;
    }
    let big: u64 = count as u64;
    if big == u64::MAX {
        big
    } else {
        big + 1
    }
}

/// One unknown-class occurrence: the class, and where it was found.
#[derive(Debug, Clone)]
pub struct UsageEvent {
    pub line_number: u64,
    pub path: String,
    pub class: String,
}

/// The mathematical shape of an occurrence.
#[verifier::ext_equal]
pub struct EventModel {
    pub line_number: int,
    pub path: Seq<char>,
    pub class: Seq<char>,
}

impl View for UsageEvent {
    type V = EventModel;

    open spec fn view(&self) -> EventModel {
        EventModel {
            line_number: self.line_number as int,
            path: self.path@,
            class: self.class@,
        }
    }
}

/// The unknown-class tokens of one captured blob: the blob split by the
/// split regex, with empty tokens and accepted classes dropped.
pub open spec fn spec_blob_unknown(
    split: Seq<char>,
    accepted: Set<Seq<char>>,
    blob: Seq<char>,
) -> Seq<Seq<char>> {
    split_of(split, blob).filter(|t: Seq<char>| t.len() > 0 && !accepted.contains(t))
}

/// The events of one match of the capture regex: nothing where group 1 took
/// no part in the match, and otherwise one event per unknown token of the
/// captured blob, each on the line where the match starts.
pub open spec fn spec_match_events(
    split: Seq<char>,
    accepted: Set<Seq<char>>,
    path: Seq<char>,
    content: Seq<char>,
    m: (int, Option<Seq<char>>),
) -> Seq<EventModel> {
    match m.1 {
        None => Seq::empty(),
        Some(blob) => spec_blob_unknown(split, accepted, blob).map_values(
            |t: Seq<char>|
                EventModel {
                    line_number: spec_line_number(content, m.0),
                    path: path,
                    class: t,
                },
        ),
    }
}

/// The events of a run of matches, in match order.
pub open spec fn spec_events_of_matches(
    split: Seq<char>,
    accepted: Set<Seq<char>>,
    path: Seq<char>,
    content: Seq<char>,
    matches: Seq<(int, Option<Seq<char>>)>,
) -> Seq<EventModel>
    decreases matches.len(),
{
    if matches.len() == 0 {
        Seq::empty()
    } else {
        spec_match_events(split, accepted, path, content, matches[0]) + spec_events_of_matches(
            split,
            accepted,
            path,
            content,
            matches.drop_first(),
        )
    }
}

/// The events of one file: the whole content is searched as one buffer, so
/// a capture regex may match across lines and every match of a line counts;
/// each match contributes the unknown tokens of its capture group 1, on the
/// line where the match starts, numbered from 1.
pub open spec fn spec_file_events(
    capture: Seq<char>,
    split: Seq<char>,
    accepted: Set<Seq<char>>,
    path: Seq<char>,
    content: Seq<char>,
) -> Seq<EventModel> {
    spec_events_of_matches(split, accepted, path, content, captures_of(capture, content))
}

/// The unknown-class tokens of one captured blob, in order.
fn unknown_tokens(cfg: &CaptureConfig, accepted: &ClassSet, blob: &str) -> (r: Vec<String>)
    requires
        cfg.wf(),
    ensures
        r@.map_values(|s: String| s@) == spec_blob_unknown(cfg.split(), accepted@, blob@),
{
    let ghost pred = |t: Seq<char>| t.len() > 0 && !accepted@.contains(t);
    let mut out: Vec<String> = Vec::new();
    let pieces = split_with(cfg.split_pattern().as_str(), blob);
    let ghost pv = pieces@.map_values(|s: String| s@);
    let n = pieces.len();
    let mut i: usize = 0;
    proof {
        reveal(Seq::filter);
        assert(pv.take(0).filter(pred) =~= Seq::<Seq<char>>::empty());
        assert(out@.map_values(|s: String| s@) =~= pv.take(0).filter(pred));
    }
    while i < n
        invariant
            n == pieces@.len(),
            pv == pieces@.map_values(|s: String| s@),
            0 <= i <= n,
            out@.map_values(|s: String| s@) == pv.take(i as int).filter(pred),
            pred == (|t: Seq<char>| t.len() > 0 && !accepted@.contains(t)),
        decreases n - i,
    {
        let ghost before = out@.map_values(|s: String| s@);
        let piece = &pieces[i];
        if piece.as_str().unicode_len() > 0 && !accepted.contains(piece.as_str()) {
            out.push(piece.clone());
            proof {
                assert(out@.map_values(|s: String| s@) =~= before.push(pv[i as int]));
            }
        }
        proof {
            reveal(Seq::filter);
            let t = pv.take(i + 1 as int);
            assert(t.drop_last() =~= pv.take(i as int));
            assert(t.last() == pv[i as int]);
            assert(pv.take(i + 1 as int).filter(pred) == if pred(pv[i as int]) {
                pv.take(i as int).filter(pred).push(pv[i as int])
            } else {
                pv.take(i as int).filter(pred)
            });
        }
        i += 1;
    }
    proof {
        assert(pv.take(n as int) =~= pv);
    }
    out
}

/// Scans one file's content, as a single buffer, and reports every
/// unknown-class occurrence in it, in reading order.
pub fn report_unknown_classes(
    cfg: &CaptureConfig,
    accepted: &ClassSet,
    path: &str,
    content: &str,
) -> (r: Vec<UsageEvent>)
    requires
        cfg.wf(),
    ensures
        r@.map_values(|e: UsageEvent| e@) == spec_file_events(
            cfg.capture(),
            cfg.split(),
            accepted@,
            path@,
            content@,
        ),
{
    let ghost cap = cfg.capture();
    let ghost spl = cfg.split();
    let path_owned = path.to_owned();
    let matches = capture_all(cfg.capture_pattern().as_str(), content);
    let chars = to_chars(content);
    let ghost mv = matches@.map_values(|p: (usize, Option<String>)| capture_pair_view(p));
    let mut out: Vec<UsageEvent> = Vec::new();
    let n = matches.len();
    let mut i: usize = 0;
    proof {
        assert(mv.skip(0) =~= mv);
        assert(out@.map_values(|e: UsageEvent| e@) =~= Seq::<EventModel>::empty());
    }
    while i < n
        invariant
            n == matches@.len(),
            mv == matches@.map_values(|p: (usize, Option<String>)| capture_pair_view(p)),
            mv == captures_of(cap, content@),
            forall|k: int| 0 <= k < matches@.len() ==> (#[trigger] matches@[k]).0 <= content@.len(),
            chars@ == content@,
            cap == cfg.capture(),
            spl == cfg.split(),
            cfg.wf(),
            path_owned@ == path@,
            0 <= i <= n,
            out@.map_values(|e: UsageEvent| e@) + spec_events_of_matches(
                spl,
                accepted@,
                path@,
                content@,
                mv.skip(i as int),
            ) == spec_file_events(cap, spl, accepted@, path@, content@),
        decreases n - i,
    {
        proof {
            let rest = mv.skip(i as int);
            assert(rest[0] == mv[i as int]);
            assert(rest.drop_first() =~= mv.skip(i + 1 as int));
        }
        let ghost match_evts = spec_match_events(spl, accepted@, path@, content@, mv[i as int]);
        let current = &matches[i];
        let ghost out_at_match = out@.map_values(|e: UsageEvent| e@);
        match &current.1 {
            None => {
                proof {
                    assert(match_evts =~= Seq::<EventModel>::empty());
                    assert(out@.map_values(|e: UsageEvent| e@) =~= out_at_match + match_evts);
                }
            }
            Some(blob) => {
                let offset = current.0;
                let line = line_number_at(&chars, offset);
                let tokens = unknown_tokens(cfg, accepted, blob.as_str());
                let m = tokens.len();
                let mut j: usize = 0;
                proof {
                    assert(mv[i as int].1 == Some(blob@));
                    assert(match_evts.take(0) =~= Seq::<EventModel>::empty());
                    assert(out@.map_values(|e: UsageEvent| e@) =~= out_at_match + match_evts.take(
                        0,
                    ));
                }
                while j < m
                    invariant
                        m == tokens@.len(),
                        tokens@.map_values(|s: String| s@) == spec_blob_unknown(
                            spl,
                            accepted@,
                            blob@,
                        ),
                        match_evts == spec_match_events(spl, accepted@, path@, content@, mv[i as int]),
                        mv[i as int].1 == Some(blob@),
                        line as int == spec_line_number(content@, mv[i as int].0),
                        path_owned@ == path@,
                        0 <= j <= m,
                        out@.map_values(|e: UsageEvent| e@) == out_at_match + match_evts.take(
                            j as int,
                        ),
                    decreases m - j,
                {
                    let ghost before = out@.map_values(|e: UsageEvent| e@);
                    let event = UsageEvent {
                        line_number: line,
                        path: path_owned.clone(),
                        class: tokens[j].clone(),
                    };
                    proof {
                        assert(event@ =~= match_evts[j as int]);
                    }
                    out.push(event);
                    proof {
                        assert(out@.map_values(|e: UsageEvent| e@) =~= before.push(
                            match_evts[j as int],
                        ));
                        assert(match_evts.take(j + 1 as int) =~= match_evts.take(j as int).push(
                            match_evts[j as int],
                        ));
                    }
                    j += 1;
                }
                proof {
                    assert(match_evts.take(m as int) =~= match_evts);
                }
            }
        }
        i += 1;
    }
    proof {
        assert(mv.skip(n as int) =~= Seq::<(int, Option<Seq<char>>)>::empty());
        assert(out@.map_values(|e: UsageEvent| e@) + Seq::<EventModel>::empty() =~= out@.map_values(
            |e: UsageEvent| e@,
        ));
    }
    out
}

/// One unit of work for a pass: a path, and its content where it could be
/// read.
#[derive(Debug, Clone)]
pub struct FileInput {
    pub path: String,
    /// The file's text, or nothing when the file could not be read.
    pub content: Option<String>,
}

/// The mathematical shape of a unit of work.
#[verifier::ext_equal]
pub struct FileModel {
    pub path: Seq<char>,
    pub content: Option<Seq<char>>,
}

impl View for FileInput {
    type V = FileModel;

    open spec fn view(&self) -> FileModel {
        FileModel {
            path: self.path@,
            content: match self.content {
                Some(ref text) => Some(text@),
                None => None,
            },
        }
    }
}

/// The events of one unit of work: an unreadable file contributes nothing.
pub open spec fn spec_file_seq(
    capture: Seq<char>,
    split: Seq<char>,
    accepted: Set<Seq<char>>,
    f: FileModel,
) -> Seq<EventModel> {
    match f.content {
        None => Seq::empty(),
        Some(text) => spec_file_events(capture, split, accepted, f.path, text),
    }
}

/// All events of a pass, in file order.
pub open spec fn spec_pass_seq(
    capture: Seq<char>,
    split: Seq<char>,
    accepted: Set<Seq<char>>,
    files: Seq<FileModel>,
) -> Seq<EventModel>
    decreases files.len(),
{
    if files.len() == 0 {
        Seq::empty()
    } else {
        spec_pass_seq(capture, split, accepted, files.drop_last()) + spec_file_seq(
            capture,
            split,
            accepted,
            files.last(),
        )
    }
}

/// The unknown-class occurrences of a pass, as a set: the aggregate a pass
/// is judged by, independent of any completion order.
pub open spec fn spec_pass_events(
    capture: Seq<char>,
    split: Seq<char>,
    accepted: Set<Seq<char>>,
    files: Seq<FileModel>,
) -> Set<EventModel>
    decreases files.len(),
{
    if files.len() == 0 {
        Set::empty()
    } else {
        spec_pass_events(capture, split, accepted, files.drop_last()) + spec_file_seq(
            capture,
            split,
            accepted,
            files.last(),
        ).to_set()
    }
}

/// Concatenation turns into set union.
pub proof fn lemma_to_set_concat<A>(a: Seq<A>, b: Seq<A>)
    ensures
        (a + b).to_set() == a.to_set() + b.to_set(),
{
    assert forall|x: A| #[trigger] (a + b).to_set().contains(x) implies (a.to_set()
        + b.to_set()).contains(x) by {
        let i = choose|i: int| 0 <= i < (a + b).len() && (a + b)[i] == x;
        if i < a.len() {
            assert(a[i] == x);
        } else {
            assert(b[i - a.len()] == x);
        }
    }
    assert forall|x: A| (a.to_set() + b.to_set()).contains(x) implies #[trigger] (a
        + b).to_set().contains(x) by {
        if a.to_set().contains(x) {
            let i = choose|i: int| 0 <= i < a.len() && a[i] == x;
            assert((a + b)[i] == x);
        } else {
            let i = choose|i: int| 0 <= i < b.len() && b[i] == x;
            assert((a + b)[a.len() + i] == x);
        }
    }
    assert((a + b).to_set() =~= a.to_set() + b.to_set());
}

/// The event sequence of a pass carries exactly the event set of the pass.
pub proof fn lemma_pass_seq_to_set(
    capture: Seq<char>,
    split: Seq<char>,
    accepted: Set<Seq<char>>,
    files: Seq<FileModel>,
)
    ensures
        spec_pass_seq(capture, split, accepted, files).to_set() == spec_pass_events(
            capture,
            split,
            accepted,
            files,
        ),
    decreases files.len(),
{
    if files.len() == 0 {
        assert(spec_pass_seq(capture, split, accepted, files).to_set() =~= Set::<
            EventModel,
        >::empty());
    } else {
        lemma_pass_seq_to_set(capture, split, accepted, files.drop_last());
        lemma_to_set_concat(
            spec_pass_seq(capture, split, accepted, files.drop_last()),
            spec_file_seq(capture, split, accepted, files.last()),
        );
    }
}

/// Taking one unit of work out takes exactly its contribution out of the
/// aggregate.
pub proof fn lemma_pass_events_remove(
    capture: Seq<char>,
    split: Seq<char>,
    accepted: Set<Seq<char>>,
    files: Seq<FileModel>,
    i: int,
)
    requires
        0 <= i < files.len(),
    ensures
        spec_pass_events(capture, split, accepted, files) == spec_pass_events(
            capture,
            split,
            accepted,
            files.remove(i),
        ) + spec_file_seq(capture, split, accepted, files[i]).to_set(),
    decreases files.len(),
{
    let rest = files.drop_last();
    if i == files.len() - 1 {
        assert(files.remove(i) =~= rest);
    } else {
        lemma_pass_events_remove(capture, split, accepted, rest, i);
        assert(files.remove(i).drop_last() =~= rest.remove(i));
        assert(files.remove(i).last() == files.last());
        assert(spec_pass_events(capture, split, accepted, files) =~= spec_pass_events(
            capture,
            split,
            accepted,
            files.remove(i),
        ) + spec_file_seq(capture, split, accepted, files[i]).to_set());
    }
}

/// Partial failure leaves the rest of the aggregate untouched: a pass over
/// N files of which exactly the one at `i` is unreadable reports the same
/// unknown-class set as a pass over the other N - 1 files.
pub proof fn lemma_partial_failure(
    capture: Seq<char>,
    split: Seq<char>,
    accepted: Set<Seq<char>>,
    files: Seq<FileModel>,
    i: int,
)
    requires
        0 <= i < files.len(),
        files[i].content is None,
    ensures
        spec_pass_events(capture, split, accepted, files) == spec_pass_events(
            capture,
            split,
            accepted,
            files.remove(i),
        ),
{
    lemma_pass_events_remove(capture, split, accepted, files, i);
    assert(spec_file_seq(capture, split, accepted, files[i]).to_set() =~= Set::<
        EventModel,
    >::empty());
    assert(spec_pass_events(capture, split, accepted, files.remove(i)) + Set::<
        EventModel,
    >::empty() =~= spec_pass_events(capture, split, accepted, files.remove(i)));
}

/// Scanning is idempotent and order-independent: two passes over the same
/// units of work, however ordered, judge the same unknown-class set, and so
/// the same verdict. Rerunning the scheduler over an unchanged file set and
/// an unchanged accepted set changes nothing.
pub proof fn lemma_scan_idempotent(
    capture: Seq<char>,
    split: Seq<char>,
    accepted: Set<Seq<char>>,
    files1: Seq<FileModel>,
    files2: Seq<FileModel>,
)
    requires
        files1.to_multiset() == files2.to_multiset(),
    ensures
        spec_pass_events(capture, split, accepted, files1) == spec_pass_events(
            capture,
            split,
            accepted,
            files2,
        ),
    decreases files1.len(),
{
    files1.to_multiset_ensures();
    files2.to_multiset_ensures();
    if files1.len() == 0 {
        assert(files2.len() == 0);
    } else {
        let x = files1.last();
        let n1 = files1.len() - 1;
        assert(files1[n1] == x);
        assert(files1.to_multiset().count(x) > 0);
        assert(files2.contains(x));
        let j = choose|j: int| 0 <= j < files2.len() && files2[j] == x;
        assert(files1.drop_last() =~= files1.remove(n1));
        assert(files1.remove(n1).to_multiset() =~= files2.remove(j).to_multiset());
        lemma_scan_idempotent(capture, split, accepted, files1.drop_last(), files2.remove(j));
        lemma_pass_events_remove(capture, split, accepted, files2, j);
    }
}

/// What a pass concluded: the verdict, and every unknown-class occurrence
/// behind it. Built afresh on every pass; nothing survives into the next
/// one.
#[derive(Debug, Clone)]
pub struct ValidationOutcome {
    /// No unknown class was found.
    pub valid: bool,
    /// The unknown-class occurrences, in the order the pass met them.
    pub events: Vec<UsageEvent>,
}

impl ValidationOutcome {
    /// The occurrences as a set.
    pub open spec fn event_set(&self) -> Set<EventModel> {
        self.events@.map_values(|e: UsageEvent| e@).to_set()
    }
}

/// Runs the scan over every readable unit of work, in order, and judges the
/// aggregate. The accepted set is read-only for the whole pass.
pub fn validate_files(
    cfg: &CaptureConfig,
    accepted: &ClassSet,
    files: &Vec<FileInput>,
) -> (r: ValidationOutcome)
    requires
        cfg.wf(),
    ensures
        r.events@.map_values(|e: UsageEvent| e@) == spec_pass_seq(
            cfg.capture(),
            cfg.split(),
            accepted@,
            files@.map_values(|f: FileInput| f@),
        ),
        r.event_set() == spec_pass_events(
            cfg.capture(),
            cfg.split(),
            accepted@,
            files@.map_values(|f: FileInput| f@),
        ),
        r.valid <==> r.event_set().is_empty(),
{
    let ghost cap = cfg.capture();
    let ghost spl = cfg.split();
    let ghost fv = files@.map_values(|f: FileInput| f@);
    let mut events: Vec<UsageEvent> = Vec::new();
    let n = files.len();
    let mut i: usize = 0;
    proof {
        assert(events@.map_values(|e: UsageEvent| e@) =~= spec_pass_seq(
            cap,
            spl,
            accepted@,
            fv.take(0),
        ));
    }
    while i < n
        invariant
            n == files@.len(),
            fv == files@.map_values(|f: FileInput| f@),
            cap == cfg.capture(),
            spl == cfg.split(),
            cfg.wf(),
            0 <= i <= n,
            events@.map_values(|e: UsageEvent| e@) == spec_pass_seq(
                cap,
                spl,
                accepted@,
                fv.take(i as int),
            ),
        decreases n - i,
    {
        let ghost before = events@.map_values(|e: UsageEvent| e@);
        let file: &FileInput = &files[i];
        match &file.content {
            Some(text) => {
                let mut found = report_unknown_classes(
                    cfg,
                    accepted,
                    file.path.as_str(),
                    text.as_str(),
                );
                let ghost fseq = found@.map_values(|e: UsageEvent| e@);
                events.append(&mut found);
                proof {
                    assert(events@.map_values(|e: UsageEvent| e@) =~= before + fseq);
                    assert(fseq =~= spec_file_seq(cap, spl, accepted@, fv[i as int]));
                }
            }
            None => {
                proof {
                    assert(spec_file_seq(cap, spl, accepted@, fv[i as int]) =~= Seq::<
                        EventModel,
                    >::empty());
                    assert(events@.map_values(|e: UsageEvent| e@) =~= before + spec_file_seq(
                        cap,
                        spl,
                        accepted@,
                        fv[i as int],
                    ));
                }
            }
        }
        proof {
            let t = fv.take(i + 1 as int);
            assert(t.drop_last() =~= fv.take(i as int));
            assert(t.last() == fv[i as int]);
        }
        i += 1;
    }
    proof {
        assert(fv.take(n as int) =~= fv);
    }
    let valid = events.len() == 0;
    let outcome = ValidationOutcome { valid, events };
    proof {
        lemma_pass_seq_to_set(cap, spl, accepted@, fv);
        let es = outcome.events@.map_values(|e: UsageEvent| e@);
        if outcome.events@.len() == 0 {
            assert(es =~= Seq::<EventModel>::empty());
            assert forall|x: EventModel| !outcome.event_set().contains(x) by {
                assert(!es.contains(x));
            }
            assert(outcome.event_set() =~= Set::<EventModel>::empty());
        } else {
            assert(es.contains(es[0]));
            assert(outcome.event_set().contains(es[0]));
        }
    }
    outcome
}

/// One whole validation pass over pre-read inputs: checks the
/// configuration, loads the accepted set out of the CSS text, and scans.
///
/// Configuration failures come before any scanning, each if and only if its
/// input is at fault, checked in this order: the capture regex, the split
/// regex, the input glob, the stylesheet.
pub fn run_validation(
    capture_regex: &str,
    split_regex: &str,
    input_glob: &str,
    css_text: &str,
    files: &Vec<FileInput>,
) -> (r: Result<ValidationOutcome, Error>)
    ensures
        !regex_ok(capture_regex@) ==> r == Err::<ValidationOutcome, Error>(Error::CaptureRegex),
        regex_ok(capture_regex@) && !regex_ok(split_regex@) ==> r == Err::<
            ValidationOutcome,
            Error,
        >(Error::SplitRegex),
        regex_ok(capture_regex@) && regex_ok(split_regex@) && !glob_ok(input_glob@) ==> r == Err::<
            ValidationOutcome,
            Error,
        >(Error::GlobPattern),
        regex_ok(capture_regex@) && regex_ok(split_regex@) && glob_ok(input_glob@)
            && crate::classes_parser::css_class_set(css_text@).is_empty() ==> r == Err::<
            ValidationOutcome,
            Error,
        >(Error::Pyaco(crate::errors::Error::NoCssClassesFound)),
        r is Ok <==> regex_ok(capture_regex@) && regex_ok(split_regex@) && glob_ok(input_glob@)
            && !crate::classes_parser::css_class_set(css_text@).is_empty(),
        r matches Ok(outcome) ==> {
            &&& regex_ok(capture_regex@)
            &&& regex_ok(split_regex@)
            &&& glob_ok(input_glob@)
            &&& !crate::classes_parser::css_class_set(css_text@).is_empty()
            &&& outcome.event_set() == spec_pass_events(
                capture_regex@,
                split_regex@,
                crate::classes_parser::css_class_set(css_text@),
                files@.map_values(|f: FileInput| f@),
            )
            &&& (outcome.valid <==> outcome.event_set().is_empty())
        },
{
    let cfg = match CaptureConfig::new(capture_regex.to_owned(), split_regex.to_owned()) {
        Ok(cfg) => cfg,
        Err(e) => {
            return Err(e);
        }
    };
    if !glob_pattern_compiles(input_glob) {
        return Err(Error::GlobPattern);
    }
    let accepted = match crate::classes_parser::extract_classes_from_text(css_text) {
        Ok(accepted) => accepted,
        Err(e) => {
            return Err(Error::Pyaco(e));
        }
    };
    Ok(validate_files(&cfg, &accepted, files))
}

} // verus!
