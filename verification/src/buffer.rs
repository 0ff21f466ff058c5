//! The rolling buffer index: finalized chunk files on a buffer timeline, the fragment
//! currently being written, and the operator's mark.
use vstd::prelude::*;

use crate::text::{
    all_digits, decimal, digit_char, digits_value, is_digit,
    chars_end_with_str, chars_eq, chars_start_with_str, join_path, join_path_spec, parse_u32_spec,
    parse_u32_str, seq_ends_with, seq_starts_with, slice_chars, sort_strings, sort_texts, str_chars,
    texts_of,
    string_from_chars,
};

verus! {

/// Minimum buffered time, in milliseconds, before a replay is allowed (1.5 s).
pub const MIN_REPLAY_BUFFER_MS: u64 = 1500;

/// Mark position on the rolling buffer timeline (chunk + offset within chunk).
#[derive(Debug, PartialEq, Eq)]
pub struct BufferMark {
    pub chunk_id: String,
    pub offset_ms: u64,
    pub unix_ms: i64,
}

/// A finalized chunk file of the rolling buffer.
#[derive(Debug)]
pub struct ChunkEntry {
    pub id: String,
    pub path: String,
    pub start_unix_ms: i64,
    /// Start offset on the buffer timeline (ms from the session's first chunk).
    pub buffer_offset_ms: u64,
    pub duration_ms: u64,
}

/// The fragment the recorder is currently writing (not yet safe for replay).
#[derive(Debug)]
pub struct OpenFragment {
    pub chunk_id: String,
    pub path: String,
    pub opened_unix_ms: i64,
    pub buffer_offset_ms: u64,
}

/// Open fragment snapshot used to compute a mark without the index.
#[derive(Debug)]
pub struct OpenFragmentMarkInput {
    pub chunk_id: String,
    pub opened_unix_ms: i64,
}

impl Clone for BufferMark {
    fn clone(&self) -> (r: Self)
        ensures
            r == *self,
    {
        BufferMark { chunk_id: self.chunk_id.clone(), offset_ms: self.offset_ms, unix_ms: self.unix_ms }
    }
}

impl Clone for ChunkEntry {
    fn clone(&self) -> (r: Self)
        ensures
            r == *self,
    {
        ChunkEntry {
            id: self.id.clone(),
            path: self.path.clone(),
            start_unix_ms: self.start_unix_ms,
            buffer_offset_ms: self.buffer_offset_ms,
            duration_ms: self.duration_ms,
        }
    }
}

impl Clone for OpenFragmentMarkInput {
    fn clone(&self) -> (r: Self)
        ensures
            r == *self,
    {
        OpenFragmentMarkInput { chunk_id: self.chunk_id.clone(), opened_unix_ms: self.opened_unix_ms }
    }
}

// ---------------------------------------------------------------------------
// Clock and path helpers
// ---------------------------------------------------------------------------

/// Milliseconds since the Unix epoch from std's `SystemTime::now` (0 when the clock
/// reads before the epoch). Nothing is claimed of the value: it is the wall clock.
#[verifier::external_body]
pub(crate) fn unix_now_ms() -> (r: i64) {
    std::time::SystemTime::now().duration_since(std::time::UNIX_EPOCH).unwrap_or_default().as_millis() as i64
}

/// std's `Path::file_stem` of a path given as text (the final component without
/// its last extension), when it has one.
pub uninterp spec fn path_file_stem(path: Seq<char>) -> Option<Seq<char>>;

/// std's `Path == Path`: the two paths have the same components.
pub uninterp spec fn paths_match(a: Seq<char>, b: Seq<char>) -> bool;

/// Calls std's `Path::file_stem`; the contract names its result, a function of
/// the path text alone.
#[verifier::external_body]
fn file_stem_of(path: &str) -> (r: Option<String>)
    ensures
        match r {
            Some(s) => path_file_stem(path@) == Some(s@),
            None => path_file_stem(path@) is None,
        },
{
    std::path::Path::new(path).file_stem().map(|s| s.to_string_lossy().into_owned())
}

/// Calls std's `PartialEq` for `Path`; the contract names its result, a function
/// of the two path texts alone, and claims that a path equals itself (`Path`
/// implements `Eq`) and that equal paths have the same file stem (both compare
/// and take the final component of the same component list).
#[verifier::external_body]
fn same_path(a: &str, b: &str) -> (r: bool)
    ensures
        r == paths_match(a@, b@),
        a@ == b@ ==> r,
        r ==> path_file_stem(a@) == path_file_stem(b@),
{
    std::path::Path::new(a) == std::path::Path::new(b)
}

/// The chunk id of a chunk file path: the file stem after `chunk_`, or `00000`.
pub open spec fn chunk_id_spec(path: Seq<char>) -> Seq<char> {
    match path_file_stem(path) {
        Some(stem) => if seq_starts_with(stem, "chunk_"@) {
            stem.subrange(6, stem.len() as int)
        } else {
            "00000"@
        },
        None => "00000"@,
    }
}

/// Extract the numeric index text from `chunk_00042.mkv`, giving `00042`.
pub fn chunk_id_from_path(path: &str) -> (r: String)
    ensures
        r@ == chunk_id_spec(path@),
{
    proof {
        reveal_strlit("chunk_");
        reveal_strlit("00000");
    }
    match file_stem_of(path) {
        Some(stem) => {
            let v = str_chars(stem.as_str());
            if chars_start_with_str(&v, "chunk_") {
                let rest = slice_chars(&v, 6, v.len());
                string_from_chars(&rest)
            } else {
                String::from_str("00000")
            }
        },
        None => String::from_str("00000"),
    }
}

/// The number a chunk id stands for (0 when it is not a valid `u32`).
pub open spec fn chunk_index_spec(chunk_id: Seq<char>) -> u32 {
    match parse_u32_spec(chunk_id) {
        Some(n) => n,
        None => 0,
    }
}

pub fn parse_chunk_index(chunk_id: &str) -> (r: u32)
    ensures
        r == chunk_index_spec(chunk_id@),
{
    match parse_u32_str(chunk_id) {
        Some(n) => n,
        None => 0,
    }
}

/// `n` in decimal, padded on the left with zeros to at least `width` characters,
/// as a chunk number is written into a chunk file name.
pub open spec fn zero_padded(n: nat, width: nat) -> Seq<char> {
    let d = decimal(n);
    let pad: nat = if d.len() < width { (width - d.len()) as nat } else { 0 };
    Seq::new(pad, |i: int| '0') + d
}

proof fn lemma_digit_char(d: nat)
    requires
        d < 10,
    ensures
        is_digit(digit_char(d)),
        (digit_char(d) as int) - 48 == d,
{
    let x: u32 = (d + 48) as u32;
    assert(x == d + 48);
    assert(48 <= x <= 57);
    assert((x as char) as int == x);
}

proof fn lemma_decimal_digits(n: nat)
    ensures
        decimal(n).len() >= 1,
        all_digits(decimal(n)),
        digits_value(decimal(n)) == n,
    decreases n,
{
    if n < 10 {
        lemma_digit_char(n);
        let d = decimal(n);
        assert(d.drop_last() =~= Seq::<char>::empty());
        assert(digits_value(d.drop_last()) == 0);
        assert(d.last() == digit_char(n));
    } else {
        lemma_decimal_digits(n / 10);
        lemma_digit_char(n % 10);
        let d = decimal(n);
        assert(d.drop_last() =~= decimal(n / 10));
        assert(d.last() == digit_char(n % 10));
        assert(digits_value(d) == digits_value(decimal(n / 10)) * 10 + ((d.last() as int) - 48) as nat);
        assert((n / 10) * 10 + n % 10 == n);
        assert forall|i: int| 0 <= i < d.len() implies is_digit(#[trigger] d[i]) by {
            if i < d.len() - 1 {
                assert(d[i] == decimal(n / 10)[i]);
            }
        }
    }
}

proof fn lemma_zeros_value(k: nat)
    ensures
        all_digits(Seq::new(k, |i: int| '0')),
        digits_value(Seq::new(k, |i: int| '0')) == 0,
    decreases k,
{
    if k > 0 {
        lemma_zeros_value((k - 1) as nat);
        assert(Seq::new(k, |i: int| '0').drop_last() =~= Seq::new((k - 1) as nat, |i: int| '0'));
    }
}

proof fn lemma_leading_zeros(k: nat, s: Seq<char>)
    requires
        all_digits(s),
    ensures
        all_digits(Seq::new(k, |i: int| '0') + s),
        digits_value(Seq::new(k, |i: int| '0') + s) == digits_value(s),
    decreases s.len(),
{
    let z = Seq::new(k, |i: int| '0');
    lemma_zeros_value(k);
    if s.len() == 0 {
        assert(z + s =~= z);
    } else {
        assert forall|i: int| 0 <= i < s.len() - 1 implies is_digit(#[trigger] s.drop_last()[i]) by {
            assert(s.drop_last()[i] == s[i]);
        }
        lemma_leading_zeros(k, s.drop_last());
        assert((z + s).drop_last() =~= z + s.drop_last());
        assert((z + s).last() == s.last());
        assert forall|i: int| 0 <= i < (z + s).len() implies is_digit(#[trigger] (z + s)[i]) by {
            if i < z.len() {
                assert((z + s)[i] == z[i]);
            } else {
                assert((z + s)[i] == s[i - z.len()]);
            }
        }
    }
}

/// Parsing a chunk id written as a zero-padded number gives the number back.
pub proof fn law_padded_chunk_id_parses_back(n: u32, width: nat)
    ensures
        chunk_index_spec(zero_padded(n as nat, width)) == n,
{
    let d = decimal(n as nat);
    lemma_decimal_digits(n as nat);
    let pad: nat = if d.len() < width { (width - d.len()) as nat } else { 0 };
    lemma_leading_zeros(pad, d);
    let p = zero_padded(n as nat, width);
    assert(p == Seq::new(pad, |i: int| '0') + d);
    assert(is_digit(p[0]));
    assert(p[0] != '+');
}

/// `a - b`, clamped to the range of `i64`.
pub open spec fn saturating_sub_spec(a: i64, b: i64) -> i64 {
    if a - b > i64::MAX {
        i64::MAX
    } else if a - b < i64::MIN {
        i64::MIN
    } else {
        (a - b) as i64
    }
}

pub fn saturating_sub_i64(a: i64, b: i64) -> (r: i64)
    ensures
        r == saturating_sub_spec(a, b),
{
    if b < 0 {
        if a > i64::MAX + b {
            i64::MAX
        } else {
            a - b
        }
    } else {
        if a < i64::MIN + b {
            i64::MIN
        } else {
            a - b
        }
    }
}

// ---------------------------------------------------------------------------
// Marks
// ---------------------------------------------------------------------------

/// Message of a mark request when nothing has been recorded yet.
pub open spec fn no_fragment_message() -> Seq<char> {
    "no buffer fragment available to mark"@
}

/// The mark taken at wall-clock time `unix_ms`: inside the open fragment when there
/// is one, else at the start of the last finalized chunk, else none.
pub open spec fn timeline_mark_spec(
    open: Option<OpenFragmentMarkInput>,
    last_finalized: Option<Seq<char>>,
    unix_ms: i64,
) -> Option<(Seq<char>, u64, i64)> {
    match open {
        Some(o) => Some((o.chunk_id@, saturating_sub_spec(unix_ms, o.opened_unix_ms) as u64, unix_ms)),
        None => match last_finalized {
            Some(id) => Some((id, 0, unix_ms)),
            None => None,
        },
    }
}

/// The mark `m` is the one `timeline_mark_spec` gives.
pub open spec fn mark_matches(m: BufferMark, expected: (Seq<char>, u64, i64)) -> bool {
    m.chunk_id@ == expected.0 && m.offset_ms == expected.1 && m.unix_ms == expected.2
}

/// Whether `r` is the outcome of marking with `expected`.
pub open spec fn mark_outcome(
    r: Result<BufferMark, &'static str>,
    expected: Option<(Seq<char>, u64, i64)>,
) -> bool {
    match expected {
        Some(e) => r matches Ok(m) && mark_matches(m, e),
        None => r matches Err(msg) && msg@ == no_fragment_message(),
    }
}

/// The snapshot value behind an optional reference.
pub open spec fn input_of(open: Option<&OpenFragmentMarkInput>) -> Option<OpenFragmentMarkInput> {
    match open {
        Some(o) => Some(*o),
        None => None,
    }
}

/// The text behind an optional string slice.
pub open spec fn text_of(s: Option<&str>) -> Option<Seq<char>> {
    match s {
        Some(t) => Some(t@),
        None => None,
    }
}

/// The mark algorithm shared by the chunk-index worker and the snapshot path, at a
/// given wall-clock time.
pub fn timeline_mark_at(
    open: Option<&OpenFragmentMarkInput>,
    last_finalized_chunk_id: Option<&str>,
    unix_ms: i64,
) -> (r: Result<BufferMark, &'static str>)
    ensures
        mark_outcome(
            r,
            timeline_mark_spec(
                input_of(open),
                text_of(last_finalized_chunk_id),
                unix_ms,
            ),
        ),
{
    if let Some(open) = open {
        let offset_ms = saturating_sub_i64(unix_ms, open.opened_unix_ms) as u64;
        return Ok(BufferMark { chunk_id: open.chunk_id.clone(), offset_ms, unix_ms });
    }
    if let Some(chunk_id) = last_finalized_chunk_id {
        return Ok(BufferMark { chunk_id: String::from_str(chunk_id), offset_ms: 0, unix_ms });
    }
    proof {
        reveal_strlit("no buffer fragment available to mark");
    }
    Err("no buffer fragment available to mark")
}

/// Takes a mark now (reads the wall clock once).
pub fn timeline_mark_now(
    open: Option<&OpenFragmentMarkInput>,
    last_finalized_chunk_id: Option<&str>,
) -> (r: Result<BufferMark, &'static str>)
    ensures
        exists|t: i64|
            mark_outcome(
                r,
                #[trigger] timeline_mark_spec(
                    input_of(open),
                    text_of(last_finalized_chunk_id),
                    t,
                ),
            ),
{
    let now = unix_now_ms();
    timeline_mark_at(open, last_finalized_chunk_id, now)
}

// ---------------------------------------------------------------------------
// Chunk index
// ---------------------------------------------------------------------------

/// Sum of the durations of `entries`.
pub open spec fn total_duration(entries: Seq<ChunkEntry>) -> int
    decreases entries.len(),
{
    if entries.len() == 0 {
        0
    } else {
        total_duration(entries.drop_last()) + entries.last().duration_ms
    }
}

/// Paths of the entries whose chunk index is at least `min_index`, in order.
pub open spec fn paths_from_index(entries: Seq<ChunkEntry>, min_index: u32) -> Seq<String>
    decreases entries.len(),
{
    if entries.len() == 0 {
        Seq::empty()
    } else {
        let rest = paths_from_index(entries.drop_last(), min_index);
        if chunk_index_spec(entries.last().id@) >= min_index {
            rest.push(entries.last().path)
        } else {
            rest
        }
    }
}

/// Paths of the entries that end after `cutoff_ms` on the buffer timeline, in order.
pub open spec fn paths_ending_after(entries: Seq<ChunkEntry>, cutoff_ms: int) -> Seq<String>
    decreases entries.len(),
{
    if entries.len() == 0 {
        Seq::empty()
    } else {
        let rest = paths_ending_after(entries.drop_last(), cutoff_ms);
        if entries.last().buffer_offset_ms + entries.last().duration_ms > cutoff_ms {
            rest.push(entries.last().path)
        } else {
            rest
        }
    }
}

/// Paths of `entries`, in order.
pub open spec fn entry_paths(entries: Seq<ChunkEntry>) -> Seq<String> {
    entries.map_values(|e: ChunkEntry| e.path)
}

proof fn lemma_total_step(s: Seq<ChunkEntry>, i: int)
    requires
        0 <= i < s.len(),
    ensures
        total_duration(s.take(i + 1)) == total_duration(s.take(i)) + s[i].duration_ms,
{
    assert(s.take(i + 1).drop_last() =~= s.take(i));
}

proof fn lemma_total_split(s: Seq<ChunkEntry>, j: int)
    requires
        0 <= j <= s.len(),
    ensures
        total_duration(s) == total_duration(s.take(j)) + total_duration(s.skip(j)),
    decreases s.len(),
{
    if j == s.len() {
        assert(s.take(j) =~= s);
        assert(s.skip(j) =~= Seq::<ChunkEntry>::empty());
    } else {
        lemma_total_split(s.drop_last(), j);
        assert(s.drop_last().take(j) =~= s.take(j));
        assert(s.drop_last().skip(j) =~= s.skip(j).drop_last());
    }
}

proof fn lemma_total_nonneg(s: Seq<ChunkEntry>)
    ensures
        total_duration(s) >= 0,
    decreases s.len(),
{
    if s.len() > 0 {
        lemma_total_nonneg(s.drop_last());
    }
}

/// The rolling buffer index. Entries are kept oldest first; at most `max_entries`
/// are retained. `session_ms` is the end of the finalized timeline, counted from
/// the session's first chunk: eviction does not reduce it.
#[derive(Debug)]
pub struct ChunkIndex {
    entries: std::collections::VecDeque<ChunkEntry>,
    max_entries: usize,
    buffer_path: String,
    chunk_duration_ms: u64,
    session_ms: u64,
    open_fragment: Option<OpenFragment>,
    mark: Option<BufferMark>,
}

/// `e` is the entry that closing `location` with `duration_ms` records, given the
/// open fragment, the end of the session timeline and the wall-clock time: the
/// open fragment's identity and start when it is the same file, else an id derived
/// from the path, the current time and the end of the session timeline.
pub open spec fn closed_entry(
    e: ChunkEntry,
    open: Option<OpenFragment>,
    finalized_ms: int,
    location: String,
    duration_ms: u64,
    now: i64,
) -> bool {
    &&& e.path == location
    &&& e.id@ == chunk_id_spec(location@)
    &&& e.duration_ms == duration_ms
    &&& match open {
        Some(o) => if o.path@ == location@ || paths_match(o.path@, location@) {
            e.id == o.chunk_id && e.start_unix_ms == o.opened_unix_ms && e.buffer_offset_ms
                == o.buffer_offset_ms
        } else {
            e.id@ == chunk_id_spec(location@) && e.start_unix_ms == now && e.buffer_offset_ms
                == finalized_ms
        },
        None => e.id@ == chunk_id_spec(location@) && e.start_unix_ms == now && e.buffer_offset_ms
            == finalized_ms,
    }
}

/// The duration recorded for a closed fragment: the reported one, else the chunk length.
pub open spec fn effective_duration(duration_ms: Option<u64>, chunk_ms: u64) -> u64 {
    match duration_ms {
        Some(d) => d,
        None => chunk_ms,
    }
}

/// Number of oldest entries that retention evicts from `len` entries.
pub open spec fn evicted_count(len: int, max_entries: int) -> int {
    if len > max_entries {
        len - max_entries
    } else {
        0
    }
}

/// `new` is `old` after the recorder opened `location` at wall-clock time `now`.
pub open spec fn opened_step(old: ChunkIndex, new: ChunkIndex, location: String, now: i64) -> bool {
    &&& new.open_fragment_spec() matches Some(o) && o.chunk_id@ == chunk_id_spec(location@)
        && o.path == location && o.opened_unix_ms == now && o.buffer_offset_ms
        == old.timeline_end()
    &&& new.entry_seq() == old.entry_seq()
    &&& new.timeline_end() == old.timeline_end()
    &&& new.mark_spec() == old.mark_spec()
    &&& new.max_entry_count() == old.max_entry_count()
    &&& new.chunk_ms() == old.chunk_ms()
    &&& new.path_text() == old.path_text()
}

/// `new` is `old` after the fragment `location` was finalized with `duration_ms`
/// at wall-clock time `now`, `evicted` being the paths retention dropped.
pub open spec fn closed_step(
    old: ChunkIndex,
    new: ChunkIndex,
    location: String,
    duration_ms: Option<u64>,
    now: i64,
    evicted: Seq<String>,
) -> bool {
    let appended_len = old.entry_seq().len() + 1int;
    let k = evicted_count(appended_len, old.max_entry_count());
    &&& new.entry_seq().len() == appended_len - k
    &&& closed_entry(
        new.entry_seq().last(),
        old.open_fragment_spec(),
        old.timeline_end() as int,
        location,
        effective_duration(duration_ms, old.chunk_ms()),
        now,
    )
    &&& new.entry_seq() == old.entry_seq().push(new.entry_seq().last()).skip(k)
    &&& new.timeline_end() == old.timeline_end() + effective_duration(duration_ms, old.chunk_ms())
    &&& evicted == entry_paths(old.entry_seq().take(k))
    &&& new.open_fragment_spec() is None
    &&& new.mark_spec() == old.mark_spec()
    &&& new.max_entry_count() == old.max_entry_count()
    &&& new.chunk_ms() == old.chunk_ms()
    &&& new.path_text() == old.path_text()
}

impl ChunkIndex {
    /// The retained entries, oldest first.
    pub closed spec fn entry_seq(&self) -> Seq<ChunkEntry> {
        self.entries@
    }

    /// Maximum number of retained entries.
    pub closed spec fn max_entry_count(&self) -> int {
        self.max_entries as int
    }

    /// Nominal chunk length.
    pub closed spec fn chunk_ms(&self) -> u64 {
        self.chunk_duration_ms
    }

    /// Directory that holds the chunk files.
    pub closed spec fn path_text(&self) -> Seq<char> {
        self.buffer_path@
    }

    /// End of the finalized timeline, from the session's first chunk.
    pub closed spec fn timeline_end(&self) -> u64 {
        self.session_ms
    }

    /// The fragment being written, if any.
    pub closed spec fn open_fragment_spec(&self) -> Option<OpenFragment> {
        self.open_fragment
    }

    /// The stored mark, if any.
    pub closed spec fn mark_spec(&self) -> Option<BufferMark> {
        self.mark
    }

    /// Well-formedness: at least two entries are retained, chunks last at least a
    /// second, every retained chunk and the open fragment lie within the session
    /// timeline, the open fragment's id is that of its path, and the timeline
    /// arithmetic cannot overflow.
    pub open spec fn inv(&self) -> bool {
        &&& self.max_entry_count() >= 2
        &&& self.chunk_ms() >= 1000
        &&& total_duration(self.entry_seq()) + self.chunk_ms() <= u64::MAX
        &&& self.timeline_end() + self.chunk_ms() <= u64::MAX
        &&& forall|i: int|
            0 <= i < self.entry_seq().len() ==> #[trigger] self.entry_seq()[i].buffer_offset_ms
                + self.entry_seq()[i].duration_ms <= self.timeline_end()
        &&& (self.open_fragment_spec() matches Some(o) ==> o.buffer_offset_ms <= self.timeline_end()
            && o.chunk_id@ == chunk_id_spec(o.path@))
    }

    /// The finalized length of the buffer timeline.
    pub open spec fn finalized_spec(&self) -> int {
        total_duration(self.entry_seq())
    }

    /// Closing a fragment of `duration_ms` keeps the timeline arithmetic in range.
    pub open spec fn close_fits(&self, duration_ms: u64) -> bool {
        &&& self.finalized_spec() + duration_ms + self.chunk_ms() <= u64::MAX
        &&& self.timeline_end() + duration_ms + self.chunk_ms() <= u64::MAX
    }

    /// Elapsed time in the open fragment at `now`, capped at the chunk length.
    pub open spec fn open_elapsed_spec(&self, now: i64) -> u64 {
        match self.open_fragment_spec() {
            None => 0,
            Some(o) => {
                let e = saturating_sub_spec(now, o.opened_unix_ms) as u64;
                if e < self.chunk_ms() {
                    e
                } else {
                    self.chunk_ms()
                }
            },
        }
    }

    /// Current write position on the session timeline at `now`.
    pub open spec fn timeline_now_spec(&self, now: i64) -> int {
        self.timeline_end() + self.open_elapsed_spec(now)
    }

    /// Buffered time available for replay at `now`: the retained chunks plus the
    /// elapsed part of the open fragment.
    pub open spec fn available_spec(&self, now: i64) -> int {
        self.finalized_spec() + self.open_elapsed_spec(now)
    }

    /// The mark input that the open fragment provides.
    pub open spec fn open_mark_input(&self) -> Option<OpenFragmentMarkInput> {
        match self.open_fragment_spec() {
            Some(o) => Some(OpenFragmentMarkInput { chunk_id: o.chunk_id, opened_unix_ms: o.opened_unix_ms }),
            None => None,
        }
    }

    /// Id of the newest finalized chunk.
    pub open spec fn last_finalized_id(&self) -> Option<Seq<char>> {
        if self.entry_seq().len() > 0 {
            Some(self.entry_seq().last().id@)
        } else {
            None
        }
    }

    pub fn new(buffer_path: String, max_seconds: u32, chunk_seconds: u32) -> (r: Self)
        requires
            max_seconds / (if chunk_seconds > 1 { chunk_seconds } else { 1 }) + 2 <= usize::MAX,
        ensures
            r.inv(),
            r.entry_seq().len() == 0,
            r.max_entry_count() == max_seconds / (if chunk_seconds > 1 { chunk_seconds } else { 1 }) + 2,
            r.chunk_ms() == (if chunk_seconds > 1 { chunk_seconds } else { 1 }) * 1000,
            r.path_text() == buffer_path@,
            r.timeline_end() == 0,
            r.open_fragment_spec() is None,
            r.mark_spec() is None,
    {
        let cs: u32 = if chunk_seconds > 1 { chunk_seconds } else { 1 };
        let chunk_duration_ms = (cs as u64) * 1000;
        let max_entries = (max_seconds / cs) as usize + 2;
        ChunkIndex {
            entries: std::collections::VecDeque::new(),
            max_entries,
            buffer_path,
            chunk_duration_ms,
            session_ms: 0,
            open_fragment: None,
            mark: None,
        }
    }

    pub fn buffer_path(&self) -> (r: &str)
        ensures
            r@ == self.path_text(),
    {
        self.buffer_path.as_str()
    }

    pub fn chunk_duration_ms(&self) -> (r: u64)
        ensures
            r == self.chunk_ms(),
    {
        self.chunk_duration_ms
    }

    pub fn set_mark(&mut self, mark: BufferMark)
        ensures
            final(self).mark_spec() == Some(mark),
            final(self).entry_seq() == old(self).entry_seq(),
            final(self).timeline_end() == old(self).timeline_end(),
            final(self).open_fragment_spec() == old(self).open_fragment_spec(),
            final(self).max_entry_count() == old(self).max_entry_count(),
            final(self).chunk_ms() == old(self).chunk_ms(),
            final(self).path_text() == old(self).path_text(),
    {
        self.mark = Some(mark);
    }

    pub fn clear_mark(&mut self)
        ensures
            final(self).mark_spec() is None,
            final(self).entry_seq() == old(self).entry_seq(),
            final(self).timeline_end() == old(self).timeline_end(),
            final(self).open_fragment_spec() == old(self).open_fragment_spec(),
            final(self).max_entry_count() == old(self).max_entry_count(),
            final(self).chunk_ms() == old(self).chunk_ms(),
            final(self).path_text() == old(self).path_text(),
    {
        self.mark = None;
    }

    pub fn mark(&self) -> (r: Option<&BufferMark>)
        ensures
            match r {
                Some(m) => self.mark_spec() == Some(*m),
                None => self.mark_spec() is None,
            },
    {
        self.mark.as_ref()
    }

    pub fn entries(&self) -> (r: &std::collections::VecDeque<ChunkEntry>)
        ensures
            r@ == self.entry_seq(),
    {
        &self.entries
    }

    /// Sum of the durations of the finalized chunks.
    pub fn finalized_duration_ms(&self) -> (r: u64)
        requires
            self.inv(),
        ensures
            r == self.finalized_spec(),
    {
        let n = self.entries.len();
        let mut sum: u64 = 0;
        let mut i: usize = 0;
        proof {
            lemma_total_split(self.entries@, 0);
        }
        while i < n
            invariant
                n == self.entries@.len(),
                i <= n,
                sum == total_duration(self.entries@.take(i as int)),
                total_duration(self.entries@) + self.chunk_duration_ms <= u64::MAX,
            decreases n - i,
        {
            proof {
                lemma_total_step(self.entries@, i as int);
                lemma_total_split(self.entries@, i + 1);
                lemma_total_nonneg(self.entries@.skip(i + 1));
            }
            sum = sum + self.entries[i].duration_ms;
            i = i + 1;
        }
        assert(self.entries@.take(n as int) =~= self.entries@);
        sum
    }

    /// Records that the recorder opened a new fragment at wall-clock time `now`.
    pub fn on_fragment_opened_at(&mut self, location: String, now: i64)
        requires
            old(self).inv(),
        ensures
            final(self).inv(),
            final(self).open_fragment_spec() matches Some(o) && o.chunk_id@ == chunk_id_spec(location@)
                && o.path == location && o.opened_unix_ms == now && o.buffer_offset_ms
                == old(self).timeline_end(),
            final(self).entry_seq() == old(self).entry_seq(),
            final(self).timeline_end() == old(self).timeline_end(),
            final(self).mark_spec() == old(self).mark_spec(),
            final(self).max_entry_count() == old(self).max_entry_count(),
            final(self).chunk_ms() == old(self).chunk_ms(),
            final(self).path_text() == old(self).path_text(),
    {
        let chunk_id = chunk_id_from_path(location.as_str());
        let buffer_offset_ms = self.session_ms;
        self.open_fragment = Some(
            OpenFragment { chunk_id, path: location, opened_unix_ms: now, buffer_offset_ms },
        );
    }

    /// Records that the recorder opened a new fragment (reads the wall clock).
    pub fn on_fragment_opened(&mut self, location: String)
        requires
            old(self).inv(),
        ensures
            final(self).inv(),
            final(self).open_fragment_spec() matches Some(o) && o.chunk_id@ == chunk_id_spec(location@)
                && o.path == location && o.buffer_offset_ms == old(self).timeline_end(),
            final(self).entry_seq() == old(self).entry_seq(),
            final(self).timeline_end() == old(self).timeline_end(),
            final(self).mark_spec() == old(self).mark_spec(),
            final(self).max_entry_count() == old(self).max_entry_count(),
            final(self).chunk_ms() == old(self).chunk_ms(),
            final(self).path_text() == old(self).path_text(),
    {
        let now = unix_now_ms();
        self.on_fragment_opened_at(location, now);
    }

    /// Registers a finalized fragment at wall-clock time `now`, applies retention and
    /// returns the paths of the evicted (oldest) chunks, which the caller deletes.
    pub fn on_fragment_closed_at(&mut self, location: String, duration_ms: Option<u64>, now: i64) -> (evicted: Vec<String>)
        requires
            old(self).inv(),
            old(self).close_fits(
                match duration_ms {
                    Some(d) => d,
                    None => old(self).chunk_ms(),
                },
            ),
        ensures
            final(self).inv(),
            ({
                let d = match duration_ms {
                    Some(d) => d,
                    None => old(self).chunk_ms(),
                };
                let appended_len = old(self).entry_seq().len() + 1int;
                let k = evicted_count(appended_len, old(self).max_entry_count());
                &&& final(self).entry_seq().len() == appended_len - k
                &&& closed_entry(
                    final(self).entry_seq().last(),
                    old(self).open_fragment_spec(),
                    old(self).timeline_end() as int,
                    location,
                    effective_duration(duration_ms, old(self).chunk_ms()),
                    now,
                )
                &&& final(self).entry_seq() == old(self).entry_seq().push(
                    final(self).entry_seq().last(),
                ).skip(k)
                &&& evicted@ == entry_paths(old(self).entry_seq().take(k))
            }),
            final(self).timeline_end() == old(self).timeline_end() + effective_duration(
                duration_ms,
                old(self).chunk_ms(),
            ),
            final(self).open_fragment_spec() is None,
            final(self).mark_spec() == old(self).mark_spec(),
            final(self).max_entry_count() == old(self).max_entry_count(),
            final(self).chunk_ms() == old(self).chunk_ms(),
            final(self).path_text() == old(self).path_text(),
    {
        let duration_ms = match duration_ms {
            Some(d) => d,
            None => self.chunk_duration_ms,
        };
        let finalized = self.session_ms;
        let ghost old_open = self.open_fragment;
        let open = self.open_fragment.take();
        let entry = match open {
            Some(o) => {
                if same_path(o.path.as_str(), location.as_str()) {
                    ChunkEntry {
                        id: o.chunk_id,
                        path: location,
                        start_unix_ms: o.opened_unix_ms,
                        buffer_offset_ms: o.buffer_offset_ms,
                        duration_ms,
                    }
                } else {
                    let id = chunk_id_from_path(location.as_str());
                    ChunkEntry { id, path: location, start_unix_ms: now, buffer_offset_ms: finalized, duration_ms }
                }
            },
            None => {
                let id = chunk_id_from_path(location.as_str());
                ChunkEntry { id, path: location, start_unix_ms: now, buffer_offset_ms: finalized, duration_ms }
            },
        };
        let ghost new_entry = entry;
        let ghost appended = self.entries@.push(entry);
        proof {
            assert(appended.drop_last() =~= self.entries@);
        }
        self.entries.push_back(entry);
        self.session_ms = finalized + duration_ms;
        let ghost k = evicted_count(appended.len() as int, self.max_entries as int);
        let mut evicted: Vec<String> = Vec::new();
        let ghost mut j: int = 0;
        while self.entries.len() > self.max_entries
            invariant
                self.max_entries >= 2,
                self.max_entries == old(self).max_entries,
                self.open_fragment is None,
                self.chunk_duration_ms == old(self).chunk_duration_ms,
                self.session_ms == old(self).session_ms + duration_ms,
                self.mark == old(self).mark,
                self.buffer_path == old(self).buffer_path,
                0 <= j <= k,
                k == evicted_count(appended.len() as int, self.max_entries as int),
                self.entries@ == appended.skip(j),
                evicted@ == entry_paths(appended.take(j)),
            decreases self.entries@.len(),
        {
            let old_front = self.entries.pop_front();
            proof {
                assert(appended.skip(j).drop_first() =~= appended.skip(j + 1));
                assert(appended.take(j + 1) =~= appended.take(j).push(appended[j]));
                assert(entry_paths(appended.take(j + 1)) =~= entry_paths(appended.take(j)).push(appended[j].path));
                j = j + 1;
            }
            match old_front {
                Some(e) => evicted.push(e.path),
                None => {},
            }
        }
        proof {
            assert(j == k);
            lemma_total_split(appended, k);
            lemma_total_nonneg(appended.take(k));
            assert(appended.drop_last() =~= old(self).entries@);
            assert(total_duration(appended) == total_duration(old(self).entries@) + duration_ms);
            assert(appended.skip(k).last() == new_entry);
            if k > 0 {
                assert(appended.take(k) =~= old(self).entries@.take(k));
            } else {
                assert(appended.take(k) =~= old(self).entries@.take(k));
            }
            assert forall|i: int| 0 <= i < self.entries@.len() implies #[trigger] self.entries@[i].buffer_offset_ms
                + self.entries@[i].duration_ms <= self.session_ms by {
                assert(self.entries@[i] == appended[i + k]);
                if i + k < old(self).entries@.len() {
                    assert(appended[i + k] == old(self).entries@[i + k]);
                    assert(old(self).entry_seq()[i + k] == old(self).entries@[i + k]);
                }
            }
        }
        evicted
    }
    /// Whether closing a fragment of `duration_ms` (the chunk length when `None`)
    /// keeps the timeline arithmetic in range; callers check this before
    /// `on_fragment_closed`.
    pub fn close_fits_exec(&self, duration_ms: Option<u64>) -> (r: bool)
        requires
            self.inv(),
        ensures
            r == self.close_fits(
                match duration_ms {
                    Some(d) => d,
                    None => self.chunk_ms(),
                },
            ),
    {
        let d = match duration_ms {
            Some(d) => d,
            None => self.chunk_duration_ms,
        };
        let total = self.finalized_duration_ms();
        if d > u64::MAX - self.chunk_duration_ms || total > u64::MAX - self.chunk_duration_ms - d {
            return false;
        }
        self.session_ms <= u64::MAX - self.chunk_duration_ms - d
    }

    /// Registers a finalized fragment (reads the wall clock), applies retention and
    /// returns the paths of the evicted chunks, which the caller deletes.
    pub fn on_fragment_closed(&mut self, location: String, duration_ms: Option<u64>) -> (evicted: Vec<String>)
        requires
            old(self).inv(),
            old(self).close_fits(
                match duration_ms {
                    Some(d) => d,
                    None => old(self).chunk_ms(),
                },
            ),
        ensures
            final(self).inv(),
            exists|now: i64|
                {
                    let appended_len = old(self).entry_seq().len() + 1int;
                    let k = evicted_count(appended_len, old(self).max_entry_count());
                    &&& final(self).entry_seq().len() == appended_len - k
                    &&& #[trigger] closed_entry(
                        final(self).entry_seq().last(),
                        old(self).open_fragment_spec(),
                        old(self).timeline_end() as int,
                        location,
                        effective_duration(duration_ms, old(self).chunk_ms()),
                        now,
                    )
                    &&& final(self).entry_seq() == old(self).entry_seq().push(
                        final(self).entry_seq().last(),
                    ).skip(k)
                    &&& evicted@ == entry_paths(old(self).entry_seq().take(k))
                },
            final(self).timeline_end() == old(self).timeline_end() + effective_duration(
                duration_ms,
                old(self).chunk_ms(),
            ),
            final(self).open_fragment_spec() is None,
            final(self).mark_spec() == old(self).mark_spec(),
            final(self).max_entry_count() == old(self).max_entry_count(),
            final(self).chunk_ms() == old(self).chunk_ms(),
            final(self).path_text() == old(self).path_text(),
    {
        let now = unix_now_ms();
        self.on_fragment_closed_at(location, duration_ms, now)
    }

    /// Elapsed time in the open fragment at `now`, capped at the chunk length.
    pub fn open_fragment_elapsed_ms_at(&self, now: i64) -> (r: u64)
        ensures
            r == self.open_elapsed_spec(now),
    {
        match &self.open_fragment {
            None => 0,
            Some(open) => {
                let elapsed = saturating_sub_i64(now, open.opened_unix_ms) as u64;
                if elapsed < self.chunk_duration_ms {
                    elapsed
                } else {
                    self.chunk_duration_ms
                }
            },
        }
    }

    /// Current write position on the session timeline at `now`.
    pub fn buffer_timeline_now_ms_at(&self, now: i64) -> (r: u64)
        requires
            self.inv(),
        ensures
            r == self.timeline_now_spec(now),
    {
        let e = self.open_fragment_elapsed_ms_at(now);
        self.session_ms + e
    }

    /// Current write position on the buffer timeline (reads the wall clock).
    pub fn buffer_timeline_now_ms(&self) -> (r: u64)
        requires
            self.inv(),
        ensures
            exists|now: i64| r == #[trigger] self.timeline_now_spec(now),
            self.timeline_end() <= r <= self.timeline_end() + self.chunk_ms(),
    {
        let now = unix_now_ms();
        self.buffer_timeline_now_ms_at(now)
    }

    /// Buffered milliseconds available for replay at `now`: finalized plus the
    /// elapsed part of the open fragment.
    pub fn available_ms_at(&self, now: i64) -> (r: u64)
        requires
            self.inv(),
        ensures
            r == self.available_spec(now),
    {
        let f = self.finalized_duration_ms();
        let e = self.open_fragment_elapsed_ms_at(now);
        f + e
    }

    /// The mark at the current write position at wall-clock time `now` (open
    /// fragment preferred, else the newest finalized chunk).
    pub fn create_mark_at(&self, now: i64) -> (r: Result<BufferMark, &'static str>)
        ensures
            mark_outcome(r, timeline_mark_spec(self.open_mark_input(), self.last_finalized_id(), now)),
    {
        let open = match &self.open_fragment {
            Some(o) => Some(OpenFragmentMarkInput { chunk_id: o.chunk_id.clone(), opened_unix_ms: o.opened_unix_ms }),
            None => None,
        };
        let n = self.entries.len();
        if n > 0 {
            let last_id = self.entries[n - 1].id.as_str();
            timeline_mark_at(open.as_ref(), Some(last_id), now)
        } else {
            timeline_mark_at(open.as_ref(), None, now)
        }
    }

    /// The mark at the current write position (reads the wall clock).
    pub fn create_mark(&self) -> (r: Result<BufferMark, &'static str>)
        ensures
            exists|now: i64|
                mark_outcome(
                    r,
                    #[trigger] timeline_mark_spec(self.open_mark_input(), self.last_finalized_id(), now),
                ),
    {
        let now = unix_now_ms();
        self.create_mark_at(now)
    }

    /// Id of the newest finalized chunk, if any.
    pub fn last_entry_id(&self) -> (r: Option<String>)
        ensures
            match r {
                Some(id) => self.last_finalized_id() == Some(id@),
                None => self.last_finalized_id() is None,
            },
    {
        let n = self.entries.len();
        if n > 0 {
            Some(self.entries[n - 1].id.clone())
        } else {
            None
        }
    }

    /// What persisting the index writes: the retained entries, oldest first, and
    /// the stored mark.
    pub fn persist_index(&self) -> (r: (Vec<ChunkEntry>, Option<BufferMark>))
        ensures
            r.0@ == self.entry_seq(),
            r.1 == self.mark_spec(),
    {
        let mut out: Vec<ChunkEntry> = Vec::new();
        let mut i: usize = 0;
        while i < self.entries.len()
            invariant
                i <= self.entries@.len(),
                out@ == self.entries@.take(i as int),
            decreases self.entries@.len() - i,
        {
            out.push(self.entries[i].clone());
            proof {
                assert(self.entries@.take(i + 1) =~= self.entries@.take(i as int).push(self.entries@[i as int]));
            }
            i = i + 1;
        }
        assert(self.entries@.take(self.entries@.len() as int) =~= self.entries@);
        let mark = match &self.mark {
            Some(m) => Some(m.clone()),
            None => None,
        };
        (out, mark)
    }

    pub fn has_markable_fragment(&self) -> (r: bool)
        ensures
            r == (self.open_fragment_spec() is Some || self.entry_seq().len() > 0),
    {
        self.open_fragment.is_some() || self.entries.len() > 0
    }

    /// Paths of the retained chunks from the mark's chunk onwards, oldest first.
    pub fn segments_from_mark(&self, mark: &BufferMark) -> (r: Vec<String>)
        ensures
            r@ == paths_from_index(self.entry_seq(), chunk_index_spec(mark.chunk_id@)),
    {
        let mark_idx = parse_chunk_index(mark.chunk_id.as_str());
        let n = self.entries.len();
        let mut paths: Vec<String> = Vec::new();
        let mut i: usize = 0;
        while i < n
            invariant
                n == self.entries@.len(),
                i <= n,
                mark_idx == chunk_index_spec(mark.chunk_id@),
                paths@ == paths_from_index(self.entries@.take(i as int), mark_idx),
            decreases n - i,
        {
            let e = &self.entries[i];
            proof {
                assert(self.entries@.take(i + 1).drop_last() =~= self.entries@.take(i as int));
            }
            if parse_chunk_index(e.id.as_str()) >= mark_idx {
                paths.push(e.path.clone());
            }
            i = i + 1;
        }
        assert(self.entries@.take(n as int) =~= self.entries@);
        paths
    }

    /// Paths from the stored mark onwards; empty when no mark is stored.
    pub fn segments_from_buffer_mark(&self) -> (r: Vec<String>)
        ensures
            r@ == match self.mark_spec() {
                Some(m) => paths_from_index(self.entry_seq(), chunk_index_spec(m.chunk_id@)),
                None => Seq::empty(),
            },
    {
        match &self.mark {
            Some(m) => self.segments_from_mark(m),
            None => Vec::new(),
        }
    }

    /// The segments from the stored mark and the mark's offset into its chunk
    /// (no segments and offset 0 without a mark).
    pub fn segments_and_offset_from_mark(&self) -> (r: (Vec<String>, u64))
        ensures
            r.0@ == match self.mark_spec() {
                Some(m) => paths_from_index(self.entry_seq(), chunk_index_spec(m.chunk_id@)),
                None => Seq::empty(),
            },
            r.1 == match self.mark_spec() {
                Some(m) => m.offset_ms,
                None => 0,
            },
    {
        let offset = match &self.mark {
            Some(m) => m.offset_ms,
            None => 0,
        };
        (self.segments_from_buffer_mark(), offset)
    }

    /// What `segments_last_seconds` returns at wall-clock time `now`.
    pub open spec fn last_seconds_spec(&self, seconds: u32, now: i64) -> Seq<String> {
        let now_ms = self.timeline_now_spec(now);
        let cutoff = if now_ms - seconds * 1000 < 0 {
            0
        } else {
            now_ms - seconds * 1000
        };
        paths_ending_after(self.entry_seq(), cutoff)
    }

    /// Paths of the chunks that end within the last `seconds` of the timeline at `now`.
    pub fn segments_last_seconds_at(&self, seconds: u32, now: i64) -> (r: Vec<String>)
        requires
            self.inv(),
        ensures
            r@ == self.last_seconds_spec(seconds, now),
    {
        let now_ms = self.buffer_timeline_now_ms_at(now);
        let cutoff_ms = now_ms.saturating_sub((seconds as u64) * 1000);
        let n = self.entries.len();
        let mut paths: Vec<String> = Vec::new();
        let mut i: usize = 0;
        while i < n
            invariant
                n == self.entries@.len(),
                i <= n,
                self.inv(),
                cutoff_ms == (if now_ms - seconds * 1000 < 0 {
                    0
                } else {
                    now_ms - seconds * 1000
                }),
                paths@ == paths_ending_after(self.entries@.take(i as int), cutoff_ms as int),
            decreases n - i,
        {
            let e = &self.entries[i];
            proof {
                assert(self.entries@.take(i + 1).drop_last() =~= self.entries@.take(i as int));
                assert(self.entry_seq()[i as int] == self.entries@[i as int]);
            }
            if e.buffer_offset_ms + e.duration_ms > cutoff_ms {
                paths.push(e.path.clone());
            }
            i = i + 1;
        }
        assert(self.entries@.take(n as int) =~= self.entries@);
        paths
    }

    /// Paths of the chunks that end within the last `seconds` (reads the wall clock).
    pub fn segments_last_seconds(&self, seconds: u32) -> (r: Vec<String>)
        requires
            self.inv(),
        ensures
            exists|now: i64| r@ == #[trigger] self.last_seconds_spec(seconds, now),
            self.open_fragment_spec() is None ==> r@ == self.last_seconds_spec(seconds, 0),
    {
        let now = unix_now_ms();
        self.segments_last_seconds_at(seconds, now)
    }
}

// ---------------------------------------------------------------------------
// Recovering the index from disk
// ---------------------------------------------------------------------------

/// A directory entry name that is a chunk file: `chunk_…` with extension `mkv`.
pub open spec fn is_chunk_file_name(name: Seq<char>) -> bool {
    seq_starts_with(name, "chunk_"@) && seq_ends_with(name, ".mkv"@)
}

/// The chunk file names among `names`, in order.
pub open spec fn chunk_file_names(names: Seq<Seq<char>>) -> Seq<Seq<char>>
    decreases names.len(),
{
    if names.len() == 0 {
        Seq::empty()
    } else if is_chunk_file_name(names.last()) {
        chunk_file_names(names.drop_last()).push(names.last())
    } else {
        chunk_file_names(names.drop_last())
    }
}

/// The chunk files of a directory listing `names`, as paths under `dir`, in
/// ascending name order.
pub open spec fn ingest_candidates(dir: Seq<char>, names: Seq<Seq<char>>) -> Seq<Seq<char>> {
    sort_texts(chunk_file_names(names)).map_values(|n: Seq<char>| join_path_spec(dir, n))
}

/// The chunk files among the names of a directory listing, as paths under `dir`,
/// in ascending name order.
pub fn chunk_file_candidates(dir: &str, names: Vec<String>) -> (r: Vec<String>)
    ensures
        texts_of(r@) == ingest_candidates(dir@, texts_of(names@)),
{
    let ghost orig = names@;
    let mut kept: Vec<String> = Vec::new();
    for name in it: names.into_iter()
        invariant
            it.seq() == orig,
            texts_of(kept@) == chunk_file_names(texts_of(orig.take(it.index() as int))),
    {
        proof {
            assert(texts_of(orig.take(it.index() + 1)).drop_last() =~= texts_of(orig.take(it.index() as int)));
            assert(texts_of(orig.take(it.index() + 1)).last() == name@);
        }
        let v = str_chars(name.as_str());
        if chars_start_with_str(&v, "chunk_") && chars_end_with_str(&v, ".mkv") {
            let ghost before = kept@;
            kept.push(name);
            proof {
                assert(texts_of(kept@) =~= texts_of(before).push(kept@.last()@));
            }
        }
    }
    assert(orig.take(orig.len() as int) =~= orig);
    let sorted = sort_strings(kept);
    let mut out: Vec<String> = Vec::new();
    let mut i: usize = 0;
    while i < sorted.len()
        invariant
            i <= sorted@.len(),
            texts_of(out@) == texts_of(sorted@).take(i as int).map_values(
                |n: Seq<char>| join_path_spec(dir@, n),
            ),
        decreases sorted@.len() - i,
    {
        let p = join_path(dir, sorted[i].as_str());
        let ghost before = out@;
        out.push(p);
        proof {
            assert(texts_of(out@) =~= texts_of(before).push(p@));
            assert(texts_of(sorted@)[i as int] == sorted@[i as int]@);
            assert(texts_of(sorted@).take(i + 1) =~= texts_of(sorted@).take(i as int).push(
                texts_of(sorted@)[i as int],
            ));
        }
        i = i + 1;
    }
    assert(texts_of(sorted@).take(sorted@.len() as int) =~= texts_of(sorted@));
    out
}

/// The index holds an entry with chunk id `id`.
pub open spec fn index_has_id(index: ChunkIndex, id: Seq<char>) -> bool {
    exists|i: int| 0 <= i < index.entry_seq().len() && (#[trigger] index.entry_seq()[i]).id@ == id
}

/// One step of registering a chunk file found on disk: skipped when its id is
/// already indexed (or the timeline would overflow), else closed with the chunk
/// length.
pub open spec fn ingest_step(a: ChunkIndex, b: ChunkIndex, path: String, now: i64, ev: Seq<String>) -> bool {
    if index_has_id(a, chunk_id_spec(path@)) || !a.close_fits(a.chunk_ms()) {
        b == a && ev.len() == 0
    } else {
        closed_step(a, b, path, Some(a.chunk_ms()), now, ev)
    }
}

/// `states` is the run of the steps for `paths`, in order, at wall-clock time
/// `now`: state `i + 1` follows state `i` by the step for `paths[i]`, which
/// evicted `evs[i]`.
pub open spec fn ingest_trace(
    paths: Seq<String>,
    states: Seq<ChunkIndex>,
    evs: Seq<Seq<String>>,
    now: i64,
) -> bool {
    &&& states.len() == paths.len() + 1
    &&& evs.len() == paths.len()
    &&& forall|i: int|
        0 <= i < paths.len() ==> (#[trigger] states[i]).inv() && ingest_step(
            states[i],
            states[i + 1],
            paths[i],
            now,
            evs[i],
        )
}

proof fn lemma_trace_extend(
    paths: Seq<String>,
    states: Seq<ChunkIndex>,
    evs: Seq<Seq<String>>,
    now: i64,
    next: ChunkIndex,
    e2: Seq<String>,
    path: String,
)
    requires
        ingest_trace(paths, states, evs, now),
        states.last().inv(),
        ingest_step(states.last(), next, path, now, e2),
    ensures
        ingest_trace(paths.push(path), states.push(next), evs.push(e2), now),
{
    let p2 = paths.push(path);
    let s2 = states.push(next);
    let e22 = evs.push(e2);
    assert forall|k: int| 0 <= k < p2.len() implies (#[trigger] s2[k]).inv() && ingest_step(
        s2[k],
        s2[k + 1],
        p2[k],
        now,
        e22[k],
    ) by {
        if k < paths.len() {
            assert(s2[k] == states[k] && s2[k + 1] == states[k + 1]);
            assert(e22[k] == evs[k] && p2[k] == paths[k]);
        } else {
            assert(s2[k] == states.last());
        }
    }
}

impl ChunkIndex {
    /// Whether an entry has the chunk id `id`.
    pub fn has_entry_id(&self, id: &str) -> (r: bool)
        ensures
            r == index_has_id(*self, id@),
    {
        let want = str_chars(id);
        let mut i: usize = 0;
        while i < self.entries.len()
            invariant
                i <= self.entries@.len(),
                want@ == id@,
                forall|k: int| 0 <= k < i ==> (#[trigger] self.entries@[k]).id@ != id@,
            decreases self.entries@.len() - i,
        {
            let v = str_chars(self.entries[i].id.as_str());
            if chars_eq(&v, &want) {
                assert(self.entry_seq()[i as int].id@ == id@);
                return true;
            }
            i = i + 1;
        }
        proof {
            if index_has_id(*self, id@) {
                let k = choose|k: int| 0 <= k < self.entry_seq().len() && (#[trigger] self.entry_seq()[k]).id@ == id@;
                assert(self.entries@[k].id@ != id@);
            }
        }
        false
    }

    /// Registers the chunk files found in the buffer directory (the names of its
    /// listing) that the index does not know yet, oldest name first, as closed
    /// chunks of the nominal length at wall-clock time `now`; returns the paths
    /// retention evicted. A file whose registration would overflow the timeline is
    /// skipped.
    pub fn ingest_closed_fragments_at(&mut self, names: Vec<String>, now: i64) -> (evicted: Vec<String>)
        requires
            old(self).inv(),
        ensures
            final(self).inv(),
            exists|paths: Seq<String>, states: Seq<ChunkIndex>, evs: Seq<Seq<String>>|
                #[trigger] ingest_trace(paths, states, evs, now) && texts_of(paths) == ingest_candidates(
                    old(self).path_text(),
                    texts_of(names@),
                ) && states[0] == *old(self) && states.last() == *final(self) && evicted@
                    == evs.flatten(),
    {
        let cands = chunk_file_candidates(self.buffer_path.as_str(), names);
        let mut evicted: Vec<String> = Vec::new();
        let mut i: usize = 0;
        let ghost start = *self;
        let ghost mut states: Seq<ChunkIndex> = seq![*self];
        let ghost mut evs: Seq<Seq<String>> = Seq::empty();
        proof {
            assert(evs.flatten() =~= Seq::<String>::empty());
        }
        while i < cands.len()
            invariant
                i <= cands@.len(),
                self.inv(),
                self.path_text() == start.path_text(),
                ingest_trace(cands@.take(i as int), states, evs, now),
                states[0] == start,
                states.last() == *self,
                evicted@ == evs.flatten(),
            decreases cands@.len() - i,
        {
            let path = cands[i].clone();
            let ghost m = *self;
            let ghost e1 = evicted@;
            let ghost mut e2: Seq<String> = Seq::empty();
            let id = chunk_id_from_path(path.as_str());
            let known = self.has_entry_id(id.as_str());
            let fits = self.close_fits_exec(Some(self.chunk_duration_ms));
            if !known && fits {
                let mut more = self.on_fragment_closed_at(path, Some(self.chunk_duration_ms), now);
                proof {
                    e2 = more@;
                }
                evicted.append(&mut more);
            }
            proof {
                assert(evicted@ =~= e1 + e2);
                evs.lemma_flatten_push(e2);
                lemma_trace_extend(cands@.take(i as int), states, evs, now, *self, e2, cands@[i as int]);
                assert(cands@.take(i + 1) =~= cands@.take(i as int).push(cands@[i as int]));
                states = states.push(*self);
                evs = evs.push(e2);
            }
            i = i + 1;
        }
        assert(cands@.take(cands@.len() as int) =~= cands@);
        evicted
    }

    /// Registers the chunk files found in the buffer directory (reads the clock).
    pub fn ingest_closed_fragments(&mut self, names: Vec<String>) -> (evicted: Vec<String>)
        requires
            old(self).inv(),
        ensures
            final(self).inv(),
            exists|paths: Seq<String>, states: Seq<ChunkIndex>, evs: Seq<Seq<String>>, now: i64|
                #[trigger] ingest_trace(paths, states, evs, now) && texts_of(paths) == ingest_candidates(
                    old(self).path_text(),
                    texts_of(names@),
                ) && states[0] == *old(self) && states.last() == *final(self) && evicted@
                    == evs.flatten(),
    {
        let now = unix_now_ms();
        self.ingest_closed_fragments_at(names, now)
    }
}

/// The saved entries whose chunk file is still on disk with some content (the
/// file size paired with each), in order.
pub open spec fn kept_entries(saved: Seq<(ChunkEntry, u64)>) -> Seq<ChunkEntry>
    decreases saved.len(),
{
    if saved.len() == 0 {
        Seq::empty()
    } else if saved.last().1 > 0 {
        kept_entries(saved.drop_last()).push(saved.last().0)
    } else {
        kept_entries(saved.drop_last())
    }
}

/// The end of the session timeline after restoring `extra` onto a timeline that
/// ended at `start`: the latest end among them.
pub open spec fn restored_end(start: int, extra: Seq<ChunkEntry>) -> int
    decreases extra.len(),
{
    if extra.len() == 0 {
        start
    } else {
        let m = restored_end(start, extra.drop_last());
        let e = extra.last().buffer_offset_ms + extra.last().duration_ms;
        if e > m {
            e
        } else {
            m
        }
    }
}

impl ChunkIndex {
    /// Appending `extra` keeps the timeline arithmetic in range.
    pub open spec fn appendable(&self, extra: Seq<ChunkEntry>) -> bool {
        &&& total_duration(self.entry_seq() + extra) + self.chunk_ms() <= u64::MAX
        &&& forall|i: int|
            0 <= i < extra.len() ==> #[trigger] extra[i].buffer_offset_ms + extra[i].duration_ms
                + self.chunk_ms() <= u64::MAX
    }

    /// Whether the saved entries that are still on disk can be restored.
    pub fn can_restore(&self, saved: &Vec<(ChunkEntry, u64)>) -> (r: bool)
        requires
            self.inv(),
        ensures
            r == self.appendable(kept_entries(saved@)),
    {
        let limit = u64::MAX - self.chunk_duration_ms;
        let mut sum = self.finalized_duration_ms();
        let mut i: usize = 0;
        proof {
            assert(self.entry_seq() + kept_entries(saved@.take(0)) =~= self.entry_seq());
        }
        while i < saved.len()
            invariant
                i <= saved@.len(),
                self.inv(),
                limit == u64::MAX - self.chunk_ms(),
                sum == total_duration(self.entry_seq() + kept_entries(saved@.take(i as int))),
                sum <= limit,
                self.appendable(kept_entries(saved@.take(i as int))),
            decreases saved@.len() - i,
        {
            let ghost k0 = kept_entries(saved@.take(i as int));
            proof {
                assert(saved@.take(i + 1).drop_last() =~= saved@.take(i as int));
                assert(saved@.take(i + 1).last() == saved@[i as int]);
            }
            let (e, size) = (&saved[i].0, saved[i].1);
            if size > 0 {
                if e.duration_ms > limit || e.buffer_offset_ms > limit - e.duration_ms {
                    proof {
                        let k1 = kept_entries(saved@.take(i + 1));
                        assert(k1 == k0.push(*e));
                        lemma_appendable_prefix(*self, saved@, i + 1, (saved@.len()) as int);
                        assert(k1[k0.len() as int] == *e);
                        if self.appendable(kept_entries(saved@)) {
                            assert(self.appendable(k1));
                            assert(k1[k0.len() as int].buffer_offset_ms + k1[k0.len() as int].duration_ms
                                + self.chunk_ms() <= u64::MAX);
                        }
                    }
                    return false;
                }
                if sum > limit - e.duration_ms {
                    proof {
                        let k1 = kept_entries(saved@.take(i + 1));
                        assert((self.entry_seq() + k1).drop_last() =~= self.entry_seq() + k0);
                        lemma_appendable_prefix(*self, saved@, i + 1, (saved@.len()) as int);
                    }
                    return false;
                }
                sum = sum + e.duration_ms;
                proof {
                    let k1 = kept_entries(saved@.take(i + 1));
                    assert((self.entry_seq() + k1).drop_last() =~= self.entry_seq() + k0);
                    assert forall|j: int| 0 <= j < k1.len() implies #[trigger] k1[j].buffer_offset_ms
                        + k1[j].duration_ms + self.chunk_ms() <= u64::MAX by {
                        if j < k0.len() {
                            assert(k1[j] == k0[j]);
                        }
                    }
                }
            }
            i = i + 1;
        }
        assert(saved@.take(saved@.len() as int) =~= saved@);
        true
    }

    /// Restores saved entries whose chunk files are still on disk with some
    /// content, after the current ones and without applying retention; the session
    /// timeline then ends at the latest end among them.
    pub fn restore_entries(&mut self, saved: Vec<(ChunkEntry, u64)>)
        requires
            old(self).inv(),
            old(self).appendable(kept_entries(saved@)),
        ensures
            final(self).inv(),
            final(self).entry_seq() == old(self).entry_seq() + kept_entries(saved@),
            final(self).timeline_end() == restored_end(old(self).timeline_end() as int, kept_entries(saved@)),
            final(self).open_fragment_spec() == old(self).open_fragment_spec(),
            final(self).mark_spec() == old(self).mark_spec(),
            final(self).max_entry_count() == old(self).max_entry_count(),
            final(self).chunk_ms() == old(self).chunk_ms(),
            final(self).path_text() == old(self).path_text(),
    {
        let ghost orig = saved@;
        let ghost start = self.entries@;
        let ghost start_end = self.session_ms;
        proof {
            assert(start + kept_entries(orig.take(0)) =~= start);
        }
        for item in it: saved.into_iter()
            invariant
                it.seq() == orig,
                old(self).inv(),
                old(self).appendable(kept_entries(orig)),
                start == old(self).entry_seq(),
                start_end == old(self).timeline_end(),
                self.entries@ == start + kept_entries(orig.take(it.index() as int)),
                self.session_ms == restored_end(start_end as int, kept_entries(orig.take(it.index() as int))),
                self.session_ms >= start_end,
                self.session_ms + self.chunk_duration_ms <= u64::MAX,
                forall|j: int|
                    0 <= j < self.entries@.len() ==> #[trigger] self.entries@[j].buffer_offset_ms
                        + self.entries@[j].duration_ms <= self.session_ms,
                self.max_entries == old(self).max_entries,
                self.chunk_duration_ms == old(self).chunk_duration_ms,
                self.buffer_path == old(self).buffer_path,
                self.open_fragment == old(self).open_fragment,
                self.mark == old(self).mark,
        {
            let ghost idx = it.index() as int;
            let ghost k0 = kept_entries(orig.take(idx));
            proof {
                assert(orig.take(idx + 1).drop_last() =~= orig.take(idx));
                assert(orig.take(idx + 1).last() == item);
                if idx == 0 {
                    assert forall|j: int| 0 <= j < start.len() implies #[trigger] start[j].buffer_offset_ms
                        + start[j].duration_ms <= start_end by {
                        assert(old(self).entry_seq()[j] == start[j]);
                    }
                }
            }
            let (e, size) = item;
            if size > 0 {
                proof {
                    let k1 = kept_entries(orig.take(idx + 1));
                    assert(k1 == k0.push(e));
                    lemma_appendable_prefix(*old(self), orig, idx + 1, orig.len() as int);
                    assert(k1[k0.len() as int] == e);
                    assert(k1.drop_last() =~= k0);
                }
                let end = e.buffer_offset_ms + e.duration_ms;
                if end > self.session_ms {
                    self.session_ms = end;
                }
                let ghost before = self.entries@;
                self.entries.push_back(e);
                proof {
                    assert forall|j: int| 0 <= j < self.entries@.len() implies #[trigger] self.entries@[j].buffer_offset_ms
                        + self.entries@[j].duration_ms <= self.session_ms by {
                        if j < before.len() {
                            assert(self.entries@[j] == before[j]);
                        }
                    }
                    assert(self.entries@ =~= start + kept_entries(orig.take(idx + 1)));
                }
            } else {
                proof {
                    assert(kept_entries(orig.take(idx + 1)) == k0);
                }
            }
        }
        proof {
            assert(orig.take(orig.len() as int) =~= orig);
            if orig.len() == 0 {
                assert forall|j: int| 0 <= j < start.len() implies #[trigger] start[j].buffer_offset_ms
                    + start[j].duration_ms <= start_end by {
                    assert(old(self).entry_seq()[j] == start[j]);
                }
            }
            assert forall|j: int| 0 <= j < self.entry_seq().len() implies #[trigger] self.entry_seq()[j].buffer_offset_ms
                + self.entry_seq()[j].duration_ms <= self.timeline_end() by {
                assert(self.entry_seq()[j] == self.entries@[j]);
            }
        }
    }
}

/// The saved entries can be restored onto an empty index of chunk length
/// `chunk_ms` without the timeline arithmetic overflowing.
pub open spec fn restorable(chunk_ms: u64, extra: Seq<ChunkEntry>) -> bool {
    &&& total_duration(extra) + chunk_ms <= u64::MAX
    &&& forall|i: int|
        0 <= i < extra.len() ==> #[trigger] extra[i].buffer_offset_ms + extra[i].duration_ms
            + chunk_ms <= u64::MAX
}

/// `r` is what loading gives from the saved entries (each paired with the size of
/// its chunk file) and the saved mark: no open fragment, the saved mark, and the
/// entries whose files are on disk with some content, in order, with the session
/// timeline ending at the latest of their ends; when those would overflow the
/// timeline, no entries.
pub open spec fn loaded_from(r: ChunkIndex, saved: Seq<(ChunkEntry, u64)>, mark: Option<BufferMark>) -> bool {
    let kept = kept_entries(saved);
    &&& r.open_fragment_spec() is None
    &&& r.mark_spec() == mark
    &&& if restorable(r.chunk_ms(), kept) {
        r.entry_seq() == kept && r.timeline_end() == restored_end(0, kept)
    } else {
        r.entry_seq().len() == 0 && r.timeline_end() == 0
    }
}

/// The index that loading a buffer directory gives, from the saved entries (each
/// paired with the size of its chunk file, 0 when it is gone) and the saved mark.
pub fn load_index(
    buffer_path: String,
    max_seconds: u32,
    chunk_seconds: u32,
    saved: Vec<(ChunkEntry, u64)>,
    mark: Option<BufferMark>,
) -> (r: ChunkIndex)
    requires
        max_seconds / (if chunk_seconds > 1 { chunk_seconds } else { 1 }) + 2 <= usize::MAX,
    ensures
        r.inv(),
        r.max_entry_count() == max_seconds / (if chunk_seconds > 1 { chunk_seconds } else { 1 }) + 2,
        r.chunk_ms() == (if chunk_seconds > 1 { chunk_seconds } else { 1 }) * 1000,
        r.path_text() == buffer_path@,
        loaded_from(r, saved@, mark),
{
    let mut index = ChunkIndex::new(buffer_path, max_seconds, chunk_seconds);
    let ghost kept = kept_entries(saved@);
    proof {
        assert(index.entry_seq() + kept =~= kept);
    }
    if index.can_restore(&saved) {
        index.restore_entries(saved);
        assert(index.entry_seq() =~= kept);
    }
    match mark {
        Some(m) => index.set_mark(m),
        None => {},
    }
    index
}

/// A prefix of the saved entries is appendable when the whole is.
proof fn lemma_appendable_prefix(index: ChunkIndex, saved: Seq<(ChunkEntry, u64)>, i: int, n: int)
    requires
        0 <= i <= n == saved.len(),
    ensures
        index.appendable(kept_entries(saved)) ==> index.appendable(kept_entries(saved.take(i))),
    decreases n - i,
{
    if i < n {
        lemma_appendable_prefix(index, saved, i + 1, n);
        let k0 = kept_entries(saved.take(i));
        let k1 = kept_entries(saved.take(i + 1));
        assert(saved.take(i + 1).drop_last() =~= saved.take(i));
        if index.appendable(k1) {
            if saved[i].1 > 0 {
                assert(k1 == k0.push(saved[i].0));
                assert((index.entry_seq() + k1).drop_last() =~= index.entry_seq() + k0);
                lemma_total_nonneg_entry(saved[i].0);
                assert forall|j: int| 0 <= j < k0.len() implies #[trigger] k0[j].buffer_offset_ms
                    + k0[j].duration_ms + index.chunk_ms() <= u64::MAX by {
                    assert(k1[j] == k0[j]);
                }
            } else {
                assert(k1 == k0);
            }
        }
    } else {
        assert(saved.take(i) =~= saved);
    }
}

proof fn lemma_total_nonneg_entry(e: ChunkEntry)
    ensures
        e.duration_ms >= 0,
{
}

// ---------------------------------------------------------------------------
// Laws of the rolling buffer
// ---------------------------------------------------------------------------

/// Closing a fragment keeps the rolling buffer within its retention limit: the
/// index ends with at most `max_entries` entries (one more than before, up to the
/// limit) and exactly the overflow is evicted, oldest first.
pub proof fn law_close_enforces_retention(
    old: ChunkIndex,
    new: ChunkIndex,
    location: String,
    duration_ms: Option<u64>,
    now: i64,
    evicted: Seq<String>,
)
    requires
        old.inv(),
        closed_step(old, new, location, duration_ms, now, evicted),
    ensures
        new.entry_seq().len() <= new.max_entry_count(),
        old.entry_seq().len() < old.max_entry_count() ==> new.entry_seq().len()
            == old.entry_seq().len() + 1 && evicted.len() == 0,
        old.entry_seq().len() >= old.max_entry_count() ==> new.entry_seq().len()
            == new.max_entry_count() && evicted == entry_paths(
            old.entry_seq().take(old.entry_seq().len() + 1 - old.max_entry_count()),
        ),
{
}

/// Closing the fragment that is open (the same path, as text or as a `Path`)
/// records it whole: the new newest entry has
/// the open fragment's id (that of the closed path), start and timeline offset,
/// the closed path and the reported duration (the chunk length when none); the
/// session timeline grows by that duration, the mark is kept, no fragment is open
/// any more, and a mark taken now names the closed chunk at offset 0.
pub proof fn law_close_of_open_fragment(
    old: ChunkIndex,
    new: ChunkIndex,
    location: String,
    duration_ms: Option<u64>,
    now: i64,
    evicted: Seq<String>,
    t: i64,
)
    requires
        old.inv(),
        old.open_fragment_spec() matches Some(o) && (o.path@ == location@ || paths_match(
            o.path@,
            location@,
        )),
        closed_step(old, new, location, duration_ms, now, evicted),
    ensures
        ({
            let o = old.open_fragment_spec()->0;
            let e = new.entry_seq().last();
            &&& new.entry_seq().len() > 0
            &&& e.id@ == chunk_id_spec(location@)
            &&& e.id == o.chunk_id
            &&& e.path == location
            &&& e.start_unix_ms == o.opened_unix_ms
            &&& e.buffer_offset_ms == o.buffer_offset_ms
            &&& e.duration_ms == effective_duration(duration_ms, old.chunk_ms())
        }),
        new.timeline_end() == old.timeline_end() + effective_duration(duration_ms, old.chunk_ms()),
        new.mark_spec() == old.mark_spec(),
        new.open_fragment_spec() is None,
        timeline_mark_spec(new.open_mark_input(), new.last_finalized_id(), t) == Some(
            (chunk_id_spec(location@), 0u64, t),
        ),
{
}

/// Closing a fragment while none is open appends it at the end of the session
/// timeline: it starts where every retained chunk has ended, so retained chunks
/// stay in timeline order however many were evicted.
pub proof fn law_close_appends_at_session_end(
    old: ChunkIndex,
    new: ChunkIndex,
    location: String,
    duration_ms: Option<u64>,
    now: i64,
    evicted: Seq<String>,
)
    requires
        old.inv(),
        old.open_fragment_spec() is None,
        closed_step(old, new, location, duration_ms, now, evicted),
    ensures
        new.entry_seq().last().buffer_offset_ms == old.timeline_end(),
        forall|i: int|
            0 <= i < new.entry_seq().len() - 1 ==> #[trigger] new.entry_seq()[i].buffer_offset_ms
                + new.entry_seq()[i].duration_ms <= new.entry_seq().last().buffer_offset_ms,
{
    let k = evicted_count(old.entry_seq().len() + 1int, old.max_entry_count());
    let appended = old.entry_seq().push(new.entry_seq().last());
    assert forall|i: int| 0 <= i < new.entry_seq().len() - 1 implies #[trigger] new.entry_seq()[i].buffer_offset_ms
        + new.entry_seq()[i].duration_ms <= new.entry_seq().last().buffer_offset_ms by {
        assert(new.entry_seq()[i] == appended[i + k]);
        assert(appended[i + k] == old.entry_seq()[i + k]);
    }
}

proof fn lemma_paths_ending_after_mono(entries: Seq<ChunkEntry>, c1: int, c2: int)
    requires
        c2 <= c1,
    ensures
        paths_ending_after(entries, c1).len() <= paths_ending_after(entries, c2).len(),
    decreases entries.len(),
{
    if entries.len() > 0 {
        lemma_paths_ending_after_mono(entries.drop_last(), c1, c2);
    }
}

/// Asking for more seconds of replay never yields fewer segments.
pub proof fn law_more_seconds_more_segments(index: ChunkIndex, s1: u32, s2: u32, now: i64)
    requires
        s1 <= s2,
    ensures
        index.last_seconds_spec(s1, now).len() <= index.last_seconds_spec(s2, now).len(),
{
    let now_ms = index.timeline_now_spec(now);
    let c1 = if now_ms - s1 * 1000 < 0 { 0 } else { now_ms - s1 * 1000 };
    let c2 = if now_ms - s2 * 1000 < 0 { 0 } else { now_ms - s2 * 1000 };
    lemma_paths_ending_after_mono(index.entry_seq(), c1, c2);
}

/// `f` maps each position of `a` to a position of `b` holding the same item, in
/// increasing order.
pub open spec fn order_preserving_map<T>(f: spec_fn(int) -> int, a: Seq<T>, b: Seq<T>) -> bool {
    &&& forall|i: int| 0 <= i < a.len() ==> 0 <= #[trigger] f(i) < b.len() && a[i] == b[f(i)]
    &&& forall|i: int, j: int| 0 <= i < j < a.len() ==> #[trigger] f(i) < #[trigger] f(j)
}

/// `a` is `b` with some items left out and the rest in order.
pub open spec fn is_subsequence<T>(a: Seq<T>, b: Seq<T>) -> bool {
    exists|f: spec_fn(int) -> int| #[trigger] order_preserving_map(f, a, b)
}

proof fn lemma_window_subsequence(entries: Seq<ChunkEntry>, c1: int, c2: int) -> (f: spec_fn(int) -> int)
    requires
        c2 <= c1,
    ensures
        order_preserving_map(f, paths_ending_after(entries, c1), paths_ending_after(entries, c2)),
    decreases entries.len(),
{
    if entries.len() == 0 {
        |i: int| 0int
    } else {
        let g = lemma_window_subsequence(entries.drop_last(), c1, c2);
        let p1 = paths_ending_after(entries.drop_last(), c1);
        let p2 = paths_ending_after(entries.drop_last(), c2);
        let a = paths_ending_after(entries, c1);
        let b = paths_ending_after(entries, c2);
        let e = entries.last();
        if e.buffer_offset_ms + e.duration_ms > c1 {
            let n1 = p1.len() as int;
            let n2 = p2.len() as int;
            let f = |i: int| if i < n1 { g(i) } else { n2 };
            assert(a == p1.push(e.path));
            assert(b == p2.push(e.path));
            assert forall|i: int| 0 <= i < a.len() implies 0 <= #[trigger] f(i) < b.len() && a[i] == b[f(i)] by {
                if i < n1 {
                    assert(f(i) == g(i));
                }
            }
            assert forall|i: int, j: int| 0 <= i < j < a.len() implies #[trigger] f(i) < #[trigger] f(j) by {
                if j < n1 {
                    assert(f(i) == g(i) && f(j) == g(j));
                } else {
                    assert(f(i) == g(i));
                }
            }
            f
        } else if e.buffer_offset_ms + e.duration_ms > c2 {
            assert(a == p1);
            assert(b == p2.push(e.path));
            assert forall|i: int| 0 <= i < a.len() implies 0 <= #[trigger] g(i) < b.len() && a[i] == b[g(i)] by {
                assert(b[g(i)] == p2[g(i)]);
            }
            g
        } else {
            g
        }
    }
}

/// A longer replay window keeps every segment of a shorter one, in the same
/// order: the segments of the last `s1` seconds are a subsequence of those of the
/// last `s2` seconds whenever `s1 <= s2`.
pub proof fn law_longer_window_keeps_shorter(index: ChunkIndex, s1: u32, s2: u32, now: i64)
    requires
        s1 <= s2,
    ensures
        is_subsequence(index.last_seconds_spec(s1, now), index.last_seconds_spec(s2, now)),
{
    let now_ms = index.timeline_now_spec(now);
    let c1 = if now_ms - s1 * 1000 < 0 { 0 } else { now_ms - s1 * 1000 };
    let c2 = if now_ms - s2 * 1000 < 0 { 0 } else { now_ms - s2 * 1000 };
    let f = lemma_window_subsequence(index.entry_seq(), c1, c2);
    assert(order_preserving_map(f, index.last_seconds_spec(s1, now), index.last_seconds_spec(s2, now)));
}

/// Loading what persisting wrote gives the index back: when every persisted chunk
/// file is still on disk with some content, an index loaded with the same chunk
/// length from the persisted entries and mark has those entries, in order, and
/// that mark.
pub proof fn law_load_returns_persisted(
    index: ChunkIndex,
    saved: Seq<(ChunkEntry, u64)>,
    loaded: ChunkIndex,
)
    requires
        index.inv(),
        saved.len() == index.entry_seq().len(),
        forall|i: int|
            0 <= i < saved.len() ==> (#[trigger] saved[i]).0 == index.entry_seq()[i] && saved[i].1 > 0,
        loaded.chunk_ms() == index.chunk_ms(),
        loaded_from(loaded, saved, index.mark_spec()),
    ensures
        loaded.entry_seq() == index.entry_seq(),
        loaded.mark_spec() == index.mark_spec(),
{
    lemma_kept_all(index.entry_seq(), saved);
    let kept = kept_entries(saved);
    assert forall|i: int| 0 <= i < kept.len() implies #[trigger] kept[i].buffer_offset_ms
        + kept[i].duration_ms + index.chunk_ms() <= u64::MAX by {
        assert(kept[i] == index.entry_seq()[i]);
    }
    assert(restorable(loaded.chunk_ms(), kept));
}

proof fn lemma_kept_all(persisted: Seq<ChunkEntry>, saved: Seq<(ChunkEntry, u64)>)
    requires
        saved.len() == persisted.len(),
        forall|i: int| 0 <= i < saved.len() ==> (#[trigger] saved[i]).0 == persisted[i] && saved[i].1 > 0,
    ensures
        kept_entries(saved) == persisted,
    decreases saved.len(),
{
    if saved.len() > 0 {
        let sd = saved.drop_last();
        let pd = persisted.drop_last();
        assert forall|i: int| 0 <= i < sd.len() implies (#[trigger] sd[i]).0 == pd[i] && sd[i].1 > 0 by {
            assert(sd[i] == saved[i]);
        }
        lemma_kept_all(pd, sd);
        assert(saved.last() == saved[saved.len() - 1]);
        assert(persisted =~= pd.push(persisted.last()));
    }
}

/// A replay from a mark starts with the marked chunk when it is still retained:
/// if the first retained chunk at or after the mark's index is the marked one,
/// its path comes first.
pub proof fn law_mark_replay_starts_at_mark(entries: Seq<ChunkEntry>, mark_index: u32, i: int)
    requires
        0 <= i < entries.len(),
        chunk_index_spec(entries[i].id@) >= mark_index,
        forall|k: int| 0 <= k < i ==> chunk_index_spec((#[trigger] entries[k]).id@) < mark_index,
    ensures
        paths_from_index(entries, mark_index).len() > 0,
        paths_from_index(entries, mark_index)[0] == entries[i].path,
    decreases entries.len(),
{
    if i < entries.len() - 1 {
        law_mark_replay_starts_at_mark(entries.drop_last(), mark_index, i);
        assert(entries.drop_last()[i] == entries[i]);
        assert forall|k: int| 0 <= k < i implies chunk_index_spec((#[trigger] entries.drop_last()[k]).id@)
            < mark_index by {
            assert(entries.drop_last()[k] == entries[k]);
        }
    } else {
        lemma_paths_from_index_empty(entries.drop_last(), mark_index);
    }
}

proof fn lemma_paths_from_index_empty(entries: Seq<ChunkEntry>, mark_index: u32)
    requires
        forall|k: int| 0 <= k < entries.len() ==> chunk_index_spec((#[trigger] entries[k]).id@) < mark_index,
    ensures
        paths_from_index(entries, mark_index).len() == 0,
    decreases entries.len(),
{
    if entries.len() > 0 {
        assert forall|k: int| 0 <= k < entries.drop_last().len() implies chunk_index_spec(
            (#[trigger] entries.drop_last()[k]).id@,
        ) < mark_index by {
            assert(entries.drop_last()[k] == entries[k]);
        }
        lemma_paths_from_index_empty(entries.drop_last(), mark_index);
        assert(chunk_index_spec(entries[entries.len() - 1].id@) < mark_index);
    }
}

} // verus!
