//! The bounded log of events for long observations: where it is written, how
//! records are batched and numbered, and how its files are rotated.

use crate::text;
use vstd::prelude::*;

verus! {

/// How many bytes a log file holds unless configured otherwise.
pub const DEFAULT_MAX_BYTES: u64 = 8_388_608;

/// How many log files are kept unless configured otherwise.
pub const DEFAULT_RETAINED_FILES: usize = 4;

/// How many records may wait to be written unless configured otherwise.
pub const DEFAULT_QUEUE_CAPACITY: usize = 2_048;

/// How many milliseconds records are gathered unless configured otherwise.
pub const DEFAULT_FLUSH_INTERVAL_MS: u64 = 250;

/// How many records are written at once.
pub const MAX_BATCH: usize = 256;

/// A path from the environment or a configuration file.
#[derive(Debug, PartialEq, Eq)]
pub struct LogPath {
    pub text: String,
    /// The path does not depend on a directory to start from.
    pub absolute: bool,
}

/// The model of [`LogPath`].
#[verifier::ext_equal]
pub struct LogPathView {
    pub text: Seq<char>,
    pub absolute: bool,
}

impl View for LogPath {
    type V = LogPathView;

    open spec fn view(&self) -> LogPathView {
        LogPathView {
            text: self.text@,
            absolute: self.absolute,
        }
    }
}

impl DeepView for LogPath {
    type V = LogPathView;

    open spec fn deep_view(&self) -> LogPathView {
        self@
    }
}

impl Clone for LogPath {
    fn clone(&self) -> (r: Self)
        ensures
            r@ == self@,
    {
        LogPath {
            text: self.text.clone(),
            absolute: self.absolute,
        }
    }
}

/// A part of a path. Parts are joined in their order.
#[derive(Debug, PartialEq, Eq)]
pub enum PathPart {
    /// The directory of the configuration.
    Home,
    Text(String),
}

/// The model of [`PathPart`].
#[verifier::ext_equal]
pub enum PathPartView {
    Home,
    Text(Seq<char>),
}

impl View for PathPart {
    type V = PathPartView;

    open spec fn view(&self) -> PathPartView {
        match self {
            PathPart::Home => PathPartView::Home,
            PathPart::Text(value) => PathPartView::Text(value@),
        }
    }
}

impl DeepView for PathPart {
    type V = PathPartView;

    open spec fn deep_view(&self) -> PathPartView {
        self@
    }
}

impl Clone for PathPart {
    fn clone(&self) -> (r: Self)
        ensures
            r@ == self@,
    {
        match self {
            PathPart::Home => PathPart::Home,
            PathPart::Text(value) => PathPart::Text(value.clone()),
        }
    }
}

/// What the configuration file says of the log.
#[derive(Debug, PartialEq, Eq)]
pub struct RuntimeDebugLogConfig {
    pub enabled: bool,
    pub path: Option<LogPath>,
    pub max_bytes: Option<u64>,
    pub retained_files: Option<usize>,
    pub queue_capacity: Option<usize>,
    pub flush_interval_ms: Option<u64>,
}

/// The model of [`RuntimeDebugLogConfig`].
#[verifier::ext_equal]
pub struct RuntimeDebugLogConfigView {
    pub enabled: bool,
    pub path: Option<LogPathView>,
    pub max_bytes: Option<u64>,
    pub retained_files: Option<usize>,
    pub queue_capacity: Option<usize>,
    pub flush_interval_ms: Option<u64>,
}

impl View for RuntimeDebugLogConfig {
    type V = RuntimeDebugLogConfigView;

    open spec fn view(&self) -> RuntimeDebugLogConfigView {
        RuntimeDebugLogConfigView {
            enabled: self.enabled,
            path: self.path.deep_view(),
            max_bytes: self.max_bytes,
            retained_files: self.retained_files,
            queue_capacity: self.queue_capacity,
            flush_interval_ms: self.flush_interval_ms,
        }
    }
}

impl DeepView for RuntimeDebugLogConfig {
    type V = RuntimeDebugLogConfigView;

    open spec fn deep_view(&self) -> RuntimeDebugLogConfigView {
        self@
    }
}

impl Clone for RuntimeDebugLogConfig {
    fn clone(&self) -> (r: Self)
        ensures
            r@ == self@,
    {
        RuntimeDebugLogConfig {
            enabled: self.enabled,
            path: self.path.clone(),
            max_bytes: self.max_bytes,
            retained_files: self.retained_files,
            queue_capacity: self.queue_capacity,
            flush_interval_ms: self.flush_interval_ms,
        }
    }
}

impl Default for RuntimeDebugLogConfig {
    fn default() -> (r: Self)
        ensures
            r@ == (RuntimeDebugLogConfigView {
                enabled: false,
                path: None,
                max_bytes: None,
                retained_files: None,
                queue_capacity: None,
                flush_interval_ms: None,
            }),
    {
        RuntimeDebugLogConfig {
            enabled: false,
            path: None,
            max_bytes: None,
            retained_files: None,
            queue_capacity: None,
            flush_interval_ms: None,
        }
    }
}

/// How the log is kept.
#[derive(Debug, PartialEq, Eq)]
pub struct DebugLogConfig {
    pub path: Vec<PathPart>,
    pub max_bytes: u64,
    pub retained_files: usize,
    pub queue_capacity: usize,
    pub flush_interval_ms: u64,
}

/// The model of [`DebugLogConfig`].
#[verifier::ext_equal]
pub struct DebugLogConfigView {
    pub path: Seq<PathPartView>,
    pub max_bytes: u64,
    pub retained_files: usize,
    pub queue_capacity: usize,
    pub flush_interval_ms: u64,
}

impl View for DebugLogConfig {
    type V = DebugLogConfigView;

    open spec fn view(&self) -> DebugLogConfigView {
        DebugLogConfigView {
            path: self.path.deep_view(),
            max_bytes: self.max_bytes,
            retained_files: self.retained_files,
            queue_capacity: self.queue_capacity,
            flush_interval_ms: self.flush_interval_ms,
        }
    }
}

impl DeepView for DebugLogConfig {
    type V = DebugLogConfigView;

    open spec fn deep_view(&self) -> DebugLogConfigView {
        self@
    }
}

impl Clone for DebugLogConfig {
    fn clone(&self) -> (r: Self)
        ensures
            r@ == self@,
    {
        DebugLogConfig {
            path: self.path.clone(),
            max_bytes: self.max_bytes,
            retained_files: self.retained_files,
            queue_capacity: self.queue_capacity,
            flush_interval_ms: self.flush_interval_ms,
        }
    }
}

/// A number brought into bounds.
pub open spec fn clamped(n: int, low: int, high: int) -> int {
    if n < low {
        low
    } else if n > high {
        high
    } else {
        n
    }
}

/// A number that may be given, or its default.
pub open spec fn given_or(value: Option<u64>, default: u64) -> u64 {
    match value {
        Some(n) => n,
        None => default,
    }
}

/// A size that may be given, or its default.
pub open spec fn size_or(value: Option<usize>, default: usize) -> usize {
    match value {
        Some(n) => n,
        None => default,
    }
}

/// The parts of the log's path where none is given.
pub open spec fn default_parts(home_absolute: bool) -> Seq<PathPartView> {
    let below = seq![
        PathPartView::Home,
        PathPartView::Text("log"@),
        PathPartView::Text("enhanced-events.jsonl"@),
    ];
    if home_absolute {
        below
    } else {
        seq![PathPartView::Home] + below
    }
}

/// Where the log is written: the path from the environment, else that of the
/// configuration file, else one below the configuration's directory. A relative
/// path starts from that directory. `home` tells whether the directory is known,
/// and whether its own path is absolute.
pub open spec fn log_parts(
    env_path: Option<LogPathView>,
    file_path: Option<LogPathView>,
    home: Option<bool>,
) -> Option<Seq<PathPartView>> {
    let given = match env_path {
        Some(path) => Some(path),
        None => file_path,
    };
    match given {
        Some(path) => if path.absolute {
            Some(seq![PathPartView::Text(path.text)])
        } else if home is Some {
            Some(seq![PathPartView::Home, PathPartView::Text(path.text)])
        } else {
            None
        },
        None => match home {
            Some(absolute) => Some(default_parts(absolute)),
            None => None,
        },
    }
}

/// How the log is kept, if it is kept at all: it has to be asked for, and there
/// has to be a place for it.
pub open spec fn resolved_config(
    env_path: Option<LogPathView>,
    file: RuntimeDebugLogConfigView,
    home: Option<bool>,
) -> Option<DebugLogConfigView> {
    if env_path is None && !file.enabled {
        None
    } else {
        match log_parts(env_path, file.path, home) {
            Some(path) => Some(
                DebugLogConfigView {
                    path,
                    max_bytes: clamped(
                        given_or(file.max_bytes, DEFAULT_MAX_BYTES) as int,
                        65_536,
                        1_073_741_824,
                    ) as u64,
                    retained_files: clamped(
                        size_or(file.retained_files, DEFAULT_RETAINED_FILES) as int,
                        1,
                        16,
                    ) as usize,
                    queue_capacity: clamped(
                        size_or(file.queue_capacity, DEFAULT_QUEUE_CAPACITY) as int,
                        64,
                        65_536,
                    ) as usize,
                    flush_interval_ms: clamped(
                        given_or(file.flush_interval_ms, DEFAULT_FLUSH_INTERVAL_MS) as int,
                        10,
                        5_000,
                    ) as u64,
                },
            ),
            None => None,
        }
    }
}

fn clamp_number(value: Option<u64>, default: u64, low: u64, high: u64) -> (r: u64)
    requires
        low <= high,
    ensures
        r == clamped(given_or(value, default) as int, low as int, high as int),
{
    let n: u64 = match value {
        Some(n) => n,
        None => default,
    };
    if n < low {
        low
    } else if n > high {
        high
    } else {
        n
    }
}

fn clamp_size(value: Option<usize>, default: usize, low: usize, high: usize) -> (r: usize)
    requires
        low <= high,
    ensures
        r == clamped(size_or(value, default) as int, low as int, high as int),
{
    let n: usize = match value {
        Some(n) => n,
        None => default,
    };
    if n < low {
        low
    } else if n > high {
        high
    } else {
        n
    }
}

fn default_path(home_absolute: bool) -> (r: Vec<PathPart>)
    ensures
        r.deep_view() == default_parts(home_absolute),
{
    let mut parts: Vec<PathPart> = Vec::new();
    if !home_absolute {
        parts.push(PathPart::Home);
    }
    parts.push(PathPart::Home);
    parts.push(PathPart::Text("log".to_owned()));
    parts.push(PathPart::Text("enhanced-events.jsonl".to_owned()));
    assert(parts.deep_view() =~= default_parts(home_absolute));
    parts
}

fn given_path(path: LogPath, home_known: bool) -> (r: Option<Vec<PathPart>>)
    ensures
        r.deep_view() == log_parts(
            Some(path@),
            None,
            if home_known {
                Some(true)
            } else {
                None
            },
        ),
{
    let mut parts: Vec<PathPart> = Vec::new();
    if !path.absolute {
        if !home_known {
            return None;
        }
        parts.push(PathPart::Home);
    }
    parts.push(PathPart::Text(path.text));
    proof {
        if path.absolute {
            assert(parts.deep_view() =~= seq![PathPartView::Text(path.text@)]);
        } else {
            assert(parts.deep_view() =~= seq![PathPartView::Home, PathPartView::Text(path.text@)]);
        }
    }
    Some(parts)
}

impl DebugLogConfig {
    /// Decides how the log is kept, if it is kept at all, from the path in the
    /// environment and the configuration file. `home` tells whether the
    /// configuration's directory is known, and whether its path is absolute.
    pub fn load(
        env_path: Option<LogPath>,
        file: RuntimeDebugLogConfig,
        home: Option<bool>,
    ) -> (r: Option<Self>)
        ensures
            r.deep_view() == resolved_config(env_path.deep_view(), file@, home),
    {
        if env_path.is_none() && !file.enabled {
            return None;
        }
        let given = match env_path {
            Some(path) => Some(path),
            None => file.path,
        };
        let parts = match given {
            Some(path) => given_path(path, home.is_some()),
            None => match home {
                Some(absolute) => Some(default_path(absolute)),
                None => None,
            },
        };
        match parts {
            Some(path) => Some(
                DebugLogConfig {
                    path,
                    max_bytes: clamp_number(
                        file.max_bytes,
                        DEFAULT_MAX_BYTES,
                        65_536,
                        1_073_741_824,
                    ),
                    retained_files: clamp_size(file.retained_files, DEFAULT_RETAINED_FILES, 1, 16),
                    queue_capacity: clamp_size(
                        file.queue_capacity,
                        DEFAULT_QUEUE_CAPACITY,
                        64,
                        65_536,
                    ),
                    flush_interval_ms: clamp_number(
                        file.flush_interval_ms,
                        DEFAULT_FLUSH_INTERVAL_MS,
                        10,
                        5_000,
                    ),
                },
            ),
            None => None,
        }
    }
}

/// What is done with records that are being gathered.
#[derive(Debug, Clone, Copy, PartialEq, Eq, Structural)]
pub enum BatchStep {
    /// They are written now.
    Write,
    /// Another record is waited for, at most so many nanoseconds.
    Wait { nanos: u128 },
}

/// What is done with records that are being gathered.
pub open spec fn batch_step(
    gathered: usize,
    flush_interval_ms: u64,
    elapsed_nanos: u128,
) -> BatchStep {
    if gathered >= MAX_BATCH || elapsed_nanos > flush_interval_ms * 1_000_000 {
        BatchStep::Write
    } else {
        BatchStep::Wait { nanos: (flush_interval_ms * 1_000_000 - elapsed_nanos) as u128 }
    }
}

/// Decides what is done with records that are being gathered: they are written
/// once there are enough of them, or once the time to gather them is over.
pub fn next_batch_step(gathered: usize, flush_interval_ms: u64, elapsed_nanos: u128) -> (r:
    BatchStep)
    ensures
        r == batch_step(gathered, flush_interval_ms, elapsed_nanos),
{
    let interval: u128 = flush_interval_ms as u128 * 1_000_000;
    if gathered >= MAX_BATCH || elapsed_nanos > interval {
        BatchStep::Write
    } else {
        BatchStep::Wait { nanos: interval - elapsed_nanos }
    }
}

/// The number that a record bears, so many records after a number.
pub open spec fn numbered(sequence: u64, steps: nat) -> int {
    if sequence + steps < u64::MAX {
        sequence + steps
    } else {
        u64::MAX as int
    }
}

/// The numbers of a batch of records.
#[derive(Debug, PartialEq, Eq)]
pub struct BatchNumbers {
    /// One number for each record.
    pub records: Vec<u64>,
    /// The number of the record that tells how many records were dropped, if
    /// any were.
    pub dropped: Option<u64>,
    /// The number that was given last.
    pub sequence: u64,
}

/// The number of the record that tells how many records were dropped, if any were.
pub open spec fn dropped_number(sequence: u64, records: nat, dropped: u64) -> Option<u64> {
    if dropped > 0 {
        Some(numbered(sequence, records + 1) as u64)
    } else {
        None
    }
}

/// The number that is given last for a batch.
pub open spec fn last_number(sequence: u64, records: nat, dropped: u64) -> int {
    numbered(
        sequence,
        if dropped > 0 {
            records + 1
        } else {
            records
        },
    )
}

/// Numbers a batch of records, from the number that was given last. Where records
/// were dropped meanwhile, one more record tells how many.
pub fn number_batch(sequence: u64, records: usize, dropped: u64) -> (r: BatchNumbers)
    ensures
        r.records.len() == records,
        forall|i: int|
            0 <= i < records ==> #[trigger] r.records@[i] == numbered(sequence, (i + 1) as nat),
        r.dropped == dropped_number(sequence, records as nat, dropped),
        r.sequence == last_number(sequence, records as nat, dropped),
{
    let mut last: u64 = sequence;
    let mut numbers: Vec<u64> = Vec::new();
    let mut i: usize = 0;
    while i < records
        invariant
            i <= records,
            numbers.len() == i,
            last == numbered(sequence, i as nat),
            forall|k: int|
                0 <= k < i ==> #[trigger] numbers@[k] == numbered(sequence, (k + 1) as nat),
        decreases records - i,
    {
        last = last.saturating_add(1);
        numbers.push(last);
        i = i + 1;
    }
    if dropped > 0 {
        last = last.saturating_add(1);
        BatchNumbers { records: numbers, dropped: Some(last), sequence: last }
    } else {
        BatchNumbers { records: numbers, dropped: None, sequence: last }
    }
}

/// How full the live file of the log is.
#[derive(Debug, Clone, Copy, PartialEq, Eq, Structural)]
pub struct LogFill {
    pub bytes_written: u64,
}

/// A sum that does not exceed `u64::MAX`.
pub open spec fn capped_sum(a: u64, b: u64) -> u64 {
    if a + b <= u64::MAX {
        (a + b) as u64
    } else {
        u64::MAX
    }
}

impl LogFill {
    /// Whether the files have to be rotated before a record of so many bytes is
    /// written: an empty file takes any record, another only what fits.
    pub open spec fn rotates(self, record_bytes: u64, max_bytes: u64) -> bool {
        self.bytes_written > 0 && capped_sum(self.bytes_written, record_bytes) > max_bytes
    }

    /// The live file once a record is written to it.
    pub open spec fn filled(self, record_bytes: u64) -> Self {
        LogFill { bytes_written: capped_sum(self.bytes_written, record_bytes) }
    }

    /// Tells whether the files have to be rotated before a record of so many
    /// bytes is written.
    pub fn needs_rotation(&self, record_bytes: u64, max_bytes: u64) -> (r: bool)
        ensures
            r == self.rotates(record_bytes, max_bytes),
    {
        self.bytes_written > 0 && self.bytes_written.saturating_add(record_bytes) > max_bytes
    }

    /// The files were rotated: the live file is empty.
    pub fn note_rotation(&mut self)
        ensures
            *final(self) == (LogFill { bytes_written: 0 }),
    {
        self.bytes_written = 0;
    }

    /// A record of so many bytes was written.
    pub fn note_write(&mut self, record_bytes: u64)
        ensures
            *final(self) == old(self).filled(record_bytes),
    {
        self.bytes_written = self.bytes_written.saturating_add(record_bytes);
    }
}

/// A step of a rotation. The files are numbered by their age; the live file,
/// which has no number, counts as the youngest.
#[derive(Debug, Clone, Copy, PartialEq, Eq, Structural)]
pub enum RotationStep {
    /// The file with a number is removed if it is there.
    Remove { index: usize },
    /// If the file `from` is there, the file `to` is removed and `from` takes
    /// its place.
    MoveIfPresent { from: usize, to: usize },
    /// The first numbered file is removed, and the live file takes its place.
    MoveLive,
    /// A live file is made, without anything in it.
    Create,
}

/// The moves of the numbered files below `count`, the oldest first.
pub open spec fn moves(count: nat) -> Seq<RotationStep>
    decreases count,
{
    if count == 0 {
        seq![]
    } else {
        seq![
            RotationStep::MoveIfPresent { from: count as usize, to: (count + 1) as usize },
        ] + moves((count - 1) as nat)
    }
}

/// The steps of a rotation that leaves at most so many files.
pub open spec fn rotation(retained_files: usize) -> Seq<RotationStep> {
    if retained_files <= 1 {
        seq![RotationStep::Create]
    } else {
        seq![RotationStep::Remove { index: (retained_files - 1) as usize }] + moves(
            (retained_files - 2) as nat,
        ) + seq![RotationStep::MoveLive, RotationStep::Create]
    }
}

/// Plans a rotation that leaves at most so many files.
pub fn rotation_plan(retained_files: usize) -> (r: Vec<RotationStep>)
    requires
        retained_files >= 1,
    ensures
        r@ == rotation(retained_files),
{
    let mut steps: Vec<RotationStep> = Vec::new();
    if retained_files == 1 {
        steps.push(RotationStep::Create);
        assert(steps@ =~= rotation(retained_files));
        return steps;
    }
    steps.push(RotationStep::Remove { index: retained_files - 1 });
    let mut index: usize = retained_files - 2;
    assert(steps@ + moves(index as nat) =~= seq![
        RotationStep::Remove { index: (retained_files - 1) as usize },
    ] + moves((retained_files - 2) as nat));
    while index > 0
        invariant
            index <= retained_files - 2,
            steps@ + moves(index as nat) == seq![
                RotationStep::Remove { index: (retained_files - 1) as usize },
            ] + moves((retained_files - 2) as nat),
        decreases index,
    {
        let ghost before = steps@;
        steps.push(RotationStep::MoveIfPresent { from: index, to: index + 1 });
        index = index - 1;
        assert(steps@ + moves(index as nat) =~= before + moves((index + 1) as nat));
    }
    assert(steps@ + moves(0) =~= steps@);
    steps.push(RotationStep::MoveLive);
    steps.push(RotationStep::Create);
    assert(steps@ =~= rotation(retained_files));
    steps
}

/// What a rotated file's name has behind the name of the live file.
pub open spec fn suffix(index: nat) -> Seq<char> {
    "."@ + text::decimal(index)
}

/// What a rotated file's name has behind the name of the live file.
pub fn rotated_suffix(index: usize) -> (r: String)
    ensures
        r@ == suffix(index as nat),
{
    let mut out = ".".to_owned();
    out.append(text::decimal_text(index as u128).as_str());
    assert(out@ =~= suffix(index as nat));
    out
}

/// The files after one step. Files are given by what is in them; the live file
/// has the number zero.
pub open spec fn step_files(files: Map<int, Seq<u8>>, step: RotationStep) -> Map<int, Seq<u8>> {
    match step {
        RotationStep::Remove { index } => files.remove(index as int),
        RotationStep::MoveIfPresent { from, to } => if files.contains_key(from as int) {
            files.remove(from as int).insert(to as int, files[from as int])
        } else {
            files
        },
        RotationStep::MoveLive => files.remove(0).insert(1, files[0]),
        RotationStep::Create => files.insert(0, seq![]),
    }
}

/// The files after all steps.
pub open spec fn run_steps(files: Map<int, Seq<u8>>, steps: Seq<RotationStep>) -> Map<int, Seq<u8>>
    decreases steps.len(),
{
    if steps.len() == 0 {
        files
    } else {
        run_steps(step_files(files, steps[0]), steps.skip(1))
    }
}

proof fn lemma_run_concat(files: Map<int, Seq<u8>>, a: Seq<RotationStep>, b: Seq<RotationStep>)
    ensures
        run_steps(files, a + b) == run_steps(run_steps(files, a), b),
    decreases a.len(),
{
    if a.len() == 0 {
        assert(a + b =~= b);
    } else {
        assert((a + b).skip(1) =~= a.skip(1) + b);
        lemma_run_concat(step_files(files, a[0]), a.skip(1), b);
    }
}

proof fn lemma_moves(files: Map<int, Seq<u8>>, count: nat, i: int)
    requires
        !files.contains_key((count + 1) as int),
        count < usize::MAX,
    ensures
        ({
            let after = run_steps(files, moves(count));
            &&& 2 <= i <= count + 1 ==> after.contains_key(i) == files.contains_key(i - 1)
            &&& 2 <= i <= count + 1 && files.contains_key(i - 1) ==> after[i] == files[i - 1]
            &&& i <= 0 || i > count + 1 ==> after.contains_key(i) == files.contains_key(i)
            &&& (i <= 0 || i > count + 1) && files.contains_key(i) ==> after[i] == files[i]
            &&& !after.contains_key(1)
        }),
    decreases count,
{
    if count > 0 {
        let first = RotationStep::MoveIfPresent { from: count as usize, to: (count + 1) as usize };
        let next = step_files(files, first);
        assert(moves(count)[0] == first);
        assert(moves(count).skip(1) =~= moves((count - 1) as nat));
        lemma_moves(next, (count - 1) as nat, i);
    }
}

/// A rotation makes room for an empty live file: every file takes the place of the
/// next older one, and the oldest is gone. So the number of files never exceeds
/// what is to be kept; files beyond it, which the log does not make, stay.
pub proof fn law_rotation_bounds_the_files(
    files: Map<int, Seq<u8>>,
    retained_files: usize,
    i: int,
)
    requires
        retained_files >= 1,
        files.contains_key(0),
        i >= 0,
    ensures
        ({
            let after = run_steps(files, rotation(retained_files));
            &&& after.contains_key(0) && after[0] == Seq::<u8>::empty()
            &&& 1 <= i < retained_files ==> after.contains_key(i) == files.contains_key(i - 1)
            &&& 1 <= i < retained_files && files.contains_key(i - 1) ==> after[i] == files[i - 1]
            &&& i >= retained_files ==> after.contains_key(i) == files.contains_key(i)
        }),
{
    if retained_files == 1 {
        reveal_with_fuel(run_steps, 2);
    } else {
        let first = seq![RotationStep::Remove { index: (retained_files - 1) as usize }];
        let count = (retained_files - 2) as nat;
        let end = seq![RotationStep::MoveLive, RotationStep::Create];
        lemma_run_concat(files, first + moves(count), end);
        lemma_run_concat(files, first, moves(count));
        reveal_with_fuel(run_steps, 3);
        let cleared = run_steps(files, first);
        assert(cleared == files.remove(retained_files - 1));
        let moved = run_steps(cleared, moves(count));
        lemma_moves(cleared, count, i);
        lemma_moves(cleared, count, 0);
        lemma_moves(cleared, count, 1);
        assert(end.skip(1)[0] == RotationStep::Create);
        assert(run_steps(moved, end) == moved.remove(0).insert(1, moved[0]).insert(0, seq![]));
    }
}

/// As long as the files are rotated when they have to be, the live file never
/// holds more than the bound, unless it holds one record that is larger by
/// itself.
pub proof fn law_live_file_is_bounded(fill: LogFill, record_bytes: u64, max_bytes: u64)
    ensures
        ({
            let room = if fill.rotates(record_bytes, max_bytes) {
                LogFill { bytes_written: 0 }
            } else {
                fill
            };
            let after = room.filled(record_bytes).bytes_written;
            after <= max_bytes || after == record_bytes
        }),
{
}

/// Every record has its own number, in the order in which they are written, until
/// the numbers run out.
pub proof fn law_numbers_grow(sequence: u64, a: nat, b: nat)
    requires
        a < b,
        sequence + b <= u64::MAX,
    ensures
        sequence <= numbered(sequence, a) < numbered(sequence, b),
{
}

/// Records that are numbered in two parts bear the numbers that they would bear in
/// one.
pub proof fn law_numbering_goes_on(sequence: u64, a: nat, b: nat)
    ensures
        numbered(numbered(sequence, a) as u64, b) == numbered(sequence, a + b),
{
}

/// A number within its bounds is taken as it is, one beyond them as the nearer bound,
/// and where none is given the default is: 8 MiB, four files, 2,048 waiting records and
/// a quarter of a second.
pub proof fn law_the_log_keeps_within_bounds(
    env_path: Option<LogPathView>,
    file: RuntimeDebugLogConfigView,
    home: Option<bool>,
)
    ensures
        resolved_config(env_path, file, home) matches Some(config) ==> {
            &&& 65_536 <= config.max_bytes <= 1_073_741_824
            &&& 1 <= config.retained_files <= 16
            &&& 64 <= config.queue_capacity <= 65_536
            &&& 10 <= config.flush_interval_ms <= 5_000
            &&& file.max_bytes matches Some(n) ==> (65_536 <= n <= 1_073_741_824
                ==> config.max_bytes == n) && (n < 65_536 ==> config.max_bytes == 65_536) && (n
                > 1_073_741_824 ==> config.max_bytes == 1_073_741_824)
            &&& file.retained_files matches Some(n) ==> (1 <= n <= 16 ==> config.retained_files
                == n) && (n < 1 ==> config.retained_files == 1) && (n > 16
                ==> config.retained_files == 16)
            &&& file.queue_capacity matches Some(n) ==> (64 <= n <= 65_536
                ==> config.queue_capacity == n) && (n < 64 ==> config.queue_capacity == 64) && (n
                > 65_536 ==> config.queue_capacity == 65_536)
            &&& file.flush_interval_ms matches Some(n) ==> (10 <= n <= 5_000
                ==> config.flush_interval_ms == n) && (n < 10 ==> config.flush_interval_ms == 10)
                && (n > 5_000 ==> config.flush_interval_ms == 5_000)
            &&& file.max_bytes is None ==> config.max_bytes == 8_388_608
            &&& file.retained_files is None ==> config.retained_files == 4
            &&& file.queue_capacity is None ==> config.queue_capacity == 2_048
            &&& file.flush_interval_ms is None ==> config.flush_interval_ms == 250
        },
{
}

/// The log is kept where it is asked for. A path in the environment turns it on and goes
/// before the file's; without one the file has to turn it on. A path that is not absolute
/// lies below the home, and without any it has its own name there, below the home once
/// more where the home is not absolute itself.
pub proof fn law_the_log_is_kept_where_it_is_asked_for(
    env_path: Option<LogPathView>,
    file: RuntimeDebugLogConfigView,
    home: Option<bool>,
)
    ensures
        env_path is None && !file.enabled ==> resolved_config(env_path, file, home) is None,
        env_path matches Some(path) ==> (path.absolute ==> (resolved_config(
            env_path,
            file,
            home,
        ) matches Some(config) && config.path == seq![PathPartView::Text(path.text)])),
        env_path matches Some(path) ==> (!path.absolute && home is Some ==> (resolved_config(
            env_path,
            file,
            home,
        ) matches Some(config) && config.path == seq![
            PathPartView::Home,
            PathPartView::Text(path.text),
        ])),
        env_path matches Some(path) ==> (!path.absolute && home is None ==> resolved_config(
            env_path,
            file,
            home,
        ) is None),
        env_path is None && file.enabled ==> (file.path matches Some(path) ==> (path.absolute
            ==> (resolved_config(env_path, file, home) matches Some(config) && config.path
            == seq![PathPartView::Text(path.text)]))),
        env_path is None && file.enabled && file.path is None && home == Some(true) ==> (
        resolved_config(env_path, file, home) matches Some(config) && config.path == seq![
            PathPartView::Home,
            PathPartView::Text("log"@),
            PathPartView::Text("enhanced-events.jsonl"@),
        ]),
        env_path is None && file.enabled && file.path is None && home == Some(false) ==> (
        resolved_config(env_path, file, home) matches Some(config) && config.path == seq![
            PathPartView::Home,
            PathPartView::Home,
            PathPartView::Text("log"@),
            PathPartView::Text("enhanced-events.jsonl"@),
        ]),
        env_path is None && file.enabled ==> (file.path matches Some(path) ==> (!path.absolute
            && home is Some ==> (resolved_config(env_path, file, home) matches Some(config)
            && config.path == seq![PathPartView::Home, PathPartView::Text(path.text)]))),
        env_path is None && file.enabled ==> (file.path matches Some(path) ==> (!path.absolute
            && home is None ==> resolved_config(env_path, file, home) is None)),
        env_path is None && file.path is None && home is None ==> resolved_config(
            env_path,
            file,
            home,
        ) is None,
{
}

/// Files rotate exactly where they have to: a record that fits goes into the live file,
/// an empty file takes any record, and one that would grow beyond its bound is rotated
/// before. What is written is added to what the file holds.
pub proof fn law_files_rotate_where_they_have_to(fill: LogFill, record_bytes: u64, max_bytes: u64)
    ensures
        fill.bytes_written == 0 ==> !fill.rotates(record_bytes, max_bytes),
        fill.bytes_written + record_bytes <= max_bytes ==> !fill.rotates(record_bytes, max_bytes),
        fill.bytes_written > 0 && fill.bytes_written + record_bytes > max_bytes && max_bytes
            < u64::MAX ==> fill.rotates(record_bytes, max_bytes),
        fill.bytes_written + record_bytes <= u64::MAX ==> fill.filled(record_bytes).bytes_written
            == fill.bytes_written + record_bytes,
        fill.bytes_written + record_bytes > u64::MAX ==> fill.filled(record_bytes).bytes_written
            == u64::MAX,
{
}

/// A batch is written once it has 256 records or its time is over; until then the rest
/// of the time is waited for.
pub proof fn law_batches_are_full_or_late(
    gathered: usize,
    flush_interval_ms: u64,
    elapsed_nanos: u128,
)
    ensures
        ({
            let step = batch_step(gathered, flush_interval_ms, elapsed_nanos);
            &&& gathered >= 256 ==> step is Write
            &&& elapsed_nanos > 1_000_000 * flush_interval_ms ==> step is Write
            &&& step matches BatchStep::Wait { nanos } ==> gathered < 256 && nanos + elapsed_nanos
                == 1_000_000 * flush_interval_ms
        }),
{
}

/// Records are numbered one after the other from the number that was given last; where
/// the numbers run out the last one stays.
pub proof fn law_numbers_follow_one_another(sequence: u64, k: nat)
    ensures
        sequence + k <= u64::MAX ==> numbered(sequence, k) == sequence + k,
        sequence + k > u64::MAX ==> numbered(sequence, k) == u64::MAX,
{
}

/// A rotated file is told by its number behind a dot.
pub proof fn law_rotated_files_bear_their_number(index: nat)
    ensures
        suffix(index) == seq!['.'] + text::decimal(index),
{
    reveal_strlit(".");
    assert("."@ =~= seq!['.']);
}

/// What was dropped is told in a record of its own, behind those of the batch, where
/// anything was; the next batch goes on behind the last number that was given.
pub proof fn law_dropped_records_are_told(sequence: u64, records: nat, dropped: u64)
    requires
        sequence + records < u64::MAX,
    ensures
        dropped == 0 ==> dropped_number(sequence, records, dropped) is None && last_number(
            sequence,
            records,
            dropped,
        ) == sequence + records,
        dropped > 0 ==> dropped_number(sequence, records, dropped) == Some(
            (sequence + records + 1) as u64,
        ) && last_number(sequence, records, dropped) == sequence + records + 1,
{
}

} // verus!
