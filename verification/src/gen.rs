//! Outcome classification: a run's raw log text is parsed for the seed block
//! (four labeled tokens in fixed order, whitespace-tolerant) and then bucketed
//! as `Success`, `Abort` or `Crash` from the markers the log contains.

use vstd::prelude::*;

use crate::text::{append_bytes, contains_bytes, contains_seq, copy_range, match_at, match_bytes_at};

verus! {

/// A whitespace byte, as the seed pattern tolerates between its parts.
pub open spec fn is_ws(b: u8) -> bool {
    b == 32 || b == 9 || b == 10 || b == 13 || b == 12 || b == 11
}

/// A word byte: an alphanumeric character or an underscore, the alphabet of
/// one seed token.
pub open spec fn is_word(b: u8) -> bool {
    (48 <= b <= 57) || (65 <= b <= 90) || (97 <= b <= 122) || b == 95
}

/// The first position at or after `i` that does not hold whitespace.
pub open spec fn ws_end(s: Seq<u8>, i: int) -> int
    recommends
        0 <= i <= s.len(),
    decreases s.len() - i when 0 <= i <= s.len()
{
    if i >= s.len() || !is_ws(s[i]) {
        i
    } else {
        ws_end(s, i + 1)
    }
}

/// The first position at or after `i` that does not hold a word byte.
pub open spec fn word_end(s: Seq<u8>, i: int) -> int
    recommends
        0 <= i <= s.len(),
    decreases s.len() - i when 0 <= i <= s.len()
{
    if i >= s.len() || !is_word(s[i]) {
        i
    } else {
        word_end(s, i + 1)
    }
}

pub proof fn lemma_ws_end(s: Seq<u8>, i: int)
    requires
        0 <= i <= s.len(),
    ensures
        i <= ws_end(s, i) <= s.len(),
        forall|k: int| i <= k < ws_end(s, i) ==> is_ws(s[k]),
        ws_end(s, i) < s.len() ==> !is_ws(s[ws_end(s, i)]),
    decreases s.len() - i,
{
    if i < s.len() && is_ws(s[i]) {
        lemma_ws_end(s, i + 1);
    }
}

pub proof fn lemma_word_end(s: Seq<u8>, i: int)
    requires
        0 <= i <= s.len(),
    ensures
        i <= word_end(s, i) <= s.len(),
        forall|k: int| i <= k < word_end(s, i) ==> is_word(s[k]),
        word_end(s, i) < s.len() ==> !is_word(s[word_end(s, i)]),
    decreases s.len() - i,
{
    if i < s.len() && is_word(s[i]) {
        lemma_word_end(s, i + 1);
    }
}

/// "Seed:"
pub open spec fn seed_label() -> Seq<u8> {
    seq![83u8, 101u8, 101u8, 100u8, 58u8]
}

/// "History Seed:"
pub open spec fn history_label() -> Seq<u8> {
    seq![72u8, 105u8, 115u8, 116u8, 111u8, 114u8, 121u8, 32u8, 83u8, 101u8, 101u8, 100u8, 58u8]
}

/// "Name Seed:"
pub open spec fn name_label() -> Seq<u8> {
    seq![78u8, 97u8, 109u8, 101u8, 32u8, 83u8, 101u8, 101u8, 100u8, 58u8]
}

/// "Creature Seed:"
pub open spec fn creature_label() -> Seq<u8> {
    seq![
        67u8,
        114u8,
        101u8,
        97u8,
        116u8,
        117u8,
        114u8,
        101u8,
        32u8,
        83u8,
        101u8,
        101u8,
        100u8,
        58u8,
    ]
}

/// "World exported"
pub open spec fn success_marker() -> Seq<u8> {
    seq![
        87u8,
        111u8,
        114u8,
        108u8,
        100u8,
        32u8,
        101u8,
        120u8,
        112u8,
        111u8,
        114u8,
        116u8,
        101u8,
        100u8,
    ]
}

/// "aborted"
pub open spec fn abort_marker() -> Seq<u8> {
    seq![97u8, 98u8, 111u8, 114u8, 116u8, 101u8, 100u8]
}

/// The mathematical value of a seed tuple: the four extracted tokens.
pub ghost struct SeedsView {
    pub seed: Seq<u8>,
    pub history_seed: Seq<u8>,
    pub name_seed: Seq<u8>,
    pub creature_seed: Seq<u8>,
}

impl SeedsView {
    /// Every token is a nonempty run of word bytes, as extraction guarantees.
    pub open spec fn wf(self) -> bool {
        &&& self.seed.len() > 0
        &&& self.history_seed.len() > 0
        &&& self.name_seed.len() > 0
        &&& self.creature_seed.len() > 0
        &&& (forall|k: int| 0 <= k < self.seed.len() ==> is_word(self.seed[k]))
        &&& (forall|k: int| 0 <= k < self.history_seed.len() ==> is_word(self.history_seed[k]))
        &&& (forall|k: int| 0 <= k < self.name_seed.len() ==> is_word(self.name_seed[k]))
        &&& (forall|k: int| 0 <= k < self.creature_seed.len() ==> is_word(self.creature_seed[k]))
    }
}

/// Parse one seed block starting exactly at position `i`: the four labels in
/// fixed order, each followed by optional whitespace and a nonempty token of
/// word bytes, with optional whitespace between a token and the next label.
pub open spec fn block_parse(s: Seq<u8>, i: int) -> Option<SeedsView> {
    if !match_at(s, seed_label(), i) {
        None
    } else {
        let q1 = ws_end(s, i + seed_label().len());
        let e1 = word_end(s, q1);
        if e1 <= q1 {
            None
        } else {
            let p2 = ws_end(s, e1);
            if !match_at(s, history_label(), p2) {
                None
            } else {
                let q2 = ws_end(s, p2 + history_label().len());
                let e2 = word_end(s, q2);
                if e2 <= q2 {
                    None
                } else {
                    let p3 = ws_end(s, e2);
                    if !match_at(s, name_label(), p3) {
                        None
                    } else {
                        let q3 = ws_end(s, p3 + name_label().len());
                        let e3 = word_end(s, q3);
                        if e3 <= q3 {
                            None
                        } else {
                            let p4 = ws_end(s, e3);
                            if !match_at(s, creature_label(), p4) {
                                None
                            } else {
                                let q4 = ws_end(s, p4 + creature_label().len());
                                let e4 = word_end(s, q4);
                                if e4 <= q4 {
                                    None
                                } else {
                                    Some(
                                        SeedsView {
                                            seed: s.subrange(q1, e1),
                                            history_seed: s.subrange(q2, e2),
                                            name_seed: s.subrange(q3, e3),
                                            creature_seed: s.subrange(q4, e4),
                                        },
                                    )
                                }
                            }
                        }
                    }
                }
            }
        }
    }
}

/// The log holds a seed block somewhere.
pub open spec fn has_block(s: Seq<u8>) -> bool {
    exists|i: int| block_parse(s, i) is Some
}

/// `i` is the first position at which a seed block matches; the log is
/// append-only, so the first block is the authoritative one.
pub open spec fn is_first_block(s: Seq<u8>, i: int) -> bool {
    &&& block_parse(s, i) is Some
    &&& forall|j: int| 0 <= j < i ==> block_parse(s, j) is None
}

/// The position of the first seed block.
pub open spec fn first_block_at(s: Seq<u8>) -> int {
    choose|i: int| is_first_block(s, i)
}

/// The seed tuple of the first seed block.
pub open spec fn log_seeds(s: Seq<u8>) -> SeedsView
    recommends
        has_block(s),
{
    block_parse(s, first_block_at(s)).unwrap()
}

/// Wherever some block matches, a first block exists.
pub proof fn lemma_first_block_exists(s: Seq<u8>, i: int)
    requires
        block_parse(s, i) is Some,
    ensures
        is_first_block(s, first_block_at(s)),
        has_block(s),
    decreases i,
{
    if exists|j: int| 0 <= j < i && block_parse(s, j) is Some {
        let j = choose|j: int| 0 <= j < i && block_parse(s, j) is Some;
        lemma_first_block_exists(s, j);
    } else {
        assert(is_first_block(s, i));
        let w = choose|m: int| is_first_block(s, m);
        assert(is_first_block(s, w));
    }
}

/// The first block position is unique.
pub proof fn lemma_first_block_unique(s: Seq<u8>, i: int, j: int)
    requires
        is_first_block(s, i),
        is_first_block(s, j),
    ensures
        i == j,
{
}

/// Classification policy: the success marker wins, else the abort marker,
/// else the run counts as a crash.
pub open spec fn classify(s: Seq<u8>) -> WorldGenResult {
    if contains_seq(s, success_marker()) {
        WorldGenResult::Success
    } else if contains_seq(s, abort_marker()) {
        WorldGenResult::Abort
    } else {
        WorldGenResult::Crash
    }
}

/// A log that holds the success marker classifies as `Success`, wherever the
/// marker stands relative to the seed block.
pub proof fn lemma_success_priority(log: Seq<u8>)
    requires
        has_block(log),
        contains_seq(log, success_marker()),
    ensures
        classify(log) is Success,
{
}

/// A log with a seed block and neither marker classifies as `Crash`: the
/// crash bucket is the default for every run that neither completed nor was
/// explicitly aborted.
pub proof fn lemma_default_crash(log: Seq<u8>)
    requires
        has_block(log),
        !contains_seq(log, success_marker()),
        !contains_seq(log, abort_marker()),
    ensures
        classify(log) is Crash,
{
}

/// The tokens of the first seed block are nonempty runs of word bytes.
pub proof fn lemma_block_tokens_wf(s: Seq<u8>, i: int)
    requires
        block_parse(s, i) is Some,
    ensures
        block_parse(s, i).unwrap().wf(),
{
    let q1 = ws_end(s, i + seed_label().len());
    lemma_ws_end(s, i + seed_label().len());
    let e1 = word_end(s, q1);
    lemma_word_end(s, q1);
    let p2 = ws_end(s, e1);
    lemma_ws_end(s, e1);
    let q2 = ws_end(s, p2 + history_label().len());
    lemma_ws_end(s, p2 + history_label().len());
    let e2 = word_end(s, q2);
    lemma_word_end(s, q2);
    let p3 = ws_end(s, e2);
    lemma_ws_end(s, e2);
    let q3 = ws_end(s, p3 + name_label().len());
    lemma_ws_end(s, p3 + name_label().len());
    let e3 = word_end(s, q3);
    lemma_word_end(s, q3);
    let p4 = ws_end(s, e3);
    lemma_ws_end(s, e3);
    let q4 = ws_end(s, p4 + creature_label().len());
    lemma_ws_end(s, p4 + creature_label().len());
    let e4 = word_end(s, q4);
    lemma_word_end(s, q4);
}

fn is_ws_b(b: u8) -> (r: bool)
    ensures
        r == is_ws(b),
{
    b == 32 || b == 9 || b == 10 || b == 13 || b == 12 || b == 11
}

pub(crate) fn is_word_b(b: u8) -> (r: bool)
    ensures
        r == is_word(b),
{
    (48 <= b && b <= 57) || (65 <= b && b <= 90) || (97 <= b && b <= 122) || b == 95
}

/// Advance past whitespace.
fn ws_end_x(s: &Vec<u8>, i: usize) -> (r: usize)
    requires
        i <= s@.len(),
    ensures
        r == ws_end(s@, i as int),
        i <= r <= s@.len(),
{
    proof {
        lemma_ws_end(s@, i as int);
    }
    let n = s.len();
    let mut j = i;
    loop
        invariant
            i <= j <= n,
            n == s@.len(),
            ws_end(s@, i as int) == ws_end(s@, j as int),
        ensures
            j == ws_end(s@, i as int),
        decreases n - j,
    {
        if j == n {
            break ;
        }
        if !is_ws_b(s[j]) {
            break ;
        }
        assert(ws_end(s@, j as int) == ws_end(s@, j + 1));
        j += 1;
    }
    j
}

/// Advance past word bytes.
fn word_end_x(s: &Vec<u8>, i: usize) -> (r: usize)
    requires
        i <= s@.len(),
    ensures
        r == word_end(s@, i as int),
        i <= r <= s@.len(),
{
    proof {
        lemma_word_end(s@, i as int);
    }
    let n = s.len();
    let mut j = i;
    loop
        invariant
            i <= j <= n,
            n == s@.len(),
            word_end(s@, i as int) == word_end(s@, j as int),
        ensures
            j == word_end(s@, i as int),
        decreases n - j,
    {
        if j == n {
            break ;
        }
        if !is_word_b(s[j]) {
            break ;
        }
        assert(word_end(s@, j as int) == word_end(s@, j + 1));
        j += 1;
    }
    j
}

/// Whether `label` occurs in `s` starting exactly at `p`; safe at any `p`
/// within the text.
fn label_at(s: &Vec<u8>, p: usize, label: &Vec<u8>) -> (r: bool)
    requires
        p <= s@.len(),
    ensures
        r == match_at(s@, label@, p as int),
{
    let n = s.len();
    if n - p < label.len() {
        return false;
    }
    match_bytes_at(s, label, p)
}

/// The exec copies of the labels and markers the classifier scans for.
struct Labels {
    seed: Vec<u8>,
    history: Vec<u8>,
    name: Vec<u8>,
    creature: Vec<u8>,
    success: Vec<u8>,
    abort: Vec<u8>,
}

impl Labels {
    spec fn wf(&self) -> bool {
        &&& self.seed@ == seed_label()
        &&& self.history@ == history_label()
        &&& self.name@ == name_label()
        &&& self.creature@ == creature_label()
        &&& self.success@ == success_marker()
        &&& self.abort@ == abort_marker()
    }

    fn new() -> (r: Labels)
        ensures
            r.wf(),
    {
        let seed = vec![83u8, 101u8, 101u8, 100u8, 58u8];
        let history = vec![
            72u8, 105u8, 115u8, 116u8, 111u8, 114u8, 121u8, 32u8, 83u8, 101u8, 101u8, 100u8, 58u8,
        ];
        let name = vec![78u8, 97u8, 109u8, 101u8, 32u8, 83u8, 101u8, 101u8, 100u8, 58u8];
        let creature = vec![
            67u8, 114u8, 101u8, 97u8, 116u8, 117u8, 114u8, 101u8, 32u8, 83u8, 101u8, 101u8, 100u8,
            58u8,
        ];
        let success = vec![
            87u8, 111u8, 114u8, 108u8, 100u8, 32u8, 101u8, 120u8, 112u8, 111u8, 114u8, 116u8,
            101u8, 100u8,
        ];
        let abort = vec![97u8, 98u8, 111u8, 114u8, 116u8, 101u8, 100u8];
        assert(seed@ =~= seed_label());
        assert(history@ =~= history_label());
        assert(name@ =~= name_label());
        assert(creature@ =~= creature_label());
        assert(success@ =~= success_marker());
        assert(abort@ =~= abort_marker());
        Labels { seed, history, name, creature, success, abort }
    }
}

/// Why a run attempt produced no outcome.
#[derive(PartialEq, Eq, Structural, Clone, Copy, Debug)]
pub enum GenError {
    /// The log holds no seed block: a malformed or truncated log.
    NoSeeds,
    /// The log file could not be read at all.
    LogMissing,
    /// The parameter template could not be copied into the sandbox.
    InjectFailed,
    /// The crash record could not be written.
    ArchiveFailed,
}

/// How one completed run ended.
#[derive(PartialEq, Eq, Structural, Clone, Copy, Debug)]
pub enum WorldGenResult {
    Abort,
    Crash,
    Success,
}

/// The four opaque tokens that identify the deterministic path one run took.
#[derive(Debug, Clone)]
pub struct WorldGenSeeds {
    seed: Vec<u8>,
    history_seed: Vec<u8>,
    name_seed: Vec<u8>,
    creature_seed: Vec<u8>,
}

impl View for WorldGenSeeds {
    type V = SeedsView;

    closed spec fn view(&self) -> SeedsView {
        SeedsView {
            seed: self.seed@,
            history_seed: self.history_seed@,
            name_seed: self.name_seed@,
            creature_seed: self.creature_seed@,
        }
    }
}

impl WorldGenSeeds {
    pub fn new(seed: Vec<u8>, history_seed: Vec<u8>, name_seed: Vec<u8>, creature_seed: Vec<u8>) -> (r:
        WorldGenSeeds)
        ensures
            r@ == (SeedsView {
                seed: seed@,
                history_seed: history_seed@,
                name_seed: name_seed@,
                creature_seed: creature_seed@,
            }),
    {
        WorldGenSeeds { seed, history_seed, name_seed, creature_seed }
    }

    pub fn seed(&self) -> (r: &Vec<u8>)
        ensures
            r@ == self@.seed,
    {
        &self.seed
    }

    pub fn history_seed(&self) -> (r: &Vec<u8>)
        ensures
            r@ == self@.history_seed,
    {
        &self.history_seed
    }

    pub fn name_seed(&self) -> (r: &Vec<u8>)
        ensures
            r@ == self@.name_seed,
    {
        &self.name_seed
    }

    pub fn creature_seed(&self) -> (r: &Vec<u8>)
        ensures
            r@ == self@.creature_seed,
    {
        &self.creature_seed
    }
}

/// One run's classification: how it ended, and the seed tuple that
/// deterministically reproduces it.
#[derive(Debug)]
pub struct WorldGenResults {
    pub result: WorldGenResult,
    pub seeds: WorldGenSeeds,
}

/// " / "
pub open spec fn seed_sep() -> Seq<u8> {
    seq![32u8, 47u8, 32u8]
}

/// The name of one result bucket.
pub open spec fn result_name(r: WorldGenResult) -> Seq<u8> {
    match r {
        WorldGenResult::Abort => seq![65u8, 98u8, 111u8, 114u8, 116u8],
        WorldGenResult::Crash => seq![67u8, 114u8, 97u8, 115u8, 104u8],
        WorldGenResult::Success => seq![83u8, 117u8, 99u8, 99u8, 101u8, 115u8, 115u8],
    }
}

/// The console rendering of one outcome: the bucket name, then the four seed
/// tokens, bracketed and separated.
pub open spec fn summary_view(r: WorldGenResult, s: SeedsView) -> Seq<u8> {
    result_name(r) + seq![32u8, 91u8] + s.seed + seed_sep() + s.history_seed + seed_sep()
        + s.name_seed + seed_sep() + s.creature_seed + seq![93u8]
}

fn result_name_x(w: &WorldGenResult) -> (r: Vec<u8>)
    ensures
        r@ == result_name(*w),
{
    match w {
        WorldGenResult::Abort => {
            let v = vec![65u8, 98u8, 111u8, 114u8, 116u8];
            assert(v@ =~= result_name(WorldGenResult::Abort));
            v
        },
        WorldGenResult::Crash => {
            let v = vec![67u8, 114u8, 97u8, 115u8, 104u8];
            assert(v@ =~= result_name(WorldGenResult::Crash));
            v
        },
        WorldGenResult::Success => {
            let v = vec![83u8, 117u8, 99u8, 99u8, 101u8, 115u8, 115u8];
            assert(v@ =~= result_name(WorldGenResult::Success));
            v
        },
    }
}

impl WorldGenResults {
    /// Render the outcome as one console line's bytes.
    pub fn summary(&self) -> (r: Vec<u8>)
        ensures
            r@ == summary_view(self.result, self.seeds@),
    {
        let mut r = result_name_x(&self.result);
        r.push(32u8);
        r.push(91u8);
        append_bytes(&mut r, self.seeds.seed());
        r.push(32u8);
        r.push(47u8);
        r.push(32u8);
        append_bytes(&mut r, self.seeds.history_seed());
        r.push(32u8);
        r.push(47u8);
        r.push(32u8);
        append_bytes(&mut r, self.seeds.name_seed());
        r.push(32u8);
        r.push(47u8);
        r.push(32u8);
        append_bytes(&mut r, self.seeds.creature_seed());
        r.push(93u8);
        assert(r@ =~= summary_view(self.result, self.seeds@));
        r
    }
}

/// Parse one seed block starting exactly at `i`, handing back the four
/// tokens.
fn try_block_at(s: &Vec<u8>, i: usize, lab: &Labels) -> (r: Option<WorldGenSeeds>)
    requires
        i <= s@.len(),
        lab.wf(),
    ensures
        (r is Some) == (block_parse(s@, i as int) is Some),
        r matches Some(w) ==> w@ == block_parse(s@, i as int).unwrap(),
{
    let n = s.len();
    if !label_at(s, i, &lab.seed) {
        return None;
    }
    assert(i + lab.seed@.len() <= n);
    let q1 = ws_end_x(s, i + lab.seed.len());
    let e1 = word_end_x(s, q1);
    if e1 <= q1 {
        return None;
    }
    let p2 = ws_end_x(s, e1);
    if !label_at(s, p2, &lab.history) {
        return None;
    }
    assert(p2 + lab.history@.len() <= n);
    let q2 = ws_end_x(s, p2 + lab.history.len());
    let e2 = word_end_x(s, q2);
    if e2 <= q2 {
        return None;
    }
    let p3 = ws_end_x(s, e2);
    if !label_at(s, p3, &lab.name) {
        return None;
    }
    assert(p3 + lab.name@.len() <= n);
    let q3 = ws_end_x(s, p3 + lab.name.len());
    let e3 = word_end_x(s, q3);
    if e3 <= q3 {
        return None;
    }
    let p4 = ws_end_x(s, e3);
    if !label_at(s, p4, &lab.creature) {
        return None;
    }
    assert(p4 + lab.creature@.len() <= n);
    let q4 = ws_end_x(s, p4 + lab.creature.len());
    let e4 = word_end_x(s, q4);
    if e4 <= q4 {
        return None;
    }
    let seeds = WorldGenSeeds {
        seed: copy_range(s, q1, e1),
        history_seed: copy_range(s, q2, e2),
        name_seed: copy_range(s, q3, e3),
        creature_seed: copy_range(s, q4, e4),
    };
    Some(seeds)
}

/// Classify one run from the full text of its log: extract the seed tuple of
/// the first seed block, then bucket the run as `Success`, `Abort` or
/// `Crash`. A log without a seed block yields no outcome at all.
pub fn get_gen_results(log: &Vec<u8>) -> (r: Result<WorldGenResults, GenError>)
    ensures
        (r is Ok) <==> has_block(log@),
        r matches Ok(res) ==> res.seeds@ == log_seeds(log@) && res.seeds@.wf() && res.result
            == classify(log@),
        r matches Err(e) ==> e == GenError::NoSeeds,
{
    let lab = Labels::new();
    let n = log.len();
    let mut i: usize = 0;
    while i < n
        invariant
            lab.wf(),
            n == log@.len(),
            0 <= i <= n,
            forall|j: int| 0 <= j < i ==> block_parse(log@, j) is None,
        decreases n - i,
    {
        let found = try_block_at(log, i, &lab);
        if let Some(seeds) = found {
            proof {
                lemma_first_block_exists(log@, i as int);
                lemma_first_block_unique(log@, i as int, first_block_at(log@));
                lemma_block_tokens_wf(log@, i as int);
            }
            let success = contains_bytes(log, &lab.success);
            let abort = contains_bytes(log, &lab.abort);
            let result = if success {
                WorldGenResult::Success
            } else if abort {
                WorldGenResult::Abort
            } else {
                WorldGenResult::Crash
            };
            return Ok(WorldGenResults { result, seeds });
        }
        i += 1;
    }
    proof {
        assert forall|j: int| block_parse(log@, j) is None by {
            if match_at(log@, seed_label(), j) {
                assert(0 <= j < n);
            }
        }
    }
    Err(GenError::NoSeeds)
}

} // verus!
