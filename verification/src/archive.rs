//! Crash archiving: turn the parameter template of a crashed run and its seed
//! tuple into the content of a durable crash record, and name that record by
//! platform and timestamp. The seed overrides are spliced in immediately
//! before the template's third line, so every archived record carries them at
//! the same fixed offset.

use vstd::prelude::*;

use crate::gen::{SeedsView, WorldGenSeeds, is_word, is_word_b};
use crate::text::{append_bytes, copy_range, match_bytes_at};
use crate::Platform;
use vstd::string::StringExecFns;

verus! {

/// "SEED"
pub open spec fn seed_tag() -> Seq<u8> {
    seq![83u8, 69u8, 69u8, 68u8]
}

/// "HISTORY_SEED"
pub open spec fn history_tag() -> Seq<u8> {
    seq![72u8, 73u8, 83u8, 84u8, 79u8, 82u8, 89u8, 95u8, 83u8, 69u8, 69u8, 68u8]
}

/// "NAME_SEED"
pub open spec fn name_tag() -> Seq<u8> {
    seq![78u8, 65u8, 77u8, 69u8, 95u8, 83u8, 69u8, 69u8, 68u8]
}

/// "CREATURE_SEED"
pub open spec fn creature_tag() -> Seq<u8> {
    seq![67u8, 82u8, 69u8, 65u8, 84u8, 85u8, 82u8, 69u8, 95u8, 83u8, 69u8, 69u8, 68u8]
}

/// One seed-override line: a tab, then the bracketed tag and token.
pub open spec fn override_line(tag: Seq<u8>, token: Seq<u8>) -> Seq<u8> {
    seq![9u8, 91u8] + tag + seq![58u8] + token + seq![93u8]
}

/// The four override lines for one seed tuple, in the fixed order.
pub open spec fn seed_lines(s: SeedsView) -> Seq<Seq<u8>> {
    seq![
        override_line(seed_tag(), s.seed),
        override_line(history_tag(), s.history_seed),
        override_line(name_tag(), s.name_seed),
        override_line(creature_tag(), s.creature_seed),
    ]
}

/// The lines of a vector of lines, as byte sequences.
pub open spec fn lines_view(t: Seq<Vec<u8>>) -> Seq<Seq<u8>> {
    Seq::new(t.len(), |i: int| t[i]@)
}

/// The content of a crash record: the template's lines with the four seed
/// overrides spliced in before the third line. A template of fewer than three
/// lines has no insertion point and is copied as it stands.
pub open spec fn crash_record(template: Seq<Seq<u8>>, s: SeedsView) -> Seq<Seq<u8>> {
    if template.len() <= 2 {
        template
    } else {
        template.subrange(0, 2) + seed_lines(s) + template.subrange(2, template.len() as int)
    }
}

/// The part of the crash record built once the first `i` template lines are
/// consumed.
spec fn crash_record_prefix(template: Seq<Seq<u8>>, s: SeedsView, i: int) -> Seq<Seq<u8>> {
    if i <= 2 {
        template.subrange(0, i)
    } else {
        template.subrange(0, 2) + seed_lines(s) + template.subrange(2, i)
    }
}

/// Build one seed-override line.
fn override_line_x(tag: &Vec<u8>, token: &Vec<u8>) -> (r: Vec<u8>)
    ensures
        r@ == override_line(tag@, token@),
{
    let mut r: Vec<u8> = Vec::new();
    r.push(9u8);
    r.push(91u8);
    append_bytes(&mut r, tag);
    r.push(58u8);
    append_bytes(&mut r, token);
    r.push(93u8);
    assert(r@ =~= override_line(tag@, token@));
    r
}

/// Copy one line.
fn copy_line(src: &Vec<u8>) -> (r: Vec<u8>)
    ensures
        r@ == src@,
{
    let mut r: Vec<u8> = Vec::new();
    append_bytes(&mut r, src);
    assert(r@ =~= src@);
    r
}

/// The exec copies of the override tags.
struct Tags {
    seed: Vec<u8>,
    history: Vec<u8>,
    name: Vec<u8>,
    creature: Vec<u8>,
}

impl Tags {
    spec fn wf(&self) -> bool {
        &&& self.seed@ == seed_tag()
        &&& self.history@ == history_tag()
        &&& self.name@ == name_tag()
        &&& self.creature@ == creature_tag()
    }

    fn new() -> (r: Tags)
        ensures
            r.wf(),
    {
        let seed = vec![83u8, 69u8, 69u8, 68u8];
        let history = vec![72u8, 73u8, 83u8, 84u8, 79u8, 82u8, 89u8, 95u8, 83u8, 69u8, 69u8, 68u8];
        let name = vec![78u8, 65u8, 77u8, 69u8, 95u8, 83u8, 69u8, 69u8, 68u8];
        let creature = vec![
            67u8, 82u8, 69u8, 65u8, 84u8, 85u8, 82u8, 69u8, 95u8, 83u8, 69u8, 69u8, 68u8,
        ];
        assert(seed@ =~= seed_tag());
        assert(history@ =~= history_tag());
        assert(name@ =~= name_tag());
        assert(creature@ =~= creature_tag());
        Tags { seed, history, name, creature }
    }
}

/// Produce the lines of the crash record that reproduces the run `seeds`
/// identifies: the template lines with the four seed overrides spliced in
/// before the third line.
pub fn log_crash(template: &Vec<Vec<u8>>, seeds: &WorldGenSeeds) -> (r: Vec<Vec<u8>>)
    ensures
        lines_view(r@) == crash_record(lines_view(template@), seeds@),
{
    let tags = Tags::new();
    let mut out: Vec<Vec<u8>> = Vec::new();
    let n = template.len();
    let mut i: usize = 0;
    while i < n
        invariant
            tags.wf(),
            n == template@.len(),
            0 <= i <= n,
            lines_view(out@) == crash_record_prefix(lines_view(template@), seeds@, i as int),
        decreases n - i,
    {
        let ghost before = out@;
        if i == 2 {
            out.push(override_line_x(&tags.seed, seeds.seed()));
            out.push(override_line_x(&tags.history, seeds.history_seed()));
            out.push(override_line_x(&tags.name, seeds.name_seed()));
            out.push(override_line_x(&tags.creature, seeds.creature_seed()));
        }
        out.push(copy_line(&template[i]));
        proof {
            let t = lines_view(template@);
            let cur = lines_view(out@);
            let pre = crash_record_prefix(t, seeds@, i + 1);
            assert(t.len() == n);
            assert(cur.len() == out@.len());
            assert(lines_view(before).len() == before.len());
            assert(cur.len() == pre.len());
            assert forall|k: int| 0 <= k < cur.len() implies cur[k] == pre[k] by {
                assert(cur[k] == out@[k]@);
                if k < before.len() {
                    assert(out@[k] == before[k]);
                    assert(lines_view(before)[k] == before[k]@);
                }
            }
            assert(cur =~= pre);
        }
        i += 1;
    }
    assert(lines_view(out@) =~~= crash_record(lines_view(template@), seeds@));
    out
}

/// The name of a crash record: platform identifier, then a timestamp, then
/// the extension, so that names sort by time and stay unique under rapid
/// concurrent archiving.
pub open spec fn record_name(p: Platform, stamp: Seq<char>) -> Seq<char> {
    p.name_spec() + "-"@ + stamp + ".txt"@
}

/// Relies on chrono's `Utc::now` and date formatting: a UTC timestamp as
/// year, month and day, then hour, minute and second, then nanoseconds, each
/// field zero-padded to its full width (4+2+2, 2+2+2 and 9 digits), with one
/// separator inside each of the two gaps.
#[verifier::external_body]
fn utc_stamp() -> (r: String)
    ensures
        r@.len() >= 25,
{
    chrono::Utc::now().format("%Y%m%d-%H%M%S-%f").to_string()
}

/// Name a new crash record after the platform and the moment of archiving.
pub fn crash_file_name(p: Platform) -> (r: String)
    ensures
        exists|stamp: Seq<char>| r@ == record_name(p, stamp) && stamp.len() >= 25,
{
    let stamp = utc_stamp();
    let mut r = String::from_str(p.name());
    r.append("-");
    r.append(stamp.as_str());
    r.append(".txt");
    proof {
        assert(r@ == record_name(p, stamp@));
    }
    r
}

/// `line` has the shape of one seed-override line for `tag`: the bracketed
/// tag, then a nonempty token of word bytes.
pub open spec fn override_shape_ok(line: Seq<u8>, tag: Seq<u8>) -> bool {
    &&& line.len() >= tag.len() + 5
    &&& line.subrange(0, 2) == seq![9u8, 91u8]
    &&& line.subrange(2, 2 + tag.len() as int) == tag
    &&& line[2 + tag.len() as int] == 58
    &&& line[line.len() - 1] == 93
    &&& forall|k: int| 3 + tag.len() <= k < line.len() - 1 ==> is_word(line[k])
}

/// The token of one seed-override line, if the line has the right shape.
pub open spec fn parse_override(line: Seq<u8>, tag: Seq<u8>) -> Option<Seq<u8>> {
    if override_shape_ok(line, tag) {
        Some(line.subrange(3 + tag.len() as int, line.len() - 1))
    } else {
        None
    }
}

/// The seed tuple carried by an archived crash record: the four override
/// lines stand at the fixed insertion offset, lines three to six.
pub open spec fn parse_archived(lines: Seq<Seq<u8>>) -> Option<SeedsView> {
    if lines.len() < 6 {
        None
    } else {
        let s = parse_override(lines[2], seed_tag());
        let h = parse_override(lines[3], history_tag());
        let n = parse_override(lines[4], name_tag());
        let c = parse_override(lines[5], creature_tag());
        if s is Some && h is Some && n is Some && c is Some {
            Some(
                SeedsView {
                    seed: s.unwrap(),
                    history_seed: h.unwrap(),
                    name_seed: n.unwrap(),
                    creature_seed: c.unwrap(),
                },
            )
        } else {
            None
        }
    }
}

/// An override line built from a well-formed token parses back to that token.
proof fn lemma_override_roundtrip(tag: Seq<u8>, token: Seq<u8>)
    requires
        token.len() > 0,
        forall|k: int| 0 <= k < token.len() ==> is_word(token[k]),
    ensures
        parse_override(override_line(tag, token), tag) == Some(token),
{
    let line = override_line(tag, token);
    assert(line.len() == tag.len() + token.len() + 4);
    assert(line.subrange(0, 2) =~= seq![9u8, 91u8]);
    assert(line.subrange(2, 2 + tag.len() as int) =~= tag);
    assert(line[2 + tag.len() as int] == 58);
    assert(line[line.len() - 1] == 93);
    assert forall|k: int| 3 + tag.len() <= k < line.len() - 1 implies is_word(line[k]) by {
        assert(line[k] == token[k - 3 - tag.len()]);
    }
    assert(line.subrange(3 + tag.len() as int, line.len() - 1) =~= token);
}

/// Law: re-parsing an archived crash record recovers exactly the four seed
/// values that were archived, at the fixed insertion lines.
pub proof fn lemma_crash_record_roundtrip(template: Seq<Seq<u8>>, s: SeedsView)
    requires
        s.wf(),
        template.len() > 2,
    ensures
        parse_archived(crash_record(template, s)) == Some(s),
{
    let rec = crash_record(template, s);
    assert(rec.len() == template.len() + 4);
    assert(rec[2] == override_line(seed_tag(), s.seed));
    assert(rec[3] == override_line(history_tag(), s.history_seed));
    assert(rec[4] == override_line(name_tag(), s.name_seed));
    assert(rec[5] == override_line(creature_tag(), s.creature_seed));
    lemma_override_roundtrip(seed_tag(), s.seed);
    lemma_override_roundtrip(history_tag(), s.history_seed);
    lemma_override_roundtrip(name_tag(), s.name_seed);
    lemma_override_roundtrip(creature_tag(), s.creature_seed);
}

/// Law: archiving is deterministic in content: two records archived from the
/// same template and seed tuple have identical bodies, whatever names their
/// files receive.
pub proof fn lemma_crash_record_deterministic(
    r1: Seq<Seq<u8>>,
    r2: Seq<Seq<u8>>,
    template: Seq<Seq<u8>>,
    s: SeedsView,
)
    requires
        r1 == crash_record(template, s),
        r2 == crash_record(template, s),
    ensures
        r1 == r2,
{
}

/// Parse one seed-override line of an archived record.
fn parse_override_x(line: &Vec<u8>, tag: &Vec<u8>) -> (r: Option<Vec<u8>>)
    ensures
        (r is Some) == (parse_override(line@, tag@) is Some),
        r matches Some(t) ==> t@ == parse_override(line@, tag@).unwrap(),
{
    let n = line.len();
    let tl = tag.len();
    if n < 5 {
        return None;
    }
    if n - 5 < tl {
        return None;
    }
    if !(line[0] == 9 && line[1] == 91) {
        assert(line@.subrange(0, 2) != seq![9u8, 91u8]) by {
            if line@.subrange(0, 2) == seq![9u8, 91u8] {
                assert(line@[0] == line@.subrange(0, 2)[0]);
                assert(line@[1] == line@.subrange(0, 2)[1]);
            }
        }
        return None;
    }
    assert(line@.subrange(0, 2) =~= seq![9u8, 91u8]);
    if !match_bytes_at(line, tag, 2) {
        return None;
    }
    if line[2 + tl] != 58 {
        return None;
    }
    if line[n - 1] != 93 {
        return None;
    }
    let mut k = 3 + tl;
    while k < n - 1
        invariant
            n == line@.len(),
            tl == tag@.len(),
            n >= tl + 5,
            3 + tl <= k <= n - 1,
            forall|j: int| 3 + tl <= j < k ==> is_word(line@[j]),
        decreases n - k,
    {
        if !is_word_b(line[k]) {
            return None;
        }
        k += 1;
    }
    let token = copy_range(line, 3 + tl, n - 1);
    Some(token)
}

/// Read the seed tuple back out of an archived crash record's lines.
pub fn read_archived_seeds(lines: &Vec<Vec<u8>>) -> (r: Option<WorldGenSeeds>)
    ensures
        (r is Some) == (parse_archived(lines_view(lines@)) is Some),
        r matches Some(w) ==> w@ == parse_archived(lines_view(lines@)).unwrap(),
{
    let tags = Tags::new();
    if lines.len() < 6 {
        return None;
    }
    let s = parse_override_x(&lines[2], &tags.seed);
    let h = parse_override_x(&lines[3], &tags.history);
    let n = parse_override_x(&lines[4], &tags.name);
    let c = parse_override_x(&lines[5], &tags.creature);
    match (s, h, n, c) {
        (Some(seed), Some(history), Some(name), Some(creature)) => Some(
            WorldGenSeeds::new(seed, history, name, creature),
        ),
        _ => None,
    }
}

} // verus!
