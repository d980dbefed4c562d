use vstd::prelude::*;

use crate::config::ConfigStore;
use crate::config::ScaleConfig;
use crate::config::ScaleConfigView;
use crate::table::ActiveNoteTable;

verus! {

/// One control-surface command, already parsed into a typed value before it
/// reaches any state: a full reset, a scale replacement, or a line to ignore.
/// In a scale replacement, a field that failed to parse is absent and reverts
/// to bypass semantics rather than leaving stale state behind.
pub enum ControlCommand {
    Stop,
    SetScale { root: Option<u8>, intervals: Option<Vec<u8>> },
    Ignore,
}

/// Mathematical view of a [`ControlCommand`].
pub enum ControlCommandView {
    Stop,
    SetScale { root: Option<u8>, intervals: Option<Seq<u8>> },
    Ignore,
}

impl View for ControlCommand {
    type V = ControlCommandView;

    closed spec fn view(&self) -> ControlCommandView {
        match self {
            ControlCommand::Stop => ControlCommandView::Stop,
            ControlCommand::SetScale { root, intervals } => ControlCommandView::SetScale {
                root: *root,
                intervals: match intervals {
                    Some(v) => Some(v@),
                    None => None,
                },
            },
            ControlCommand::Ignore => ControlCommandView::Ignore,
        }
    }
}

/// ASCII whitespace, as the tokenizer treats it.
pub open spec fn is_space(b: u8) -> bool {
    b == 32 || (9 <= b && b <= 13)
}

/// Index of the first non-whitespace byte at or after `from`.
pub open spec fn skip_spaces(s: Seq<u8>, from: int) -> int
    decreases s.len() - from,
{
    if from < 0 || from >= s.len() || !is_space(s[from]) {
        from
    } else {
        skip_spaces(s, from + 1)
    }
}

/// Index just past the run of non-whitespace bytes starting at `from`.
pub open spec fn token_end(s: Seq<u8>, from: int) -> int
    decreases s.len() - from,
{
    if from < 0 || from >= s.len() || is_space(s[from]) {
        from
    } else {
        token_end(s, from + 1)
    }
}

/// The first whitespace-delimited token at or after `from`; empty when only
/// whitespace remains.
pub open spec fn token_at(s: Seq<u8>, from: int) -> Seq<u8> {
    s.subrange(skip_spaces(s, from), token_end(s, skip_spaces(s, from)))
}

/// Index just past the token that [`token_at`] finds.
pub open spec fn next_from(s: Seq<u8>, from: int) -> int {
    token_end(s, skip_spaces(s, from))
}

/// A decimal digit byte.
pub open spec fn is_digit(b: u8) -> bool {
    48 <= b && b <= 57
}

/// Whether every byte of `s` is a decimal digit.
pub open spec fn all_digits(s: Seq<u8>) -> bool {
    forall|i: int| 0 <= i < s.len() ==> is_digit(#[trigger] s[i])
}

/// The integer a sequence of decimal digit bytes denotes.
pub open spec fn dec_value(s: Seq<u8>) -> int
    decreases s.len(),
{
    if s.len() == 0 {
        0
    } else {
        dec_value(s.drop_last()) * 10 + (s.last() - 48)
    }
}

/// What parsing a token as a byte returns: the denoted value when the token
/// is a non-empty string of decimal digits denoting at most 255, else
/// nothing.
pub open spec fn dec_byte(s: Seq<u8>) -> Option<u8> {
    if s.len() > 0 && all_digits(s) && dec_value(s) <= 255 {
        Some(dec_value(s) as u8)
    } else {
        None
    }
}

/// The bytes of the token `stop`.
pub open spec fn stop_token() -> Seq<u8> {
    seq![115u8, 116u8, 111u8, 112u8]
}

/// The bytes of the token `set`.
pub open spec fn set_token() -> Seq<u8> {
    seq![115u8, 101u8, 116u8]
}

/// What the result of deserializing a JSON array of bytes is; a function of
/// the input bytes alone, named rather than spelled out.
pub uninterp spec fn json_byte_array(s: Seq<u8>) -> Option<Seq<u8>>;

/// What parsing one control line returns: the first token selects the
/// command; for `set`, the second token is parsed as a decimal byte and the
/// third as a JSON array of bytes, each failure standing as an absent field.
pub open spec fn spec_parse_control(s: Seq<u8>) -> ControlCommandView {
    let t1 = token_at(s, 0);
    if t1 == stop_token() {
        ControlCommandView::Stop
    } else if t1 == set_token() {
        let p1 = next_from(s, 0);
        let p2 = next_from(s, p1);
        ControlCommandView::SetScale {
            root: dec_byte(token_at(s, p1)),
            intervals: json_byte_array(token_at(s, p2)),
        }
    } else {
        ControlCommandView::Ignore
    }
}

/// What one parsed command does to the configuration and the active-note
/// table: `stop` resets both; `set` replaces the configuration wholesale —
/// the root reduced to its pitch-class, an absent field reverting to bypass
/// semantics — and leaves the table alone; an ignored line changes nothing.
pub open spec fn apply_spec(
    cmd: ControlCommandView,
    c: ScaleConfigView,
    notes: Map<u8, u8>,
) -> (ScaleConfigView, Map<u8, u8>) {
    match cmd {
        ControlCommandView::Stop => (ScaleConfigView::bypass(), Map::<u8, u8>::empty()),
        ControlCommandView::SetScale { root, intervals } => (
            ScaleConfigView {
                root: match root {
                    Some(r) => Some((r % 12) as u8),
                    None => None,
                },
                intervals: match intervals {
                    Some(s) => s,
                    None => Seq::empty(),
                },
            },
            notes,
        ),
        ControlCommandView::Ignore => (c, notes),
    }
}

/// What a whole control line does to the configuration and the active-note
/// table.
pub open spec fn control_outcome(
    line: Seq<u8>,
    c: ScaleConfigView,
    notes: Map<u8, u8>,
) -> (ScaleConfigView, Map<u8, u8>) {
    apply_spec(spec_parse_control(line), c, notes)
}

/// Idempotent stop: one `stop` line leaves the configuration in bypass and
/// the table empty, and a second `stop` right after changes nothing more.
pub proof fn lemma_stop_idempotent(line: Seq<u8>, c: ScaleConfigView, notes: Map<u8, u8>)
    requires
        spec_parse_control(line) is Stop,
    ensures
        control_outcome(line, c, notes).0 == ScaleConfigView::bypass(),
        control_outcome(line, c, notes).1 == Map::<u8, u8>::empty(),
        control_outcome(line, control_outcome(line, c, notes).0, control_outcome(line, c, notes).1)
            == control_outcome(line, c, notes),
{
}

/// Finds the next token in `line`: skips whitespace from `from`, then scans
/// to the token's end.
fn scan_token(line: &Vec<u8>, from: usize) -> (r: (usize, usize))
    requires
        from <= line@.len(),
    ensures
        r.0 == skip_spaces(line@, from as int),
        r.1 == token_end(line@, r.0 as int),
        from <= r.0 <= r.1 <= line@.len(),
{
    let n = line.len();
    let mut i: usize = from;
    loop
        invariant
            from <= i <= n,
            n == line@.len(),
            skip_spaces(line@, from as int) == skip_spaces(line@, i as int),
        ensures
            from <= i <= n,
            i == skip_spaces(line@, from as int),
        decreases n - i,
    {
        if i >= n {
            break;
        }
        let b = line[i];
        if !(b == 32 || (9 <= b && b <= 13)) {
            break;
        }
        i = i + 1;
    }
    let start = i;
    loop
        invariant
            start <= i <= n,
            n == line@.len(),
            token_end(line@, start as int) == token_end(line@, i as int),
        ensures
            start <= i <= n,
            i == token_end(line@, start as int),
        decreases n - i,
    {
        if i >= n {
            break;
        }
        let b = line[i];
        if b == 32 || (9 <= b && b <= 13) {
            break;
        }
        i = i + 1;
    }
    (start, i)
}

/// Whether the given range of `line` holds exactly the bytes of `pat`.
fn token_is(line: &Vec<u8>, start: usize, end: usize, pat: &Vec<u8>) -> (r: bool)
    requires
        start <= end <= line@.len(),
    ensures
        r == (line@.subrange(start as int, end as int) == pat@),
{
    let n = end - start;
    if n != pat.len() {
        return false;
    }
    let mut j: usize = 0;
    while j < n
        invariant
            j <= n,
            n == pat@.len(),
            start + n == end,
            end <= line@.len(),
            forall|k: int| 0 <= k < j ==> line@[start + k] == pat@[k],
        decreases n - j,
    {
        if line[start + j] != pat[j] {
            proof {
                assert(line@.subrange(start as int, end as int)[j as int] == line@[start + j]);
            }
            return false;
        }
        j = j + 1;
    }
    proof {
        let sub = line@.subrange(start as int, end as int);
        assert(forall|k: int| 0 <= k < n ==> sub[k] == line@[start + k]);
        assert(sub =~= pat@);
    }
    true
}

/// An owned copy of the given range of `line`.
fn copy_range(line: &Vec<u8>, start: usize, end: usize) -> (r: Vec<u8>)
    requires
        start <= end <= line@.len(),
    ensures
        r@ == line@.subrange(start as int, end as int),
{
    let mut r: Vec<u8> = Vec::new();
    let mut j: usize = start;
    while j < end
        invariant
            start <= j <= end <= line@.len(),
            r@ == line@.subrange(start as int, j as int),
        decreases end - j,
    {
        r.push(line[j]);
        proof {
            assert(r@ =~= line@.subrange(start as int, j + 1));
        }
        j = j + 1;
    }
    r
}

/// Every digit sequence denotes a non-negative value.
proof fn lemma_dec_value_nonneg(s: Seq<u8>)
    requires
        all_digits(s),
    ensures
        dec_value(s) >= 0,
    decreases s.len(),
{
    if s.len() > 0 {
        assert(forall|i: int| 0 <= i < s.len() - 1 ==> s.drop_last()[i] == s[i]);
        lemma_dec_value_nonneg(s.drop_last());
    }
}

/// A prefix of a digit sequence denotes at most what the whole denotes.
proof fn lemma_dec_value_prefix(s: Seq<u8>, k: int)
    requires
        all_digits(s),
        0 <= k <= s.len(),
    ensures
        dec_value(s.take(k)) <= dec_value(s),
    decreases s.len() - k,
{
    if k == s.len() {
        assert(s.take(k) =~= s);
    } else {
        assert(forall|i: int| 0 <= i <= k ==> s.take(k + 1)[i] == s[i]);
        assert(s.take(k + 1).drop_last() =~= s.take(k));
        assert(s.take(k + 1).last() == s[k]);
        assert(forall|i: int| 0 <= i < k ==> s.take(k)[i] == s[i]);
        lemma_dec_value_nonneg(s.take(k));
        lemma_dec_value_prefix(s, k + 1);
    }
}

/// Parses the given range of `line` as a decimal byte.
fn parse_dec_byte(line: &Vec<u8>, start: usize, end: usize) -> (r: Option<u8>)
    requires
        start <= end <= line@.len(),
    ensures
        r == dec_byte(line@.subrange(start as int, end as int)),
{
    let ghost s = line@.subrange(start as int, end as int);
    if start == end {
        return None;
    }
    let mut value: u32 = 0;
    let mut j: usize = start;
    while j < end
        invariant
            start <= j <= end <= line@.len(),
            s == line@.subrange(start as int, end as int),
            s.len() == end - start,
            all_digits(s.take(j - start)),
            value == dec_value(s.take(j - start)),
            value <= 255,
        decreases end - j,
    {
        let ghost k = j - start;
        let b = line[j];
        proof {
            assert(s[k] == line@[j as int]);
        }
        if b < 48 || b > 57 {
            return None;
        }
        proof {
            assert(forall|i: int| 0 <= i <= k ==> s.take(k + 1)[i] == s[i]);
            assert(s.take(k + 1).drop_last() =~= s.take(k));
            assert(s.take(k + 1).last() == s[k]);
        }
        value = value * 10 + (b - 48) as u32;
        if value > 255 {
            proof {
                if all_digits(s) {
                    lemma_dec_value_prefix(s, k + 1);
                }
            }
            return None;
        }
        j = j + 1;
    }
    proof {
        assert(s.take(end - start) =~= s);
        lemma_dec_value_nonneg(s);
    }
    Some(value as u8)
}

/// Relies on `serde_json::from_slice::<Vec<u8>>`: deserializing a JSON array
/// of bytes from a byte string is a function of those bytes alone; the call
/// returns `Err` exactly where the bytes are not such an array.
#[verifier::external_body]
fn parse_json_byte_array(bytes: &Vec<u8>) -> (r: Option<Vec<u8>>)
    ensures
        (match r {
            Some(v) => json_byte_array(bytes@) matches Some(s) && v@ == s,
            None => json_byte_array(bytes@) is None,
        }),
{
    serde_json::from_slice::<Vec<u8>>(bytes.as_slice()).ok()
}

/// The bytes of the token `stop`, as a vector.
fn stop_pattern() -> (v: Vec<u8>)
    ensures
        v@ == stop_token(),
{
    let mut v: Vec<u8> = Vec::new();
    v.push(115);
    v.push(116);
    v.push(111);
    v.push(112);
    proof {
        assert(v@ =~= stop_token());
    }
    v
}

/// The bytes of the token `set`, as a vector.
fn set_pattern() -> (v: Vec<u8>)
    ensures
        v@ == set_token(),
{
    let mut v: Vec<u8> = Vec::new();
    v.push(115);
    v.push(101);
    v.push(116);
    proof {
        assert(v@ =~= set_token());
    }
    v
}

/// Parses one control line into a typed command. Parse failure of a `set`
/// field yields an absent field, never an abort; an unknown first token
/// yields a command to ignore.
pub fn parse_control(line: &Vec<u8>) -> (cmd: ControlCommand)
    ensures
        cmd@ == spec_parse_control(line@),
{
    let (s1, e1) = scan_token(line, 0);
    let stop_pat = stop_pattern();
    if token_is(line, s1, e1, &stop_pat) {
        return ControlCommand::Stop;
    }
    let set_pat = set_pattern();
    if token_is(line, s1, e1, &set_pat) {
        let (s2, e2) = scan_token(line, e1);
        let root = parse_dec_byte(line, s2, e2);
        let (s3, e3) = scan_token(line, e2);
        let tok3 = copy_range(line, s3, e3);
        let intervals = parse_json_byte_array(&tok3);
        return ControlCommand::SetScale { root, intervals };
    }
    ControlCommand::Ignore
}

/// Applies one parsed command to the configuration store and the active-note
/// table.
pub fn apply_control(cmd: ControlCommand, store: &mut ConfigStore, table: &mut ActiveNoteTable)
    ensures
        final(store)@ == apply_spec(cmd@, old(store)@, old(table)@).0,
        final(table)@ == apply_spec(cmd@, old(store)@, old(table)@).1,
{
    match cmd {
        ControlCommand::Stop => {
            store.reset();
            table.clear();
        },
        ControlCommand::SetScale { root, intervals } => {
            let iv: Vec<u8> = match intervals {
                Some(v) => v,
                None => Vec::new(),
            };
            store.replace(ScaleConfig::new(root, iv));
        },
        ControlCommand::Ignore => {},
    }
}

} // verus!
