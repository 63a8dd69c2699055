//! Text diff engine: computes an edit script of `Same` / `Add` / `Remove`
//! operations between an actual string and an expected string, based on a
//! longest-common-subsequence alignment. `Add` marks text present only in
//! the expected string, `Remove` text present only in the actual string.

use vstd::prelude::*;
use vstd::string::*;

verus! {

/// Strings handled by the diff engine are capped so that index arithmetic
/// (table sizes, edit distances) cannot overflow a `usize`.
pub const TEXT_CAP: usize = usize::MAX / 4;

/// The kind of an edit operation.
#[derive(Clone, Copy, PartialEq, Eq, Structural, Debug)]
pub enum OpTag {
    Same,
    Add,
    Remove,
}

/// One merged operation of an edit script.
#[derive(Debug, PartialEq, Eq)]
pub enum EditOp {
    Same(String),
    Add(String),
    Remove(String),
}

/// Spec-level image of `EditOp`, over sequences of characters.
pub enum EditOpV {
    Same(Seq<char>),
    Add(Seq<char>),
    Remove(Seq<char>),
}

impl View for EditOp {
    type V = EditOpV;

    open spec fn view(&self) -> EditOpV {
        match self {
            EditOp::Same(t) => EditOpV::Same(t@),
            EditOp::Add(t) => EditOpV::Add(t@),
            EditOp::Remove(t) => EditOpV::Remove(t@),
        }
    }
}

/// Spec-level image of a whole script.
pub open spec fn script_view(s: Seq<EditOp>) -> Seq<EditOpV> {
    s.map_values(|op: EditOp| op@)
}

/// One character of an edit script, before adjacent operations of the same
/// kind are merged into spans of text.
pub type CharOp = (OpTag, char);

pub open spec fn tag_of(op: CharOp) -> OpTag {
    op.0
}

pub open spec fn char_of(op: CharOp) -> char {
    op.1
}

pub open spec fn mk_op(t: OpTag, text: Seq<char>) -> EditOpV {
    match t {
        OpTag::Same => EditOpV::Same(text),
        OpTag::Add => EditOpV::Add(text),
        OpTag::Remove => EditOpV::Remove(text),
    }
}

/// Length of the longest common subsequence of `a[i..]` and `b[j..]`.
pub open spec fn lcs_from(a: Seq<char>, b: Seq<char>, i: int, j: int) -> nat
    decreases a.len() - i, b.len() - j
        when 0 <= i <= a.len() && 0 <= j <= b.len()
{
    if i >= a.len() || j >= b.len() {
        0
    } else if a[i] == b[j] {
        1 + lcs_from(a, b, i + 1, j + 1)
    } else if lcs_from(a, b, i + 1, j) >= lcs_from(a, b, i, j + 1) {
        lcs_from(a, b, i + 1, j)
    } else {
        lcs_from(a, b, i, j + 1)
    }
}

/// The character-level edit script aligning `a[i..]` (actual) with
/// `b[j..]` (expected): equal heads are kept, and otherwise the side
/// whose tail preserves the longer common subsequence is consumed,
/// removals first on ties.
pub open spec fn char_ops_from(a: Seq<char>, b: Seq<char>, i: int, j: int) -> Seq<CharOp>
    decreases a.len() - i, b.len() - j
        when 0 <= i <= a.len() && 0 <= j <= b.len()
{
    if i >= a.len() && j >= b.len() {
        Seq::empty()
    } else if j >= b.len() {
        seq![(OpTag::Remove, a[i])] + char_ops_from(a, b, i + 1, j)
    } else if i >= a.len() {
        seq![(OpTag::Add, b[j])] + char_ops_from(a, b, i, j + 1)
    } else if a[i] == b[j] {
        seq![(OpTag::Same, a[i])] + char_ops_from(a, b, i + 1, j + 1)
    } else if lcs_from(a, b, i + 1, j) >= lcs_from(a, b, i, j + 1) {
        seq![(OpTag::Remove, a[i])] + char_ops_from(a, b, i + 1, j)
    } else {
        seq![(OpTag::Add, b[j])] + char_ops_from(a, b, i, j + 1)
    }
}

/// Merges a character-level script into text spans: `t` and `text` hold the
/// run of same-tagged characters accumulated so far.
pub open spec fn group_rec(ops: Seq<CharOp>, t: OpTag, text: Seq<char>) -> Seq<EditOpV>
    decreases ops.len(),
{
    if ops.len() == 0 {
        seq![mk_op(t, text)]
    } else if tag_of(ops[0]) == t {
        group_rec(ops.drop_first(), t, text.push(char_of(ops[0])))
    } else {
        seq![mk_op(t, text)] + group_rec(ops.drop_first(), tag_of(ops[0]), seq![char_of(ops[0])])
    }
}

pub open spec fn group_ops(ops: Seq<CharOp>) -> Seq<EditOpV> {
    if ops.len() == 0 {
        Seq::empty()
    } else {
        group_rec(ops.drop_first(), tag_of(ops[0]), seq![char_of(ops[0])])
    }
}

/// The edit script between actual string `a` and expected string `b`.
pub open spec fn spec_diff(a: Seq<char>, b: Seq<char>) -> Seq<EditOpV> {
    group_ops(char_ops_from(a, b, 0, 0))
}

/// The edit distance between `a` and `b`: characters only in `a` plus
/// characters only in `b`.
pub open spec fn spec_distance(a: Seq<char>, b: Seq<char>) -> nat {
    (a.len() + b.len() - 2 * lcs_from(a, b, 0, 0)) as nat
}

/// Characters a character-level script keeps from the actual string.
pub open spec fn chars_kept(ops: Seq<CharOp>) -> Seq<char>
    decreases ops.len(),
{
    if ops.len() == 0 {
        Seq::empty()
    } else {
        (match ops[0].0 {
            OpTag::Same => seq![ops[0].1],
            OpTag::Remove => seq![ops[0].1],
            OpTag::Add => Seq::<char>::empty(),
        }) + chars_kept(ops.drop_first())
    }
}

/// Characters a character-level script produces for the expected string.
pub open spec fn chars_made(ops: Seq<CharOp>) -> Seq<char>
    decreases ops.len(),
{
    if ops.len() == 0 {
        Seq::empty()
    } else {
        (match ops[0].0 {
            OpTag::Same => seq![ops[0].1],
            OpTag::Add => seq![ops[0].1],
            OpTag::Remove => Seq::<char>::empty(),
        }) + chars_made(ops.drop_first())
    }
}

/// Concatenation of the texts of the `Same` and `Remove` operations of a
/// script: the actual string it aligns.
pub open spec fn script_kept(s: Seq<EditOpV>) -> Seq<char>
    decreases s.len(),
{
    if s.len() == 0 {
        Seq::empty()
    } else {
        (match s[0] {
            EditOpV::Same(t) => t,
            EditOpV::Remove(t) => t,
            EditOpV::Add(_) => Seq::<char>::empty(),
        }) + script_kept(s.drop_first())
    }
}

/// Concatenation of the texts of the `Same` and `Add` operations of a
/// script: the expected string it aligns.
pub open spec fn script_made(s: Seq<EditOpV>) -> Seq<char>
    decreases s.len(),
{
    if s.len() == 0 {
        Seq::empty()
    } else {
        (match s[0] {
            EditOpV::Same(t) => t,
            EditOpV::Add(t) => t,
            EditOpV::Remove(_) => Seq::<char>::empty(),
        }) + script_made(s.drop_first())
    }
}

proof fn lemma_lcs_bound(a: Seq<char>, b: Seq<char>, i: int, j: int)
    requires
        0 <= i <= a.len(),
        0 <= j <= b.len(),
    ensures
        lcs_from(a, b, i, j) <= a.len() - i,
        lcs_from(a, b, i, j) <= b.len() - j,
    decreases a.len() - i, b.len() - j,
{
    if i >= a.len() || j >= b.len() {
    } else if a[i] == b[j] {
        lemma_lcs_bound(a, b, i + 1, j + 1);
    } else {
        lemma_lcs_bound(a, b, i + 1, j);
        lemma_lcs_bound(a, b, i, j + 1);
    }
}

proof fn lemma_char_ops_reconstruct(a: Seq<char>, b: Seq<char>, i: int, j: int)
    requires
        0 <= i <= a.len(),
        0 <= j <= b.len(),
    ensures
        chars_kept(char_ops_from(a, b, i, j)) == a.subrange(i, a.len() as int),
        chars_made(char_ops_from(a, b, i, j)) == b.subrange(j, b.len() as int),
    decreases a.len() - i, b.len() - j,
{
    let ops = char_ops_from(a, b, i, j);
    if i >= a.len() && j >= b.len() {
        assert(chars_kept(ops) =~= a.subrange(i, a.len() as int));
        assert(chars_made(ops) =~= b.subrange(j, b.len() as int));
    } else if j >= b.len() || (i < a.len() && j < b.len() && !(a[i] == b[j])
        && lcs_from(a, b, i + 1, j) >= lcs_from(a, b, i, j + 1)) {
        // a removal of a[i]
        lemma_char_ops_reconstruct(a, b, i + 1, j);
        let rest = char_ops_from(a, b, i + 1, j);
        assert(ops.drop_first() =~= rest);
        assert(chars_kept(ops) =~= a.subrange(i, a.len() as int));
        assert(chars_made(ops) =~= b.subrange(j, b.len() as int));
    } else if i >= a.len() || (j < b.len() && !(a[i] == b[j])) {
        // an addition of b[j]
        lemma_char_ops_reconstruct(a, b, i, j + 1);
        let rest = char_ops_from(a, b, i, j + 1);
        assert(ops.drop_first() =~= rest);
        assert(chars_kept(ops) =~= a.subrange(i, a.len() as int));
        assert(chars_made(ops) =~= b.subrange(j, b.len() as int));
    } else {
        // equal heads
        lemma_char_ops_reconstruct(a, b, i + 1, j + 1);
        let rest = char_ops_from(a, b, i + 1, j + 1);
        assert(ops.drop_first() =~= rest);
        assert(chars_kept(ops) =~= a.subrange(i, a.len() as int));
        assert(chars_made(ops) =~= b.subrange(j, b.len() as int));
    }
}

/// What a pending run contributes to the actual string.
spec fn run_kept(t: OpTag, text: Seq<char>) -> Seq<char> {
    match t {
        OpTag::Add => Seq::empty(),
        _ => text,
    }
}

/// What a pending run contributes to the expected string.
spec fn run_made(t: OpTag, text: Seq<char>) -> Seq<char> {
    match t {
        OpTag::Remove => Seq::empty(),
        _ => text,
    }
}

proof fn lemma_group_reconstruct(ops: Seq<CharOp>, t: OpTag, text: Seq<char>)
    ensures
        script_kept(group_rec(ops, t, text)) == run_kept(t, text) + chars_kept(ops),
        script_made(group_rec(ops, t, text)) == run_made(t, text) + chars_made(ops),
    decreases ops.len(),
{
    if ops.len() == 0 {
        reveal_with_fuel(script_kept, 2);
        reveal_with_fuel(script_made, 2);
        assert(script_kept(group_rec(ops, t, text)) =~= run_kept(t, text) + chars_kept(ops));
        assert(script_made(group_rec(ops, t, text)) =~= run_made(t, text) + chars_made(ops));
    } else if tag_of(ops[0]) == t {
        lemma_group_reconstruct(ops.drop_first(), t, text.push(char_of(ops[0])));
        assert(script_kept(group_rec(ops, t, text)) =~= run_kept(t, text) + chars_kept(ops));
        assert(script_made(group_rec(ops, t, text)) =~= run_made(t, text) + chars_made(ops));
    } else {
        lemma_group_reconstruct(ops.drop_first(), tag_of(ops[0]), seq![char_of(ops[0])]);
        let g = seq![mk_op(t, text)] + group_rec(ops.drop_first(), tag_of(ops[0]), seq![
            char_of(ops[0]),
        ]);
        assert(g.drop_first() =~= group_rec(ops.drop_first(), tag_of(ops[0]), seq![
            char_of(ops[0]),
        ]));
        assert(script_kept(group_rec(ops, t, text)) =~= run_kept(t, text) + chars_kept(ops));
        assert(script_made(group_rec(ops, t, text)) =~= run_made(t, text) + chars_made(ops));
    }
}

/// Law: dropping the `Add` operations of the script of `(a, b)` and
/// concatenating what is left reconstructs the actual string `a`; dropping
/// the `Remove` operations reconstructs the expected string `b`.
pub proof fn lemma_diff_reconstructs(a: Seq<char>, b: Seq<char>)
    ensures
        script_kept(spec_diff(a, b)) == a,
        script_made(spec_diff(a, b)) == b,
{
    let ops = char_ops_from(a, b, 0, 0);
    lemma_char_ops_reconstruct(a, b, 0, 0);
    assert(a.subrange(0, a.len() as int) =~= a);
    assert(b.subrange(0, b.len() as int) =~= b);
    if ops.len() == 0 {
        assert(script_kept(spec_diff(a, b)) =~= a);
        assert(script_made(spec_diff(a, b)) =~= b);
    } else {
        lemma_group_reconstruct(ops.drop_first(), tag_of(ops[0]), seq![char_of(ops[0])]);
        assert(chars_kept(ops) == run_kept(tag_of(ops[0]), seq![char_of(ops[0])]) + chars_kept(
            ops.drop_first(),
        ));
        assert(chars_made(ops) == run_made(tag_of(ops[0]), seq![char_of(ops[0])]) + chars_made(
            ops.drop_first(),
        ));
    }
}

proof fn lemma_char_ops_self_same(a: Seq<char>, i: int)
    requires
        0 <= i <= a.len(),
    ensures
        forall|k: int|
            0 <= k < char_ops_from(a, a, i, i).len() ==> #[trigger] char_ops_from(
                a,
                a,
                i,
                i,
            )[k].0 == OpTag::Same,
    decreases a.len() - i,
{
    if i < a.len() {
        lemma_char_ops_self_same(a, i + 1);
        let ops = char_ops_from(a, a, i, i);
        let rest = char_ops_from(a, a, i + 1, i + 1);
        assert(ops =~= seq![(OpTag::Same, a[i])] + rest);
        assert forall|k: int| 0 <= k < ops.len() implies #[trigger] ops[k].0 == OpTag::Same by {
            if k > 0 {
                assert(ops[k] == rest[k - 1]);
            }
        }
    }
}

proof fn lemma_group_all_same(ops: Seq<CharOp>, text: Seq<char>)
    requires
        forall|k: int| 0 <= k < ops.len() ==> #[trigger] ops[k].0 == OpTag::Same,
    ensures
        forall|k: int|
            0 <= k < group_rec(ops, OpTag::Same, text).len() ==> #[trigger] group_rec(
                ops,
                OpTag::Same,
                text,
            )[k] is Same,
    decreases ops.len(),
{
    if ops.len() == 0 {
    } else {
        assert(ops[0].0 == OpTag::Same);
        assert(forall|k: int|
            0 <= k < ops.drop_first().len() ==> #[trigger] ops.drop_first()[k] == ops[k + 1]);
        lemma_group_all_same(ops.drop_first(), text.push(char_of(ops[0])));
    }
}

/// Law: diffing a string against itself yields a script of `Same`
/// operations only, whose concatenated text is the full string.
pub proof fn lemma_diff_equal_strings(a: Seq<char>)
    ensures
        forall|k: int| 0 <= k < spec_diff(a, a).len() ==> #[trigger] spec_diff(a, a)[k] is Same,
        script_kept(spec_diff(a, a)) == a,
        script_made(spec_diff(a, a)) == a,
{
    lemma_diff_reconstructs(a, a);
    let ops = char_ops_from(a, a, 0, 0);
    lemma_char_ops_self_same(a, 0);
    if ops.len() > 0 {
        assert(tag_of(ops[0]) == OpTag::Same);
        assert(forall|k: int|
            0 <= k < ops.drop_first().len() ==> #[trigger] ops.drop_first()[k] == ops[k + 1]);
        lemma_group_all_same(ops.drop_first(), seq![char_of(ops[0])]);
    }
}


/// The number of characters an edit script changes: the total length of
/// its `Add` and `Remove` texts.
pub open spec fn script_cost(s: Seq<EditOpV>) -> nat
    decreases s.len(),
{
    if s.len() == 0 {
        0
    } else {
        (match s[0] {
            EditOpV::Same(_) => 0,
            EditOpV::Add(t) => t.len(),
            EditOpV::Remove(t) => t.len(),
        }) + script_cost(s.drop_first())
    }
}

/// The number of characters a character-level script changes.
spec fn char_cost(ops: Seq<CharOp>) -> nat
    decreases ops.len(),
{
    if ops.len() == 0 {
        0
    } else {
        (match ops[0].0 {
            OpTag::Same => 0nat,
            _ => 1nat,
        }) + char_cost(ops.drop_first())
    }
}

proof fn lemma_char_ops_cost(a: Seq<char>, b: Seq<char>, i: int, j: int)
    requires
        0 <= i <= a.len(),
        0 <= j <= b.len(),
    ensures
        char_cost(char_ops_from(a, b, i, j)) as int == a.len() - i + b.len() - j - 2 * lcs_from(
            a,
            b,
            i,
            j,
        ),
    decreases a.len() - i, b.len() - j,
{
    let ops = char_ops_from(a, b, i, j);
    if i >= a.len() && j >= b.len() {
    } else if j >= b.len() || (i < a.len() && j < b.len() && !(a[i] == b[j]) && lcs_from(
        a,
        b,
        i + 1,
        j,
    ) >= lcs_from(a, b, i, j + 1)) {
        lemma_char_ops_cost(a, b, i + 1, j);
        assert(ops.drop_first() =~= char_ops_from(a, b, i + 1, j));
    } else if i >= a.len() || (j < b.len() && !(a[i] == b[j])) {
        lemma_char_ops_cost(a, b, i, j + 1);
        assert(ops.drop_first() =~= char_ops_from(a, b, i, j + 1));
    } else {
        lemma_char_ops_cost(a, b, i + 1, j + 1);
        assert(ops.drop_first() =~= char_ops_from(a, b, i + 1, j + 1));
    }
}

/// What a pending run will add to the script's cost.
spec fn run_cost(t: OpTag, text: Seq<char>) -> nat {
    match t {
        OpTag::Same => 0,
        _ => text.len(),
    }
}

proof fn lemma_group_cost(ops: Seq<CharOp>, t: OpTag, text: Seq<char>)
    ensures
        script_cost(group_rec(ops, t, text)) == run_cost(t, text) + char_cost(ops),
    decreases ops.len(),
{
    if ops.len() == 0 {
        reveal_with_fuel(script_cost, 2);
    } else if tag_of(ops[0]) == t {
        lemma_group_cost(ops.drop_first(), t, text.push(char_of(ops[0])));
    } else {
        lemma_group_cost(ops.drop_first(), tag_of(ops[0]), seq![char_of(ops[0])]);
        let g = seq![mk_op(t, text)] + group_rec(ops.drop_first(), tag_of(ops[0]), seq![
            char_of(ops[0]),
        ]);
        assert(g.drop_first() =~= group_rec(ops.drop_first(), tag_of(ops[0]), seq![
            char_of(ops[0]),
        ]));
    }
}

/// Law: the number of characters the script adds plus the number it
/// removes is exactly the edit distance between the two strings: the
/// script is a minimal one under the common-subsequence alignment.
pub proof fn lemma_diff_cost_is_distance(a: Seq<char>, b: Seq<char>)
    ensures
        script_cost(spec_diff(a, b)) == spec_distance(a, b),
{
    lemma_lcs_bound(a, b, 0, 0);
    lemma_char_ops_cost(a, b, 0, 0);
    let ops = char_ops_from(a, b, 0, 0);
    if ops.len() > 0 {
        lemma_group_cost(ops.drop_first(), tag_of(ops[0]), seq![char_of(ops[0])]);
        assert(char_cost(ops) == (match ops[0].0 {
            OpTag::Same => 0nat,
            _ => 1nat,
        }) + char_cost(ops.drop_first()));
        assert(run_cost(tag_of(ops[0]), seq![char_of(ops[0])]) == match ops[0].0 {
            OpTag::Same => 0nat,
            _ => 1nat,
        });
    }
}

/// Builds the table `dp[i][j] == lcs_from(a, b, i, j)` for all positions.
fn lcs_table(a: &str, b: &str) -> (dp: Vec<Vec<usize>>)
    requires
        a@.len() <= TEXT_CAP,
        b@.len() <= TEXT_CAP,
    ensures
        dp@.len() == a@.len() + 1,
        forall|i: int| 0 <= i <= a@.len() ==> #[trigger] dp@[i]@.len() == b@.len() + 1,
        forall|i: int, j: int|
            0 <= i <= a@.len() && 0 <= j <= b@.len() ==> #[trigger] dp@[i]@[j] == lcs_from(
                a@,
                b@,
                i,
                j,
            ),
{
    let n = a.unicode_len();
    let m = b.unicode_len();
    let mut dp: Vec<Vec<usize>> = Vec::new();
    while dp.len() < n + 1
        invariant
            dp@.len() <= n + 1,
            n == a@.len(),
            n <= TEXT_CAP,
        decreases n + 1 - dp@.len(),
    {
        dp.push(Vec::new());
    }
    let mut i = n + 1;
    while i > 0
        invariant
            0 <= i <= n + 1,
            n == a@.len(),
            m == b@.len(),
            n <= TEXT_CAP,
            m <= TEXT_CAP,
            dp@.len() == n + 1,
            forall|ii: int| i <= ii <= n ==> #[trigger] dp@[ii]@.len() == m + 1,
            forall|ii: int, j: int|
                i <= ii <= n && 0 <= j <= m ==> #[trigger] dp@[ii]@[j] == lcs_from(a@, b@, ii, j),
        decreases i,
    {
        i = i - 1;
        let mut row: Vec<usize> = Vec::new();
        while row.len() < m + 1
            invariant
                row@.len() <= m + 1,
                m <= TEXT_CAP,
                forall|j: int| 0 <= j < row@.len() ==> #[trigger] row@[j] == 0,
            decreases m + 1 - row@.len(),
        {
            row.push(0);
        }
        if i < n {
            let ca = a.get_char(i);
            let mut jj = m;
            while jj > 0
                invariant
                    0 <= jj <= m,
                    i < n,
                    n == a@.len(),
                    m == b@.len(),
                    n <= TEXT_CAP,
                    m <= TEXT_CAP,
                    ca == a@[i as int],
                    row@.len() == m + 1,
                    dp@.len() == n + 1,
                    forall|ii: int| i < ii <= n ==> #[trigger] dp@[ii]@.len() == m + 1,
                    forall|ii: int, j: int|
                        i < ii <= n && 0 <= j <= m ==> #[trigger] dp@[ii]@[j] == lcs_from(
                            a@,
                            b@,
                            ii,
                            j,
                        ),
                    forall|j: int| jj <= j <= m ==> #[trigger] row@[j] == lcs_from(a@, b@, i as int, j),
                decreases jj,
            {
                jj = jj - 1;
                let cb = b.get_char(jj);
                proof {
                    lemma_lcs_bound(a@, b@, i as int + 1, jj as int + 1);
                    lemma_lcs_bound(a@, b@, i as int + 1, jj as int);
                    lemma_lcs_bound(a@, b@, i as int, jj as int + 1);
                }
                let v: usize = if ca == cb {
                    1 + dp[i + 1][jj + 1]
                } else {
                    let x = dp[i + 1][jj];
                    let y = row[jj + 1];
                    if x >= y {
                        x
                    } else {
                        y
                    }
                };
                row[jj] = v;
            }
        }
        dp[i] = row;
    }
    dp
}

/// Computes the edit distance between `a` (actual) and `b` (expected): the
/// number of characters only in `a` plus the number only in `b`.
pub fn edit_distance(a: &str, b: &str) -> (d: usize)
    requires
        a@.len() <= TEXT_CAP,
        b@.len() <= TEXT_CAP,
    ensures
        d == spec_distance(a@, b@),
{
    let dp = lcs_table(a, b);
    let l = dp[0][0];
    proof {
        lemma_lcs_bound(a@, b@, 0, 0);
    }
    (a.unicode_len() - l) + (b.unicode_len() - l)
}

/// Computes the edit script between `a` (actual) and `b` (expected).
pub fn diff(a: &str, b: &str) -> (script: Vec<EditOp>)
    requires
        a@.len() <= TEXT_CAP,
        b@.len() <= TEXT_CAP,
    ensures
        script_view(script@) == spec_diff(a@, b@),
{
    let n = a.unicode_len();
    let m = b.unicode_len();
    let mut out: Vec<EditOp> = Vec::new();
    if n == 0 && m == 0 {
        assert(script_view(out@) =~= spec_diff(a@, b@));
        return out;
    }
    let dp = lcs_table(a, b);
    let mut i: usize = 0;
    let mut j: usize = 0;
    // start the first run from the first operation
    let mut cur: OpTag = next_tag(a, b, &dp, i, j);
    let mut si: usize = 0;
    let mut sj: usize = 0;
    proof {
        step_run_text(a@, b@, cur, 0, 0);
    }
    match cur {
        OpTag::Same => {
            i = i + 1;
            j = j + 1;
        },
        OpTag::Remove => {
            i = i + 1;
        },
        OpTag::Add => {
            j = j + 1;
        },
    }
    proof {
        let ops0 = char_ops_from(a@, b@, 0, 0);
        assert(ops0.len() > 0);
        assert(ops0.drop_first() =~= char_ops_from(a@, b@, i as int, j as int));
        assert(script_view(out@) =~= Seq::<EditOpV>::empty());
        assert(spec_diff(a@, b@) == script_view(out@) + group_rec(
            char_ops_from(a@, b@, i as int, j as int),
            cur,
            run_text(a@, b@, cur, si as int, sj as int, i as int, j as int),
        ));
    }
    while i < n || j < m
        invariant
            n == a@.len(),
            m == b@.len(),
            n <= TEXT_CAP,
            m <= TEXT_CAP,
            si <= i <= n,
            sj <= j <= m,
            dp@.len() == n + 1,
            forall|ii: int| 0 <= ii <= n ==> #[trigger] dp@[ii]@.len() == m + 1,
            forall|ii: int, j2: int|
                0 <= ii <= n && 0 <= j2 <= m ==> #[trigger] dp@[ii]@[j2] == lcs_from(a@, b@, ii, j2),
            cur == OpTag::Add ==> si == i,
            cur == OpTag::Remove ==> sj == j,
            cur == OpTag::Same ==> i - si == j - sj,
            run_len(cur, si as int, sj as int, i as int, j as int) >= 1,
            spec_diff(a@, b@) == script_view(out@) + group_rec(
                char_ops_from(a@, b@, i as int, j as int),
                cur,
                run_text(a@, b@, cur, si as int, sj as int, i as int, j as int),
            ),
        decreases n - i + m - j,
    {
        let t = next_tag(a, b, &dp, i, j);
        let ghost ops = char_ops_from(a@, b@, i as int, j as int);
        let ghost text = run_text(a@, b@, cur, si as int, sj as int, i as int, j as int);
        proof {
            assert(tag_of(ops[0]) == t);
        }
        if t == cur {
            proof {
                let (i2, j2) = advanced(t, i as int, j as int);
                assert(ops.drop_first() =~= char_ops_from(a@, b@, i2, j2));
                assert(text.push(char_of(ops[0])) =~= run_text(a@, b@, cur, si as int, sj as int, i2_of(
                    t,
                    i as int,
                ), j2_of(t, j as int)));
            }
        } else {
            let done = emit_run(a, b, cur, si, sj, i, j);
            proof {
                let (i2, j2) = advanced(t, i as int, j as int);
                assert(ops.drop_first() =~= char_ops_from(a@, b@, i2, j2));
                assert(done@ == mk_op(cur, text));
                assert(script_view(out@.push(done)) =~= script_view(out@) + seq![done@]);
                assert((script_view(out@) + seq![done@]) + group_rec(
                    char_ops_from(a@, b@, i2, j2),
                    t,
                    seq![char_of(ops[0])],
                ) =~= script_view(out@) + (seq![mk_op(cur, text)] + group_rec(
                    char_ops_from(a@, b@, i2, j2),
                    t,
                    seq![char_of(ops[0])],
                )));
                step_run_text(a@, b@, t, i as int, j as int);
            }
            out.push(done);
            cur = t;
            si = i;
            sj = j;
        }
        match t {
            OpTag::Same => {
                i = i + 1;
                j = j + 1;
            },
            OpTag::Remove => {
                i = i + 1;
            },
            OpTag::Add => {
                j = j + 1;
            },
        }
    }
    let last = emit_run(a, b, cur, si, sj, i, j);
    proof {
        assert(char_ops_from(a@, b@, i as int, j as int) =~= Seq::<CharOp>::empty());
        assert(script_view(out@.push(last)) =~= script_view(out@) + seq![last@]);
    }
    out.push(last);
    out
}

/// Run length of the pending run.
spec fn run_len(t: OpTag, si: int, sj: int, i: int, j: int) -> int {
    match t {
        OpTag::Add => j - sj,
        _ => i - si,
    }
}

/// Text of the pending run: characters consumed from `a` for `Same` and
/// `Remove` runs, from `b` for `Add` runs.
spec fn run_text(a: Seq<char>, b: Seq<char>, t: OpTag, si: int, sj: int, i: int, j: int) -> Seq<
    char,
> {
    match t {
        OpTag::Add => b.subrange(sj, j),
        _ => a.subrange(si, i),
    }
}

spec fn i2_of(t: OpTag, i: int) -> int {
    match t {
        OpTag::Add => i,
        _ => i + 1,
    }
}

spec fn j2_of(t: OpTag, j: int) -> int {
    match t {
        OpTag::Remove => j,
        _ => j + 1,
    }
}

spec fn advanced(t: OpTag, i: int, j: int) -> (int, int) {
    (i2_of(t, i), j2_of(t, j))
}

proof fn step_run_text(a: Seq<char>, b: Seq<char>, t: OpTag, i: int, j: int)
    requires
        0 <= i <= a.len(),
        0 <= j <= b.len(),
        i < a.len() || j < b.len(),
        tag_of(char_ops_from(a, b, i, j)[0]) == t,
    ensures
        seq![char_of(char_ops_from(a, b, i, j)[0])] =~= run_text(
            a,
            b,
            t,
            i,
            j,
            i2_of(t, i),
            j2_of(t, j),
        ),
{
    let ops = char_ops_from(a, b, i, j);
    if j >= b.len() {
        assert(ops[0] == (OpTag::Remove, a[i]));
    } else if i >= a.len() {
        assert(ops[0] == (OpTag::Add, b[j]));
    } else if a[i] == b[j] {
        assert(ops[0] == (OpTag::Same, a[i]));
    } else if lcs_from(a, b, i + 1, j) >= lcs_from(a, b, i, j + 1) {
        assert(ops[0] == (OpTag::Remove, a[i]));
    } else {
        assert(ops[0] == (OpTag::Add, b[j]));
    }
}

/// The kind of the next character operation at position `(i, j)`, decided
/// as `char_ops_from` decides it, with the table standing in for `lcs_from`.
fn next_tag(a: &str, b: &str, dp: &Vec<Vec<usize>>, i: usize, j: usize) -> (t: OpTag)
    requires
        i <= a@.len(),
        j <= b@.len(),
        i < a@.len() || j < b@.len(),
        dp@.len() == a@.len() + 1,
        forall|ii: int| 0 <= ii <= a@.len() ==> #[trigger] dp@[ii]@.len() == b@.len() + 1,
        forall|ii: int, jj: int|
            0 <= ii <= a@.len() && 0 <= jj <= b@.len() ==> #[trigger] dp@[ii]@[jj] == lcs_from(
                a@,
                b@,
                ii,
                jj,
            ),
    ensures
        t == tag_of(char_ops_from(a@, b@, i as int, j as int)[0]),
{
    if j >= b.unicode_len() {
        OpTag::Remove
    } else if i >= a.unicode_len() {
        OpTag::Add
    } else {
        let ca = a.get_char(i);
        let cb = b.get_char(j);
        if ca == cb {
            OpTag::Same
        } else if dp[i + 1][j] >= dp[i][j + 1] {
            OpTag::Remove
        } else {
            OpTag::Add
        }
    }
}

/// Turns the pending run into one merged edit operation.
fn emit_run(a: &str, b: &str, t: OpTag, si: usize, sj: usize, i: usize, j: usize) -> (op: EditOp)
    requires
        si <= i <= a@.len(),
        sj <= j <= b@.len(),
    ensures
        op@ == mk_op(t, run_text(a@, b@, t, si as int, sj as int, i as int, j as int)),
{
    match t {
        OpTag::Same => EditOp::Same(String::from_str(a.substring_char(si, i))),
        OpTag::Remove => EditOp::Remove(String::from_str(a.substring_char(si, i))),
        OpTag::Add => EditOp::Add(String::from_str(b.substring_char(sj, j))),
    }
}

} // verus!
