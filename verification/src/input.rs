//! The text editor state: a codepoint buffer with a cursor, and the handler
//! that applies one decoded key event to it.

use vstd::prelude::*;

verus! {

/// A decoded key code, as handed over by the key-capture collaborator.
#[derive(Clone, Copy, Debug)]
pub enum KeyCode {
    /// A printable character.
    Char(char),
    Backspace,
    Delete,
    Left,
    Right,
    Esc,
    /// Any other key; the editor ignores it.
    Other,
}

/// The decoded modifier set of a key event.
#[derive(Clone, Copy, Debug)]
pub enum KeyModifiers {
    /// No modifier held.
    Plain,
    /// Shift only; insertion treats this like no modifier.
    Shift,
    /// The word modifier (control): switches deletion and movement to word-wise.
    Word,
    /// Any other modifier combination; the editor ignores the event.
    Other,
}

/// Whether a codepoint is a word character (alphanumeric in the Unicode
/// sense); everything else is a boundary character. Word-wise operations
/// scan by this classification.
pub uninterp spec fn is_word_char(c: char) -> bool;

/// Relies on char::is_alphanumeric: the classification depends on the
/// character alone.
pub assume_specification[ char::is_alphanumeric ](c: char) -> (r: bool)
    ensures
        r == is_word_char(c),
;

/// The offset reached from `k` by walking left while the character just
/// before the position is a boundary character.
pub open spec fn skip_boundary_back(s: Seq<char>, k: int) -> int
    decreases k,
{
    if 0 < k <= s.len() && !is_word_char(s[k - 1]) {
        skip_boundary_back(s, k - 1)
    } else {
        k
    }
}

/// The offset reached from `k` by walking left over word characters.
pub open spec fn skip_word_back(s: Seq<char>, k: int) -> int
    decreases k,
{
    if 0 < k <= s.len() && is_word_char(s[k - 1]) {
        skip_word_back(s, k - 1)
    } else {
        k
    }
}

/// Where the cursor lands on a word-wise move backward from `k`: first a run
/// of boundary characters is skipped right-to-left, then the run of word
/// characters before it. This is the start of the previous word, or 0.
pub open spec fn word_scan_back(s: Seq<char>, k: int) -> int {
    skip_word_back(s, skip_boundary_back(s, k))
}

/// The offset reached from `k` by walking right over word characters.
pub open spec fn skip_word_fwd(s: Seq<char>, k: int) -> int
    decreases s.len() - k,
{
    if 0 <= k < s.len() && is_word_char(s[k]) {
        skip_word_fwd(s, k + 1)
    } else {
        k
    }
}

/// The offset reached from `k` by walking right over boundary characters.
pub open spec fn skip_boundary_fwd(s: Seq<char>, k: int) -> int
    decreases s.len() - k,
{
    if 0 <= k < s.len() && !is_word_char(s[k]) {
        skip_boundary_fwd(s, k + 1)
    } else {
        k
    }
}

/// Where a word-wise scan forward from `k` ends: the current run of word
/// characters is skipped, then the run of boundary characters after it. This
/// is the index of the next word character, or `s.len()` if none remains; it
/// is both the landing offset of a word-wise move forward and the end of the
/// span removed by a word-wise deletion forward.
pub open spec fn word_scan_fwd(s: Seq<char>, k: int) -> int {
    skip_boundary_fwd(s, skip_word_fwd(s, k))
}

/// The editor's transition function: the buffer and cursor that one decoded
/// key event `(code, mods)` produces from buffer `s` and cursor `cur`.
/// Unmatched combinations leave the state unchanged, and so do the matched
/// ones at the buffer boundary their precondition names.
pub open spec fn step(s: Seq<char>, cur: int, code: KeyCode, mods: KeyModifiers) -> (Seq<
    char,
>, int) {
    match (code, mods) {
        (KeyCode::Char(c), KeyModifiers::Plain) | (KeyCode::Char(c), KeyModifiers::Shift) => (
            s.insert(cur, c),
            cur + 1,
        ),
        (KeyCode::Backspace, KeyModifiers::Plain) => if cur > 0 {
            (s.remove(cur - 1), cur - 1)
        } else {
            (s, cur)
        },
        // Deletion forward fires only with the cursor at the end of the
        // buffer, where there is no codepoint at its index to remove.
        (KeyCode::Delete, KeyModifiers::Plain) => (s, cur),
        (KeyCode::Left, KeyModifiers::Plain) => if cur > 0 {
            (s, cur - 1)
        } else {
            (s, cur)
        },
        (KeyCode::Right, KeyModifiers::Plain) => if cur < s.len() {
            (s, cur + 1)
        } else {
            (s, cur)
        },
        (KeyCode::Backspace, KeyModifiers::Word) => if cur > 0 {
            (
                s.subrange(0, word_scan_back(s, cur)) + s.subrange(cur, s.len() as int),
                word_scan_back(s, cur),
            )
        } else {
            (s, cur)
        },
        (KeyCode::Delete, KeyModifiers::Word) => if cur < s.len() {
            (s.subrange(0, cur) + s.subrange(word_scan_fwd(s, cur), s.len() as int), cur)
        } else {
            (s, cur)
        },
        (KeyCode::Left, KeyModifiers::Word) => if cur > 0 {
            (s, word_scan_back(s, cur))
        } else {
            (s, cur)
        },
        (KeyCode::Right, KeyModifiers::Word) => if cur < s.len() {
            (s, word_scan_fwd(s, cur))
        } else {
            (s, cur)
        },
        _ => (s, cur),
    }
}

/// A backward boundary-run skip never leaves `[0, k]`.
pub proof fn lemma_skip_boundary_back_bounds(s: Seq<char>, k: int)
    requires
        0 <= k <= s.len(),
    ensures
        0 <= skip_boundary_back(s, k) <= k,
    decreases k,
{
    if 0 < k && !is_word_char(s[k - 1]) {
        lemma_skip_boundary_back_bounds(s, k - 1);
    }
}

/// A backward word-run skip never leaves `[0, k]`.
pub proof fn lemma_skip_word_back_bounds(s: Seq<char>, k: int)
    requires
        0 <= k <= s.len(),
    ensures
        0 <= skip_word_back(s, k) <= k,
    decreases k,
{
    if 0 < k && is_word_char(s[k - 1]) {
        lemma_skip_word_back_bounds(s, k - 1);
    }
}

/// A backward word-wise scan lands inside `[0, k]`.
pub proof fn lemma_word_scan_back_bounds(s: Seq<char>, k: int)
    requires
        0 <= k <= s.len(),
    ensures
        0 <= word_scan_back(s, k) <= k,
{
    lemma_skip_boundary_back_bounds(s, k);
    lemma_skip_word_back_bounds(s, skip_boundary_back(s, k));
}

/// Every character crossed by a backward boundary-run skip is a boundary
/// character, and the skip stops at 0 or just after a word character.
proof fn lemma_skip_boundary_back_runs(s: Seq<char>, k: int)
    requires
        0 <= k <= s.len(),
    ensures
        forall|i: int| skip_boundary_back(s, k) <= i < k ==> !is_word_char(s[i]),
        skip_boundary_back(s, k) == 0 || is_word_char(s[skip_boundary_back(s, k) - 1]),
    decreases k,
{
    if 0 < k && !is_word_char(s[k - 1]) {
        lemma_skip_boundary_back_runs(s, k - 1);
    }
}

/// Every character crossed by a backward word-run skip is a word character,
/// and the skip stops at 0 or just after a boundary character.
proof fn lemma_skip_word_back_runs(s: Seq<char>, k: int)
    requires
        0 <= k <= s.len(),
    ensures
        forall|i: int| skip_word_back(s, k) <= i < k ==> is_word_char(s[i]),
        skip_word_back(s, k) == 0 || !is_word_char(s[skip_word_back(s, k) - 1]),
    decreases k,
{
    if 0 < k && is_word_char(s[k - 1]) {
        lemma_skip_word_back_runs(s, k - 1);
    }
}

/// The backward word-wise scan lands at the start of the previous word, or
/// at 0 if none remains: walking left from `k` there lie first boundary
/// characters, then the word's characters down to the landing offset, and
/// the character just before the landing offset, if any, is a boundary
/// character.
pub proof fn lemma_word_scan_back_lands_at_word_start(s: Seq<char>, k: int)
    requires
        0 <= k <= s.len(),
    ensures
        ({
            let b = skip_boundary_back(s, k);
            let w = word_scan_back(s, k);
            &&& forall|i: int| b <= i < k ==> !is_word_char(s[i])
            &&& forall|i: int| w <= i < b ==> is_word_char(s[i])
            &&& w == 0 || !is_word_char(s[w - 1])
        }),
{
    lemma_skip_boundary_back_bounds(s, k);
    lemma_skip_boundary_back_runs(s, k);
    lemma_skip_word_back_runs(s, skip_boundary_back(s, k));
}

/// A forward word-run skip never leaves `[k, s.len()]`.
pub proof fn lemma_skip_word_fwd_bounds(s: Seq<char>, k: int)
    requires
        0 <= k <= s.len(),
    ensures
        k <= skip_word_fwd(s, k) <= s.len(),
    decreases s.len() - k,
{
    if k < s.len() && is_word_char(s[k]) {
        lemma_skip_word_fwd_bounds(s, k + 1);
    }
}

/// A forward boundary-run skip never leaves `[k, s.len()]`.
pub proof fn lemma_skip_boundary_fwd_bounds(s: Seq<char>, k: int)
    requires
        0 <= k <= s.len(),
    ensures
        k <= skip_boundary_fwd(s, k) <= s.len(),
    decreases s.len() - k,
{
    if k < s.len() && !is_word_char(s[k]) {
        lemma_skip_boundary_fwd_bounds(s, k + 1);
    }
}

/// A forward word-wise scan lands inside `[k, s.len()]`.
pub proof fn lemma_word_scan_fwd_bounds(s: Seq<char>, k: int)
    requires
        0 <= k <= s.len(),
    ensures
        k <= word_scan_fwd(s, k) <= s.len(),
{
    lemma_skip_word_fwd_bounds(s, k);
    lemma_skip_boundary_fwd_bounds(s, skip_word_fwd(s, k));
}

/// Every character crossed by a forward word-run skip is a word character,
/// and the skip stops at the end or on a boundary character.
proof fn lemma_skip_word_fwd_runs(s: Seq<char>, k: int)
    requires
        0 <= k <= s.len(),
    ensures
        forall|i: int| k <= i < skip_word_fwd(s, k) ==> is_word_char(s[i]),
        skip_word_fwd(s, k) == s.len() || !is_word_char(s[skip_word_fwd(s, k)]),
    decreases s.len() - k,
{
    if k < s.len() && is_word_char(s[k]) {
        lemma_skip_word_fwd_runs(s, k + 1);
    }
}

/// Every character crossed by a forward boundary-run skip is a boundary
/// character, and the skip stops at the end or on a word character.
proof fn lemma_skip_boundary_fwd_runs(s: Seq<char>, k: int)
    requires
        0 <= k <= s.len(),
    ensures
        forall|i: int| k <= i < skip_boundary_fwd(s, k) ==> !is_word_char(s[i]),
        skip_boundary_fwd(s, k) == s.len() || is_word_char(s[skip_boundary_fwd(s, k)]),
    decreases s.len() - k,
{
    if k < s.len() && !is_word_char(s[k]) {
        lemma_skip_boundary_fwd_runs(s, k + 1);
    }
}

/// The forward word-wise scan lands on the first word character at or after
/// the end of the current word run, or at the end of the buffer if none
/// remains: from `k` there lie first word characters, then only boundary
/// characters up to the landing offset.
pub proof fn lemma_word_scan_fwd_lands_on_word_char(s: Seq<char>, k: int)
    requires
        0 <= k <= s.len(),
    ensures
        ({
            let m = skip_word_fwd(s, k);
            let e = word_scan_fwd(s, k);
            &&& forall|i: int| k <= i < m ==> is_word_char(s[i])
            &&& forall|i: int| m <= i < e ==> !is_word_char(s[i])
            &&& e == s.len() || is_word_char(s[e])
        }),
{
    lemma_skip_word_fwd_bounds(s, k);
    lemma_skip_word_fwd_runs(s, k);
    lemma_skip_boundary_fwd_runs(s, skip_word_fwd(s, k));
}

/// Walks the backward word-wise scan over the buffer: first over the
/// boundary run that ends at `k`, then over the word run before it.
fn scan_back(v: &Vec<char>, k: usize) -> (r: usize)
    requires
        k <= v@.len(),
    ensures
        r == word_scan_back(v@, k as int),
        r <= k,
{
    let mut i: usize = k;
    while i > 0 && !v[i - 1].is_alphanumeric()
        invariant
            i <= k <= v@.len(),
            skip_boundary_back(v@, k as int) == skip_boundary_back(v@, i as int),
        decreases i,
    {
        i -= 1;
    }
    let mut j: usize = i;
    while j > 0 && v[j - 1].is_alphanumeric()
        invariant
            j <= i <= k <= v@.len(),
            i == skip_boundary_back(v@, k as int),
            skip_word_back(v@, i as int) == skip_word_back(v@, j as int),
        decreases j,
    {
        j -= 1;
    }
    j
}

/// Walks the forward word-wise scan over the buffer: first over the word run
/// that starts at `k`, then over the boundary run after it.
fn scan_fwd(v: &Vec<char>, k: usize) -> (r: usize)
    requires
        k <= v@.len(),
    ensures
        r == word_scan_fwd(v@, k as int),
        k <= r <= v@.len(),
{
    let n: usize = v.len();
    let mut i: usize = k;
    while i < n && v[i].is_alphanumeric()
        invariant
            k <= i <= n,
            n == v@.len(),
            skip_word_fwd(v@, k as int) == skip_word_fwd(v@, i as int),
        decreases n - i,
    {
        i += 1;
    }
    let mut j: usize = i;
    while j < n && !v[j].is_alphanumeric()
        invariant
            k <= i <= j <= n,
            n == v@.len(),
            i == skip_word_fwd(v@, k as int),
            skip_boundary_fwd(v@, i as int) == skip_boundary_fwd(v@, j as int),
        decreases n - j,
    {
        j += 1;
    }
    j
}

/// The buffer with the codepoints at offsets `i..j` removed: what remains is
/// the prefix before `i` followed by the suffix from `j` on.
fn splice_out(v: &Vec<char>, i: usize, j: usize) -> (r: Vec<char>)
    requires
        i <= j <= v@.len(),
    ensures
        r@ == v@.subrange(0, i as int) + v@.subrange(j as int, v@.len() as int),
{
    let mut r: Vec<char> = Vec::new();
    let mut p: usize = 0;
    while p < i
        invariant
            p <= i <= j <= v@.len(),
            r@ == v@.subrange(0, p as int),
        decreases i - p,
    {
        r.push(v[p]);
        proof {
            assert(r@ =~= v@.subrange(0, p + 1));
        }
        p += 1;
    }
    let mut q: usize = j;
    while q < v.len()
        invariant
            i <= j <= q <= v@.len(),
            r@ == v@.subrange(0, i as int) + v@.subrange(j as int, q as int),
        decreases v@.len() - q,
    {
        r.push(v[q]);
        proof {
            assert(r@ =~= v@.subrange(0, i as int) + v@.subrange(j as int, q + 1));
        }
        q += 1;
    }
    proof {
        assert(r@ =~= v@.subrange(0, i as int) + v@.subrange(j as int, v@.len() as int));
    }
    r
}

/// The single-line editor state: the line's codepoints and the cursor offset,
/// counted in codepoints.
#[derive(Debug, Clone)]
pub struct Input {
    pub value: Vec<char>,
    pub cursor: usize,
}

impl Input {
    /// The state invariant: the cursor stays inside `[0, length]`.
    pub open spec fn wf(self) -> bool {
        self.cursor <= self.value@.len()
    }

    /// Creates an editor holding the codepoints of `text`, cursor at the end.
    pub fn new(text: String) -> (r: Input)
        ensures
            r.wf(),
            r.value@ == text@,
            r.cursor == text@.len(),
    {
        let s: &str = text.as_str();
        let n: usize = s.unicode_len();
        let mut v: Vec<char> = Vec::new();
        let mut i: usize = 0;
        while i < n
            invariant
                i <= n,
                n == s@.len(),
                v@ == s@.subrange(0, i as int),
            decreases n - i,
        {
            v.push(s.get_char(i));
            proof {
                assert(v@ =~= s@.subrange(0, i + 1));
            }
            i += 1;
        }
        proof {
            assert(v@ =~= s@);
        }
        Input { value: v, cursor: n }
    }

    /// Applies one decoded key event to the editor: the new buffer and cursor
    /// are exactly what the transition function `step` says for the old ones.
    pub fn handle_event(&mut self, code: KeyCode, modifiers: KeyModifiers)
        requires
            old(self).wf(),
        ensures
            final(self).wf(),
            final(self).value@ == step(
                old(self).value@,
                old(self).cursor as int,
                code,
                modifiers,
            ).0,
            final(self).cursor as int == step(
                old(self).value@,
                old(self).cursor as int,
                code,
                modifiers,
            ).1,
    {
        match (code, modifiers) {
            // Insert character
            (KeyCode::Char(c), KeyModifiers::Plain) | (KeyCode::Char(c), KeyModifiers::Shift) => {
                self.value.insert(self.cursor, c);
                // The grown buffer's length is a usize, so the cursor, still
                // below it, can advance without overflowing.
                let n: usize = self.value.len();
                assert(self.cursor < n);
                self.cursor += 1;
            },
            // Delete previous character
            (KeyCode::Backspace, KeyModifiers::Plain) => {
                if self.cursor > 0 {
                    self.cursor -= 1;
                    self.value.remove(self.cursor);
                }
            },
            // Delete next character: fires only with the cursor at the end of
            // the buffer, where no codepoint sits at its index, so the state
            // stays as it is.
            (KeyCode::Delete, KeyModifiers::Plain) => {},
            // Go to previous character
            (KeyCode::Left, KeyModifiers::Plain) => {
                if self.cursor > 0 {
                    self.cursor -= 1;
                }
            },
            // Go to next character
            (KeyCode::Right, KeyModifiers::Plain) => {
                if self.cursor < self.value.len() {
                    self.cursor += 1;
                }
            },
            // Delete previous word
            (KeyCode::Backspace, KeyModifiers::Word) => {
                if self.cursor > 0 {
                    let j: usize = scan_back(&self.value, self.cursor);
                    self.value = splice_out(&self.value, j, self.cursor);
                    self.cursor = j;
                }
            },
            // Delete next word
            (KeyCode::Delete, KeyModifiers::Word) => {
                if self.cursor < self.value.len() {
                    let j: usize = scan_fwd(&self.value, self.cursor);
                    self.value = splice_out(&self.value, self.cursor, j);
                }
            },
            // Go to previous word
            (KeyCode::Left, KeyModifiers::Word) => {
                if self.cursor > 0 {
                    self.cursor = scan_back(&self.value, self.cursor);
                }
            },
            // Go to next word
            (KeyCode::Right, KeyModifiers::Word) => {
                if self.cursor < self.value.len() {
                    self.cursor = scan_fwd(&self.value, self.cursor);
                }
            },
            _ => {},
        }
    }

    /// The line content as displayable text, for the rendering collaborator.
    pub fn text(&self) -> (r: String)
        ensures
            r@ == self.value@,
    {
        collect_chars(&self.value)
    }

    /// The cursor as a codepoint offset, for caret placement.
    pub fn cursor_offset(&self) -> (r: usize)
        ensures
            r == self.cursor,
    {
        self.cursor
    }
}

/// For every state with the cursor inside the buffer and every decoded key
/// event, the cursor is still inside the buffer after the step; so the
/// invariant `0 <= cursor <= length` holds after any sequence of operations.
pub proof fn lemma_step_keeps_cursor_in_bounds(
    s: Seq<char>,
    cur: int,
    code: KeyCode,
    mods: KeyModifiers,
)
    requires
        0 <= cur <= s.len(),
    ensures
        ({
            let (s2, cur2) = step(s, cur, code, mods);
            0 <= cur2 <= s2.len()
        }),
{
    if cur > 0 {
        lemma_word_scan_back_bounds(s, cur);
    }
    if cur < s.len() {
        lemma_word_scan_fwd_bounds(s, cur);
    }
}

/// Inserting character `c` at cursor `k` increases the length by 1, places
/// `c` at index `k` while keeping every other codepoint in order, and
/// advances the cursor to `k + 1`. This holds with no modifier and with
/// shift alone.
pub proof fn lemma_insert_places_char(s: Seq<char>, k: int, c: char, mods: KeyModifiers)
    requires
        0 <= k <= s.len(),
        mods is Plain || mods is Shift,
    ensures
        ({
            let (s2, k2) = step(s, k, KeyCode::Char(c), mods);
            &&& s2.len() == s.len() + 1
            &&& s2[k] == c
            &&& forall|i: int| 0 <= i < k ==> s2[i] == s[i]
            &&& forall|i: int| k <= i < s.len() ==> s2[i + 1] == s[i]
            &&& k2 == k + 1
        }),
{
    s.insert_ensures(k, c);
}

/// Backspace with the cursor at offset 0 leaves the state unchanged.
pub proof fn lemma_backspace_at_zero_is_noop(s: Seq<char>)
    ensures
        step(s, 0, KeyCode::Backspace, KeyModifiers::Plain) == (s, 0int),
{
}

/// Moving right with the cursor at the end of the buffer leaves the state
/// unchanged.
pub proof fn lemma_right_at_end_is_noop(s: Seq<char>)
    ensures
        step(s, s.len() as int, KeyCode::Right, KeyModifiers::Plain) == (s, s.len() as int),
{
}

/// Relies on String::from_iter (through `collect`): the string holds exactly
/// the characters of the iterator, in order.
#[verifier::external_body]
fn collect_chars(v: &Vec<char>) -> (r: String)
    ensures
        r@ == v@,
{
    v.iter().collect()
}

impl Default for Input {
    /// An empty line with the cursor at offset 0.
    fn default() -> (r: Input)
        ensures
            r.wf(),
            r.value@ == Seq::<char>::empty(),
            r.cursor == 0,
    {
        Input { value: Vec::new(), cursor: 0 }
    }
}

} // verus!
