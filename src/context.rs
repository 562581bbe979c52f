use vstd::prelude::*;

verus! {

/// The most bytes an assembled context may hold, in UTF-8.
pub const MAX_CONTEXT_BYTES: usize = 8000;

/// The text placed between two retrieved chunks.
pub open spec fn separator() -> Seq<char> {
    seq!['\n', '\n', '-', '-', '-', '\n', '\n']
}

/// The chunks joined in order, with the separator between each two.
pub open spec fn joined(chunks: Seq<Seq<char>>) -> Seq<char>
    decreases chunks.len(),
{
    if chunks.len() == 0 {
        Seq::empty()
    } else if chunks.len() == 1 {
        chunks[0]
    } else {
        joined(chunks.drop_last()) + separator() + chunks.last()
    }
}

/// Position of the last sentence end ('.') among the first `end` characters, or -1.
pub open spec fn last_stop_before(s: Seq<char>, end: int) -> int
    decreases end,
{
    if end <= 0 {
        -1
    } else if s[end - 1] == '.' {
        end - 1
    } else {
        last_stop_before(s, end - 1)
    }
}

/// How many bytes a character takes in UTF-8.
pub open spec fn char_width(c: char) -> nat {
    if (c as u32) < 0x80 {
        1
    } else if (c as u32) < 0x800 {
        2
    } else if (c as u32) < 0x10000 {
        3
    } else {
        4
    }
}

/// The length of a text in UTF-8 bytes.
pub open spec fn utf8_len(s: Seq<char>) -> nat
    decreases s.len(),
{
    if s.len() == 0 {
        0
    } else {
        utf8_len(s.drop_last()) + char_width(s.last())
    }
}

/// Counting up from `k` leading characters: how many leading characters fit
/// in `max` bytes.
pub open spec fn fitting_from(s: Seq<char>, max: nat, k: int) -> int
    decreases s.len() - k,
{
    if 0 <= k < s.len() && utf8_len(s.take(k + 1)) <= max {
        fitting_from(s, max, k + 1)
    } else {
        k
    }
}

/// How many leading characters fit in `max` bytes.
pub open spec fn fitting(s: Seq<char>, max: nat) -> int {
    fitting_from(s, max, 0)
}

/// A text cut to at most `max` UTF-8 bytes, on a character boundary:
/// unchanged when it fits; otherwise cut just before the last sentence end
/// among the characters that fit, or after those characters when there is none.
pub open spec fn truncated(s: Seq<char>, max: nat) -> Seq<char> {
    if utf8_len(s) <= max {
        s
    } else if last_stop_before(s, fitting(s, max)) >= 0 {
        s.subrange(0, last_stop_before(s, fitting(s, max)))
    } else {
        s.subrange(0, fitting(s, max))
    }
}

/// The context assembled from retrieved chunks under a maximum length.
pub open spec fn assembled(chunks: Seq<Seq<char>>, max: nat) -> Seq<char> {
    truncated(joined(chunks), max)
}

/// The last sentence end found lies among the first `end` characters.
pub proof fn lemma_last_stop_bounds(s: Seq<char>, end: int)
    requires
        0 <= end <= s.len(),
    ensures
        -1 <= last_stop_before(s, end) < end,
        last_stop_before(s, end) >= 0 ==> s[last_stop_before(s, end)] == '.',
    decreases end,
{
    if end > 0 && s[end - 1] != '.' {
        lemma_last_stop_bounds(s, end - 1);
    }
}

/// Adding a character to a prefix adds its width.
pub proof fn lemma_utf8_take_step(s: Seq<char>, k: int)
    requires
        0 <= k < s.len(),
    ensures
        utf8_len(s.take(k + 1)) == utf8_len(s.take(k)) + char_width(s[k]),
{
    assert(s.take(k + 1).drop_last() =~= s.take(k));
}

/// A shorter prefix takes no more bytes.
pub proof fn lemma_utf8_take_mono(s: Seq<char>, j: int, k: int)
    requires
        0 <= j <= k <= s.len(),
    ensures
        utf8_len(s.take(j)) <= utf8_len(s.take(k)),
    decreases k - j,
{
    if j < k {
        lemma_utf8_take_step(s, k - 1);
        lemma_utf8_take_mono(s, j, k - 1);
    }
}

/// The characters counted as fitting do fit, and one more would not.
pub proof fn lemma_fitting_from(s: Seq<char>, max: nat, k: int)
    requires
        0 <= k <= s.len(),
        utf8_len(s.take(k)) <= max,
    ensures
        k <= fitting_from(s, max, k) <= s.len(),
        utf8_len(s.take(fitting_from(s, max, k))) <= max,
        fitting_from(s, max, k) < s.len() ==> utf8_len(s.take(fitting_from(s, max, k) + 1))
            > max,
    decreases s.len() - k,
{
    if k < s.len() && utf8_len(s.take(k + 1)) <= max {
        lemma_fitting_from(s, max, k + 1);
    }
}

/// A cut text is a prefix of the original, no longer than the maximum in bytes.
pub proof fn lemma_truncated_len(s: Seq<char>, max: nat)
    ensures
        utf8_len(truncated(s, max)) <= max,
        truncated(s, max).len() <= s.len(),
        truncated(s, max) == s.subrange(0, truncated(s, max).len() as int),
{
    if utf8_len(s) > max {
        assert(s.take(0) =~= Seq::<char>::empty());
        lemma_fitting_from(s, max, 0);
        let k = fitting(s, max);
        lemma_last_stop_bounds(s, k);
        let m = truncated(s, max).len() as int;
        assert(truncated(s, max) =~= s.take(m));
        lemma_utf8_take_mono(s, m, k);
    } else {
        assert(s.subrange(0, s.len() as int) =~= s);
    }
}

/// The assembled context never exceeds the maximum, and a joined text that
/// already fits is returned whole.
pub proof fn lemma_assembled_bounded(chunks: Seq<Seq<char>>, max: nat)
    ensures
        utf8_len(assembled(chunks, max)) <= max,
        utf8_len(joined(chunks)) <= max ==> assembled(chunks, max) == joined(chunks),
{
    lemma_truncated_len(joined(chunks), max);
}

/// Assembling is idempotent: the assembled context, assembled again as the one
/// chunk under the same maximum, comes back unchanged.
pub proof fn lemma_assembled_idempotent(chunks: Seq<Seq<char>>, max: nat)
    ensures
        assembled(seq![assembled(chunks, max)], max) == assembled(chunks, max),
{
    lemma_truncated_len(joined(chunks), max);
    assert(joined(seq![assembled(chunks, max)]) == assembled(chunks, max));
}

/// How many bytes a character takes in UTF-8.
fn char_width_of(c: char) -> (r: usize)
    ensures
        r == char_width(c),
{
    let v = c as u32;
    if v < 0x80 {
        1
    } else if v < 0x800 {
        2
    } else if v < 0x10000 {
        3
    } else {
        4
    }
}

/// Appends the chunks in order with the separator between them.
pub fn join_chunks(chunks: &Vec<String>) -> (r: String)
    ensures
        r@ == joined(chunks@.map_values(|c: String| c@)),
{
    let ghost views = chunks@.map_values(|c: String| c@);
    let mut out = String::new();
    let mut i: usize = 0;
    while i < chunks.len()
        invariant
            i <= chunks.len(),
            views == chunks@.map_values(|c: String| c@),
            out@ == joined(views.take(i as int)),
        decreases chunks.len() - i,
    {
        proof {
            reveal_strlit("\n\n---\n\n");
        }
        if i > 0 {
            out.append("\n\n---\n\n");
        }
        out.append(chunks[i].as_str());
        proof {
            let t = views.take(i as int + 1);
            assert(t.drop_last() =~= views.take(i as int));
            assert(t.last() == chunks@[i as int]@);
            assert(out@ =~= joined(t));
        }
        i = i + 1;
    }
    assert(views.take(chunks.len() as int) =~= views);
    out
}

/// Cuts a text to at most `max` UTF-8 bytes on a character boundary,
/// preferring the last sentence end.
pub fn truncate_context(s: &str, max: usize) -> (r: String)
    ensures
        r@ == truncated(s@, max as nat),
{
    let n = s.unicode_len();
    let mut k: usize = 0;
    let mut bytes: usize = 0;
    proof {
        assert(s@.take(0) =~= Seq::<char>::empty());
    }
    while k < n && char_width_of(s.get_char(k)) <= max - bytes
        invariant
            n == s@.len(),
            k <= n,
            bytes <= max,
            bytes == utf8_len(s@.take(k as int)),
            fitting_from(s@, max as nat, k as int) == fitting(s@, max as nat),
        decreases n - k,
    {
        proof {
            lemma_utf8_take_step(s@, k as int);
        }
        bytes = bytes + char_width_of(s.get_char(k));
        k = k + 1;
    }
    proof {
        if k < n {
            lemma_utf8_take_step(s@, k as int);
        }
        lemma_fitting_from(s@, max as nat, k as int);
    }
    if k == n {
        proof {
            assert(s@.take(n as int) =~= s@);
        }
        return String::from_str(s);
    }
    proof {
        lemma_utf8_take_mono(s@, k as int + 1, n as int);
        assert(s@.take(n as int) =~= s@);
    }
    let mut end: usize = k;
    while end > 0 && s.get_char(end - 1) != '.'
        invariant
            end <= k < n,
            n == s@.len(),
            last_stop_before(s@, end as int) == last_stop_before(s@, k as int),
        decreases end,
    {
        end = end - 1;
    }
    if end > 0 {
        String::from_str(s.substring_char(0, end - 1))
    } else {
        String::from_str(s.substring_char(0, k))
    }
}

/// Joins the chunks with the separator and cuts the result to at most `max`
/// UTF-8 bytes.
pub fn assemble_context(chunks: &Vec<String>, max: usize) -> (r: String)
    ensures
        r@ == assembled(chunks@.map_values(|c: String| c@), max as nat),
        utf8_len(r@) <= max,
{
    let full = join_chunks(chunks);
    let r = truncate_context(full.as_str(), max);
    proof {
        lemma_truncated_len(full@, max as nat);
    }
    r
}

} // verus!
