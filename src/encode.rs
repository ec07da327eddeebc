use vstd::prelude::*;
use crate::CONTEXT_LENGTH;
use crate::vocab::{Vocab, lookup};

verus! {

/// The code of character `c`: its index in the vocabulary, or `pad` where it
/// has none.
pub open spec fn char_code(e: Seq<(Seq<char>, i64)>, c: char, pad: i64) -> i64 {
    match lookup(e, seq![c]) {
        Some(v) => v,
        None => pad,
    }
}

/// The context window of line `s`: its last `CONTEXT_LENGTH` characters as
/// codes, right-aligned, with `pad` in front where the line is shorter.
pub open spec fn window(e: Seq<(Seq<char>, i64)>, s: Seq<char>, pad: i64) -> Seq<i64> {
    Seq::new(
        CONTEXT_LENGTH as nat,
        |j: int|
            if j + s.len() < CONTEXT_LENGTH {
                pad
            } else {
                char_code(e, s[s.len() - CONTEXT_LENGTH + j], pad)
            },
    )
}

/// Encodes one line into its context window.
pub fn encode_line(line: &str, vocab: &Vocab, pad_token: i64) -> (r: Vec<i64>)
    ensures
        r@ == window(vocab.entries_view(), line@, pad_token),
{
    let len = line.unicode_len();
    let mut r: Vec<i64> = Vec::new();
    let mut j: usize = 0;
    while j < CONTEXT_LENGTH
        invariant
            len == line@.len(),
            j <= CONTEXT_LENGTH,
            r@ =~= window(vocab.entries_view(), line@, pad_token).take(j as int),
        decreases CONTEXT_LENGTH - j,
    {
        if len < CONTEXT_LENGTH && j < CONTEXT_LENGTH - len {
            r.push(pad_token);
        } else {
            let c = line.get_char(len - (CONTEXT_LENGTH - j));
            let code = match vocab.char_index(c) {
                Some(v) => v,
                None => pad_token,
            };
            r.push(code);
        }
        j = j + 1;
    }
    r
}

/// Encodes a batch of lines, row after row, into one flat sequence of
/// `CONTEXT_LENGTH` codes per line.
pub fn embed_strings(inputs: &Vec<String>, vocab: &Vocab, pad_token: i64) -> (r: Vec<i64>)
    requires
        inputs@.len() * CONTEXT_LENGTH <= usize::MAX,
    ensures
        r@.len() == inputs@.len() * CONTEXT_LENGTH,
        forall|i: int, j: int|
            0 <= i < inputs@.len() && 0 <= j < CONTEXT_LENGTH ==> r@[i * CONTEXT_LENGTH + j]
                == window(vocab.entries_view(), inputs@[i]@, pad_token)[j],
{
    let n = inputs.len();
    let mut r: Vec<i64> = Vec::new();
    let mut i: usize = 0;
    while i < n
        invariant
            n == inputs@.len(),
            n * CONTEXT_LENGTH <= usize::MAX,
            i <= n,
            r@.len() == i * CONTEXT_LENGTH,
            forall|a: int, j: int|
                0 <= a < i && 0 <= j < CONTEXT_LENGTH ==> r@[a * CONTEXT_LENGTH + j]
                    == window(vocab.entries_view(), inputs@[a]@, pad_token)[j],
        decreases n - i,
    {
        let row = encode_line(inputs[i].as_str(), vocab, pad_token);
        let ghost before = r@;
        let mut j: usize = 0;
        while j < CONTEXT_LENGTH
            invariant
                i < n,
                r@.len() == i * CONTEXT_LENGTH + j,
                j <= CONTEXT_LENGTH,
                row@ == window(vocab.entries_view(), inputs@[i as int]@, pad_token),
                forall|k: int| 0 <= k < i * CONTEXT_LENGTH ==> r@[k] == before[k],
                forall|k: int| 0 <= k < j ==> r@[i * CONTEXT_LENGTH + k] == row@[k],
            decreases CONTEXT_LENGTH - j,
        {
            r.push(row[j]);
            j = j + 1;
        }
        assert forall|a: int, j: int|
            0 <= a < i + 1 && 0 <= j < CONTEXT_LENGTH implies r@[a * CONTEXT_LENGTH + j]
            == window(vocab.entries_view(), inputs@[a]@, pad_token)[j] by {
            if a < i {
                assert(a * CONTEXT_LENGTH + j < i * CONTEXT_LENGTH);
                assert(r@[a * CONTEXT_LENGTH + j] == before[a * CONTEXT_LENGTH + j]);
            }
        }
        i = i + 1;
    }
    r
}

} // verus!
