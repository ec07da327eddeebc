use vstd::prelude::*;
use crate::text::same_text;

verus! {

/// The entries, key and index, that the JSON text `text` holds as an object
/// from strings to integers, in ascending order of key; `None` where it holds
/// no such object.
pub uninterp spec fn json_vocab_entries(text: Seq<char>) -> Option<Seq<(Seq<char>, i64)>>;

#[verifier::external_type_specification]
#[verifier::external_body]
pub struct ExJsonError(serde_json::Error);

/// Relies on serde_json::from_str into a `BTreeMap<String, i64>`: the outcome
/// depends on the text alone, and the map's keys are distinct.
#[verifier::external_body]
fn parse_vocab_json(text: &str) -> (r: Result<Vec<(String, i64)>, serde_json::Error>)
    ensures
        match r {
            Ok(v) => json_vocab_entries(text@) == Some(v.deep_view()),
            Err(_) => json_vocab_entries(text@) is None,
        },
        r is Ok ==> distinct_keys(r->Ok_0.deep_view()),
{
    serde_json::from_str::<std::collections::BTreeMap<String, i64>>(text).map(
        |m| m.into_iter().collect(),
    )
}

/// No two entries share a key.
pub open spec fn distinct_keys(e: Seq<(Seq<char>, i64)>) -> bool {
    forall|a: int, b: int| 0 <= a < b < e.len() ==> e[a].0 != e[b].0
}

/// The index of the first entry whose key is `key`.
pub open spec fn lookup(e: Seq<(Seq<char>, i64)>, key: Seq<char>) -> Option<i64>
    decreases e.len(),
{
    if e.len() == 0 {
        None
    } else if e[0].0 == key {
        Some(e[0].1)
    } else {
        lookup(e.drop_first(), key)
    }
}

/// The key that the inverse table holds at `j`: that of the last entry with
/// index `j`, or the empty string where none has it.
pub open spec fn inverse_at(e: Seq<(Seq<char>, i64)>, j: int) -> Seq<char>
    decreases e.len(),
{
    if e.len() == 0 {
        Seq::empty()
    } else if e.last().1 == j {
        e.last().0
    } else {
        inverse_at(e.drop_last(), j)
    }
}

/// Every index lies in `0 .. e.len()`.
pub open spec fn indices_in_range(e: Seq<(Seq<char>, i64)>) -> bool {
    forall|k: int| 0 <= k < e.len() ==> 0 <= #[trigger] e[k].1 < e.len()
}

/// No two entries share an index.
pub open spec fn distinct_indices(e: Seq<(Seq<char>, i64)>) -> bool {
    forall|a: int, b: int| 0 <= a < b < e.len() ==> e[a].1 != e[b].1
}

proof fn lemma_lookup_found(e: Seq<(Seq<char>, i64)>, key: Seq<char>)
    requires
        lookup(e, key) is Some,
    ensures
        exists|k: int| 0 <= k < e.len() && #[trigger] e[k] == (key, lookup(e, key)->Some_0),
    decreases e.len(),
{
    if e[0].0 != key {
        lemma_lookup_found(e.drop_first(), key);
        let k = choose|k: int|
            0 <= k < e.drop_first().len() && #[trigger] e.drop_first()[k] == (
                key,
                lookup(e, key)->Some_0,
            );
        assert(e[k + 1] == e.drop_first()[k]);
    } else {
        assert(e[0] == (key, lookup(e, key)->Some_0));
    }
}

proof fn lemma_inverse_at_entry(e: Seq<(Seq<char>, i64)>, k: int)
    requires
        distinct_indices(e),
        0 <= k < e.len(),
    ensures
        inverse_at(e, e[k].1 as int) == e[k].0,
    decreases e.len(),
{
    if k < e.len() - 1 {
        assert(e.last().1 != e[k].1);
        assert(e.drop_last()[k] == e[k]);
        lemma_inverse_at_entry(e.drop_last(), k);
    }
}

/// Where no two entries share an index, the inverse table maps the index of
/// each key back to that key.
pub proof fn lemma_table_inverts_lookup(v: &Vocab, key: Seq<char>)
    requires
        v.wf(),
        distinct_indices(v.entries_view()),
        lookup(v.entries_view(), key) is Some,
    ensures
        v.table_view()[lookup(v.entries_view(), key)->Some_0 as int] == key,
{
    let e = v.entries_view();
    lemma_lookup_found(e, key);
    let k = choose|k: int| 0 <= k < e.len() && #[trigger] e[k] == (key, lookup(e, key)->Some_0);
    lemma_inverse_at_entry(e, k);
    assert(0 <= e[k].1 < e.len());
}

/// Why a vocabulary could not be made.
#[derive(Debug)]
pub enum VocabError {
    /// The text is not a JSON object from strings to integers.
    Json(serde_json::Error),
    /// An entry's index does not address a slot of the inverse table.
    IndexOutOfRange(i64),
}

/// What making a vocabulary of entries `e` gives: the vocabulary where every
/// index is in range, else the index of the first entry that is not.
pub open spec fn vocab_outcome(e: Seq<(Seq<char>, i64)>, r: Result<Vocab, VocabError>) -> bool {
    match r {
        Ok(v) => indices_in_range(e) && v.wf() && v.entries_view() == e,
        Err(VocabError::IndexOutOfRange(x)) => exists|k: int|
            0 <= k < e.len() && #[trigger] e[k].1 == x && !(0 <= x < e.len()) && forall|a: int|
                0 <= a < k ==> 0 <= #[trigger] e[a].1 < e.len(),
        Err(VocabError::Json(_)) => false,
    }
}

/// A mapping from characters to integer indices, with its inverse table.
pub struct Vocab {
    entries: Vec<(String, i64)>,
    index_to_char: Vec<String>,
}

impl Vocab {
    pub closed spec fn entries_view(&self) -> Seq<(Seq<char>, i64)> {
        self.entries.deep_view()
    }

    pub closed spec fn table_view(&self) -> Seq<Seq<char>> {
        self.index_to_char.deep_view()
    }

    /// The inverse table has one slot per entry, and each slot holds what
    /// `inverse_at` says.
    pub open spec fn wf(&self) -> bool {
        &&& indices_in_range(self.entries_view())
        &&& self.table_view().len() == self.entries_view().len()
        &&& forall|j: int|
            0 <= j < self.table_view().len() ==> #[trigger] self.table_view()[j] == inverse_at(
                self.entries_view(),
                j,
            )
    }

    /// Makes the vocabulary of `entries`: fails where an index is negative or
    /// not below the number of entries.
    pub fn from_entries(entries: Vec<(String, i64)>) -> (r: Result<Vocab, VocabError>)
        ensures
            vocab_outcome(entries.deep_view(), r),
    {
        let ghost e = entries.deep_view();
        let n = entries.len();
        let mut table: Vec<String> = Vec::new();
        let mut t: usize = 0;
        while t < n
            invariant
                t <= n,
                table@.len() == t,
                forall|j: int| 0 <= j < t ==> (#[trigger] table@[j])@ == Seq::<char>::empty(),
            decreases n - t,
        {
            table.push(String::new());
            t = t + 1;
        }
        let mut i: usize = 0;
        while i < n
            invariant
                n == entries@.len(),
                e == entries.deep_view(),
                i <= n,
                table@.len() == n,
                forall|k: int| 0 <= k < i ==> 0 <= #[trigger] e[k].1 < n,
                forall|j: int|
                    0 <= j < n ==> (#[trigger] table@[j])@ == inverse_at(e.take(i as int), j),
            decreases n - i,
        {
            let idx = entries[i].1;
            assert(e[i as int].1 == idx);
            if idx < 0 || idx as u64 >= n as u64 {
                assert(e[i as int].1 == idx && !(0 <= idx < n));
                return Err(VocabError::IndexOutOfRange(idx));
            }
            let ghost before = table@;
            table.set(idx as usize, entries[i].0.clone());
            proof {
                assert(e.take(i + 1).drop_last() =~= e.take(i as int));
                assert forall|j: int| 0 <= j < n implies (#[trigger] table@[j])@ == inverse_at(
                    e.take(i + 1),
                    j,
                ) by {
                    if j != idx as int {
                        assert(table@[j] == before[j]);
                    }
                }
            }
            i = i + 1;
        }
        proof {
            assert(e.take(n as int) =~= e);
            assert(table.deep_view().len() == n);
        }
        Ok(Vocab { entries, index_to_char: table })
    }

    /// Every entry, key and index, in the order the vocabulary was made from.
    pub fn entries(&self) -> (r: &Vec<(String, i64)>)
        ensures
            r.deep_view() == self.entries_view(),
    {
        &self.entries
    }

    /// The inverse table: at each index, the key that maps to it.
    pub fn index_to_char(&self) -> (r: &Vec<String>)
        ensures
            r.deep_view() == self.table_view(),
    {
        &self.index_to_char
    }

    /// The number of entries.
    pub fn len(&self) -> (r: usize)
        ensures
            r == self.entries_view().len(),
    {
        self.entries.len()
    }

    /// The index of `key`, if it is a key of the vocabulary.
    pub fn get(&self, key: &str) -> (r: Option<i64>)
        ensures
            r == lookup(self.entries_view(), key@),
    {
        let ghost e = self.entries_view();
        let n = self.entries.len();
        let mut i: usize = 0;
        assert(e.subrange(0, n as int) =~= e);
        while i < n
            invariant
                n == e.len(),
                e == self.entries.deep_view(),
                i <= n,
                lookup(e, key@) == lookup(e.subrange(i as int, n as int), key@),
            decreases n - i,
        {
            let ghost rest = e.subrange(i as int, n as int);
            assert(rest[0] == e[i as int]);
            assert(e[i as int].0 == self.entries[i as int].0@);
            if same_text(self.entries[i].0.as_str(), key) {
                return Some(self.entries[i].1);
            }
            assert(rest.drop_first() =~= e.subrange(i + 1, n as int));
            i = i + 1;
        }
        None
    }

    /// The index of the one-character key `c`, if the vocabulary has it.
    pub fn char_index(&self, c: char) -> (r: Option<i64>)
        ensures
            r == lookup(self.entries_view(), seq![c]),
    {
        let ghost e = self.entries_view();
        let n = self.entries.len();
        let mut i: usize = 0;
        assert(e.subrange(0, n as int) =~= e);
        while i < n
            invariant
                n == e.len(),
                e == self.entries.deep_view(),
                i <= n,
                lookup(e, seq![c]) == lookup(e.subrange(i as int, n as int), seq![c]),
            decreases n - i,
        {
            let ghost rest = e.subrange(i as int, n as int);
            assert(rest[0] == e[i as int]);
            let key = self.entries[i].0.as_str();
            assert(e[i as int].0 == key@);
            if key.unicode_len() == 1 && key.get_char(0) == c {
                assert(key@ =~= seq![c]);
                return Some(self.entries[i].1);
            }
            assert(key@ != seq![c]) by {
                if key@ == seq![c] {
                    assert(key@.len() == 1 && key@[0] == c);
                }
            }
            assert(rest.drop_first() =~= e.subrange(i + 1, n as int));
            i = i + 1;
        }
        None
    }

    /// The index of the space character, which pads short lines.
    pub fn pad_token(&self) -> (r: Option<i64>)
        ensures
            r == lookup(self.entries_view(), seq![' ']),
    {
        self.char_index(' ')
    }
}

/// Reads a vocabulary from JSON text: an object from keys to indices.
pub fn load_vocab(text: &str) -> (r: Result<Vocab, VocabError>)
    ensures
        match json_vocab_entries(text@) {
            None => r matches Err(VocabError::Json(_)),
            Some(e) => vocab_outcome(e, r),
        },
{
    match parse_vocab_json(text) {
        Ok(entries) => Vocab::from_entries(entries),
        Err(err) => Err(VocabError::Json(err)),
    }
}

} // verus!
