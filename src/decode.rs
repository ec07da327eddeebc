use vstd::prelude::*;

verus! {

/// How many candidate characters are reported for each line.
pub const TOP_K: usize = 3;

/// The keys that the inverse table holds at `codes`, one after another.
pub open spec fn spell(table: Seq<Seq<char>>, codes: Seq<i64>) -> Seq<char>
    decreases codes.len(),
{
    if codes.len() == 0 {
        Seq::empty()
    } else {
        spell(table, codes.drop_last()) + table[codes.last() as int]
    }
}

/// Each code addresses a slot of a table of `n` slots.
pub open spec fn codes_in_range(codes: Seq<i64>, n: int) -> bool {
    forall|k: int| 0 <= k < codes.len() ==> 0 <= #[trigger] codes[k] < n
}

/// The candidates of row `row`, spelled out.
pub open spec fn row_prediction(table: Seq<Seq<char>>, codes: Seq<i64>, row: int) -> Seq<char> {
    spell(table, codes.subrange(row * TOP_K, row * TOP_K + TOP_K))
}

/// Spells out the codes of `codes[from..to]` with the inverse table.
fn spell_range(table: &Vec<String>, codes: &Vec<i64>, from: usize, to: usize) -> (r: String)
    requires
        from <= to <= codes@.len(),
        codes_in_range(codes@, table@.len() as int),
    ensures
        r@ == spell(table.deep_view(), codes@.subrange(from as int, to as int)),
{
    let mut r = String::new();
    let mut k: usize = from;
    assert(codes@.subrange(from as int, from as int) =~= Seq::<i64>::empty());
    while k < to
        invariant
            from <= k <= to <= codes@.len(),
            codes_in_range(codes@, table@.len() as int),
            r@ == spell(table.deep_view(), codes@.subrange(from as int, k as int)),
        decreases to - k,
    {
        let c = codes[k];
        let len = table.len();
        assert(c == codes@[k as int]);
        assert(0 <= c && (c as int) < len);
        let ci = c as usize;
        r.append(table[ci].as_str());
        assert(table.deep_view()[c as int] == table@[ci as int]@);
        assert(codes@.subrange(from as int, k + 1).last() == c);
        assert(codes@.subrange(from as int, k + 1).drop_last() =~= codes@.subrange(
            from as int,
            k as int,
        ));
        k = k + 1;
    }
    r
}

/// Turns the flat row-major candidate codes of `batch_size` rows (`TOP_K` a
/// row, best first) into one string a row; `None` where the codes do not
/// make `batch_size` full rows or one does not address the table.
pub fn decode_predictions(indices: &Vec<i64>, batch_size: usize, index_to_char: &Vec<String>) -> (r:
    Option<Vec<String>>)
    ensures
        r is Some <==> (indices@.len() == batch_size * TOP_K && codes_in_range(
            indices@,
            index_to_char@.len() as int,
        )),
        r matches Some(p) ==> p@.len() == batch_size && forall|b: int|
            0 <= b < batch_size ==> (#[trigger] p@[b])@ == row_prediction(
                index_to_char.deep_view(),
                indices@,
                b,
            ),
{
    let n = indices.len();
    if n % TOP_K != 0 || n / TOP_K != batch_size {
        return None;
    }
    assert(n == batch_size * TOP_K);
    let m = index_to_char.len();
    let mut k: usize = 0;
    while k < n
        invariant
            n == indices@.len(),
            m == index_to_char@.len(),
            k <= n,
            forall|a: int| 0 <= a < k ==> 0 <= #[trigger] indices@[a] < m,
        decreases n - k,
    {
        let x = indices[k];
        if x < 0 || x as u64 >= m as u64 {
            return None;
        }
        k = k + 1;
    }
    let mut out: Vec<String> = Vec::new();
    let mut b: usize = 0;
    while b < batch_size
        invariant
            n == indices@.len(),
            n == batch_size * TOP_K,
            codes_in_range(indices@, index_to_char@.len() as int),
            b <= batch_size,
            out@.len() == b,
            forall|a: int|
                0 <= a < b ==> (#[trigger] out@[a])@ == row_prediction(
                    index_to_char.deep_view(),
                    indices@,
                    a,
                ),
        decreases batch_size - b,
    {
        assert(b * TOP_K + TOP_K <= n) by (nonlinear_arith)
            requires
                b < batch_size,
                n == batch_size * TOP_K,
        ;
        let s = spell_range(index_to_char, indices, b * TOP_K, b * TOP_K + TOP_K);
        out.push(s);
        b = b + 1;
    }
    Some(out)
}

/// The text of an output file: each prediction on a line of its own.
pub open spec fn lines_text(preds: Seq<Seq<char>>) -> Seq<char>
    decreases preds.len(),
{
    if preds.len() == 0 {
        Seq::empty()
    } else {
        lines_text(preds.drop_last()) + preds.last() + seq!['\n']
    }
}

/// Writes the predictions out, one line each.
pub fn render_predictions(preds: &Vec<String>) -> (r: String)
    ensures
        r@ == lines_text(preds.deep_view()),
{
    let ghost p = preds.deep_view();
    let mut r = String::new();
    let mut i: usize = 0;
    assert(p.take(0) =~= Seq::<Seq<char>>::empty());
    while i < preds.len()
        invariant
            p == preds.deep_view(),
            i <= preds@.len(),
            r@ == lines_text(p.take(i as int)),
        decreases preds@.len() - i,
    {
        r.append(preds[i].as_str());
        r.append("\n");
        proof {
            reveal_strlit("\n");
            assert(p.take(i + 1).drop_last() =~= p.take(i as int));
            assert("\n"@ =~= seq!['\n']);
        }
        i = i + 1;
    }
    assert(p.take(p.len() as int) =~= p);
    r
}

} // verus!
