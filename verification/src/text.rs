//! Text preprocessing for the multilingual text model: a batch of strings
//! becomes `input_ids` and `attention_mask` matrices of shape `(N, L)`.
//!
//! Tokenization itself runs in the `tokenizers` crate behind a trusted
//! wrapper; what it hands back — one pair of id and mask rows per text —
//! is flattened into row-major matrices by verified code, which also
//! checks that the rows are uniform (the tokenizer pads to the longest
//! row of the batch when padding is configured).

use vstd::prelude::*;

verus! {

/// The tokenizer loaded from the model's `tokenizer.json`; opaque here.
#[verifier::external_type_specification]
#[verifier::external_body]
pub struct ExTokenizer(tokenizers::Tokenizer);

/// Row-major `(rows, cols)` matrices of token ids and attention mask, the
/// two inputs of the text model.
pub struct TokenBatch {
    pub rows: usize,
    pub cols: usize,
    pub input_ids: Vec<i64>,
    pub attention_mask: Vec<i64>,
}

impl TokenBatch {
    /// Both buffers hold exactly `rows * cols` entries.
    pub open spec fn wf(self) -> bool {
        &&& self.input_ids@.len() == self.rows as int * self.cols as int
        &&& self.attention_mask@.len() == self.rows as int * self.cols as int
    }

    /// Token id of text `i` at position `j`.
    pub open spec fn spec_id(self, i: int, j: int) -> i64
        recommends
            0 <= i < self.rows,
            0 <= j < self.cols,
    {
        self.input_ids@[i * self.cols as int + j]
    }

    /// Attention mask of text `i` at position `j`: 1 on a real token, 0 on
    /// padding.
    pub open spec fn spec_mask(self, i: int, j: int) -> i64
        recommends
            0 <= i < self.rows,
            0 <= j < self.cols,
    {
        self.attention_mask@[i * self.cols as int + j]
    }
}

/// Relies on `TokenizerImpl::encode_batch` (reached through `Tokenizer`'s
/// `Deref`): one encoding per input text, each with equally many ids and
/// mask entries, and every mask entry 0 or 1.
#[verifier::external_body]
fn encode_batch_rows(tok: &tokenizers::Tokenizer, texts: Vec<String>) -> (r: Option<
    Vec<(Vec<i64>, Vec<i64>)>,
>)
    ensures
        match r {
            Some(encs) => {
                &&& encs@.len() == texts@.len()
                &&& forall|i: int|
                    0 <= i < encs@.len() ==> (#[trigger] encs@[i]).0@.len() == encs@[i].1@.len()
                &&& forall|i: int, j: int|
                    0 <= i < encs@.len() && 0 <= j < encs@[i].1@.len() ==> ((#[trigger] encs@[i].1@[
                        j]) == 0 || encs@[i].1@[j] == 1)
            },
            None => true,
        },
{
    let encodings = match tok.encode_batch(texts, true) {
        Ok(e) => e,
        Err(_) => return None,
    };
    let mut rows = Vec::with_capacity(encodings.len());
    for enc in &encodings {
        let ids: Vec<i64> = enc.get_ids().iter().map(|x| *x as i64).collect();
        let mask: Vec<i64> = enc.get_attention_mask().iter().map(|x| *x as i64).collect();
        rows.push((ids, mask));
    }
    Some(rows)
}

/// The rows all have the same width, and each row's mask is as long as its
/// ids — what the flattening into matrices needs.
pub open spec fn uniform_rows(encs: Seq<(Vec<i64>, Vec<i64>)>) -> bool {
    forall|i: int|
        0 <= i < encs.len() ==> (#[trigger] encs[i]).0@.len() == encs[0].0@.len() && encs[i].1@.len()
            == encs[i].0@.len()
}

/// Flat row-major indices respect the row-then-column filling order.
proof fn lemma_grid_flat_lt(cols: int, jj: int, ii: int, j: int, i: int)
    requires
        0 <= jj < cols,
        0 <= ii,
        0 <= j <= cols,
        ii < i || (ii == i && jj < j),
    ensures
        ii * cols + jj < i * cols + j,
{
    assert(ii * cols + jj < i * cols + j) by (nonlinear_arith)
        requires
            0 <= jj < cols,
            0 <= ii,
            0 <= j <= cols,
            ii < i || (ii == i && jj < j),
    ;
}

/// Flattens per-text id and mask rows into the two `(rows, cols)` matrices,
/// entry for entry; `None` exactly when the rows are ragged.
pub fn build_token_batch(encs: &Vec<(Vec<i64>, Vec<i64>)>) -> (r: Option<TokenBatch>)
    ensures
        match r {
            Some(tb) => {
                &&& uniform_rows(encs@)
                &&& tb.wf()
                &&& tb.rows == encs@.len()
                &&& encs@.len() > 0 ==> tb.cols as int == encs@[0].0@.len()
                &&& encs@.len() == 0 ==> tb.cols == 0
                &&& forall|i: int, j: int|
                    0 <= i < tb.rows && 0 <= j < tb.cols ==> #[trigger] tb.spec_id(i, j)
                        == encs@[i].0@[j] && tb.spec_mask(i, j) == encs@[i].1@[j]
            },
            None => !uniform_rows(encs@),
        },
{
    let rows = encs.len();
    let cols = if rows == 0 {
        0
    } else {
        encs[0].0.len()
    };
    let mut input_ids: Vec<i64> = Vec::new();
    let mut attention_mask: Vec<i64> = Vec::new();
    let mut i: usize = 0;
    while i < rows
        invariant
            rows == encs@.len(),
            cols as int == if rows == 0 {
                0int
            } else {
                encs@[0].0@.len() as int
            },
            i <= rows,
            input_ids@.len() == i as int * cols as int,
            attention_mask@.len() == i as int * cols as int,
            forall|ii: int|
                0 <= ii < i ==> (#[trigger] encs@[ii]).0@.len() == cols as int && encs@[ii].1@.len()
                    == cols as int,
            forall|ii: int, jj: int|
                0 <= ii < i && 0 <= jj < cols ==> #[trigger] input_ids@[ii * cols as int + jj]
                    == encs@[ii].0@[jj] && attention_mask@[ii * cols as int + jj] == encs@[ii].1@[jj],
        decreases rows - i,
    {
        if encs[i].0.len() != cols || encs[i].1.len() != cols {
            proof {
                assert(!uniform_rows(encs@));
            }
            return None;
        }
        let mut j: usize = 0;
        while j < cols
            invariant
                rows == encs@.len(),
                i < rows,
                j <= cols,
                encs@[i as int].0@.len() == cols as int,
                encs@[i as int].1@.len() == cols as int,
                input_ids@.len() == i as int * cols as int + j as int,
                attention_mask@.len() == i as int * cols as int + j as int,
                forall|ii: int, jj: int|
                    0 <= ii < i && 0 <= jj < cols ==> #[trigger] input_ids@[ii * cols as int + jj]
                        == encs@[ii].0@[jj] && attention_mask@[ii * cols as int + jj]
                        == encs@[ii].1@[jj],
                forall|jj: int|
                    0 <= jj < j ==> #[trigger] input_ids@[i as int * cols as int + jj]
                        == encs@[i as int].0@[jj] && attention_mask@[i as int * cols as int + jj]
                        == encs@[i as int].1@[jj],
            decreases cols - j,
        {
            let ghost pre_ids = input_ids@;
            let ghost pre_mask = attention_mask@;
            let id = encs[i].0[j];
            let m = encs[i].1[j];
            input_ids.push(id);
            attention_mask.push(m);
            proof {
                assert forall|ii: int, jj: int|
                    0 <= ii < i && 0 <= jj < cols implies #[trigger] input_ids@[ii * cols as int
                    + jj] == encs@[ii].0@[jj] && attention_mask@[ii * cols as int + jj]
                    == encs@[ii].1@[jj] by {
                    lemma_grid_flat_lt(cols as int, jj, ii, j as int, i as int);
                    assert(input_ids@[ii * cols as int + jj] == pre_ids[ii * cols as int + jj]);
                    assert(attention_mask@[ii * cols as int + jj] == pre_mask[ii * cols as int
                        + jj]);
                }
                assert forall|jj: int|
                    0 <= jj < j + 1 implies #[trigger] input_ids@[i as int * cols as int + jj]
                    == encs@[i as int].0@[jj] && attention_mask@[i as int * cols as int + jj]
                    == encs@[i as int].1@[jj] by {
                    if jj < j {
                        lemma_grid_flat_lt(cols as int, jj, i as int, j as int, i as int);
                        assert(input_ids@[i as int * cols as int + jj] == pre_ids[i as int
                            * cols as int + jj]);
                        assert(attention_mask@[i as int * cols as int + jj] == pre_mask[i as int
                            * cols as int + jj]);
                    } else {
                        assert(i as int * cols as int + jj == pre_ids.len());
                        assert(i as int * cols as int + jj == pre_mask.len());
                    }
                }
            }
            j = j + 1;
        }
        proof {
            assert((i as int + 1) * cols as int == i as int * cols as int + cols as int)
                by (nonlinear_arith);
        }
        i = i + 1;
    }
    let tb = TokenBatch { rows, cols, input_ids, attention_mask };
    proof {
        assert(uniform_rows(encs@));
        assert forall|i2: int, j2: int|
            0 <= i2 < tb.rows && 0 <= j2 < tb.cols implies #[trigger] tb.spec_id(i2, j2)
            == encs@[i2].0@[j2] && tb.spec_mask(i2, j2) == encs@[i2].1@[j2] by {}
    }
    Some(tb)
}

/// Tokenizes a batch of texts into the text model's two input matrices:
/// one row per text, padded to the longest row when the tokenizer pads.
/// `None` when the tokenizer fails or yields ragged rows; for every batch
/// that comes back, one row per input text with a 0-or-1 mask.
pub fn preprocess_texts(tok: &tokenizers::Tokenizer, texts: Vec<String>) -> (r: Option<TokenBatch>)
    ensures
        match r {
            Some(tb) => {
                &&& tb.wf()
                &&& tb.rows == texts@.len()
                &&& forall|i: int, j: int|
                    0 <= i < tb.rows && 0 <= j < tb.cols ==> (#[trigger] tb.spec_mask(i, j)) == 0
                        || tb.spec_mask(i, j) == 1
            },
            None => true,
        },
{
    let ghost n = texts@.len();
    let encs = match encode_batch_rows(tok, texts) {
        Some(encs) => encs,
        None => {
            return None;
        },
    };
    match build_token_batch(&encs) {
        Some(tb) => {
            proof {
                assert forall|i: int, j: int|
                    0 <= i < tb.rows && 0 <= j < tb.cols implies (#[trigger] tb.spec_mask(i, j))
                    == 0 || tb.spec_mask(i, j) == 1 by {
                    assert(tb.spec_id(i, j) == encs@[i].0@[j]);
                    assert(tb.spec_mask(i, j) == encs@[i].1@[j]);
                }
            }
            Some(tb)
        },
        None => None,
    }
}

} // verus!
