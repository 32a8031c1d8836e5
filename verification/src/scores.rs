//! Encoding of the trainer score ledger: an ordered object mapping
//! each identity hash, rendered as lowercase hexadecimal, to its score
//! string. An empty ledger renders as the empty object.

use vstd::prelude::*;
use vstd::string::StringExecFns;
use crate::hex::{hex_of, to_hex};
use crate::types::Digest;

verus! {

/// One ledger row rendered as `"<hex identity>":"<score>"`.
pub open spec fn row_enc(row: (Digest, String)) -> Seq<char> {
    seq!['"'] + hex_of(row.0@) + seq!['"', ':', '"'] + row.1@ + seq!['"']
}

/// Rows after the first, each preceded by a comma.
pub open spec fn rest_enc(rows: Seq<(Digest, String)>) -> Seq<char>
    decreases rows.len(),
{
    if rows.len() == 0 {
        Seq::empty()
    } else {
        seq![','] + row_enc(rows[0]) + rest_enc(rows.drop_first())
    }
}

/// All rows, comma-separated.
pub open spec fn body_enc(rows: Seq<(Digest, String)>) -> Seq<char> {
    if rows.len() == 0 {
        Seq::empty()
    } else {
        row_enc(rows[0]) + rest_enc(rows.drop_first())
    }
}

/// The whole ledger as one object.
pub open spec fn scores_enc(rows: Seq<(Digest, String)>) -> Seq<char> {
    seq!['{'] + body_enc(rows) + seq!['}']
}

/// Appending a row extends the comma-separated tail by one `,`-led
/// rendering.
proof fn lemma_rest_enc_push(rows: Seq<(Digest, String)>, row: (Digest, String))
    ensures
        rest_enc(rows.push(row)) == rest_enc(rows) + seq![','] + row_enc(row),
    decreases rows.len(),
{
    let pushed = rows.push(row);
    if rows.len() == 0 {
        let empty_rows = Seq::<(Digest, String)>::empty();
        assert(pushed[0] == row);
        assert(pushed.drop_first() =~= empty_rows);
        assert(rest_enc(empty_rows) == Seq::<char>::empty());
        assert(rest_enc(pushed) == seq![','] + row_enc(row) + rest_enc(empty_rows));
        assert(rest_enc(pushed) =~= rest_enc(rows) + seq![','] + row_enc(row));
    } else {
        assert(pushed[0] == rows[0]);
        assert(pushed.drop_first() =~= rows.drop_first().push(row));
        lemma_rest_enc_push(rows.drop_first(), row);
        assert(rest_enc(pushed) == seq![','] + row_enc(rows[0]) + rest_enc(
            rows.drop_first().push(row),
        ));
        assert(rest_enc(pushed) =~= rest_enc(rows) + seq![','] + row_enc(row));
    }
}

/// Appending a row extends the body by a comma and the row's
/// rendering, or begins it when the body was empty.
proof fn lemma_body_enc_push(rows: Seq<(Digest, String)>, row: (Digest, String))
    ensures
        body_enc(rows.push(row)) == if rows.len() == 0 {
            row_enc(row)
        } else {
            body_enc(rows) + seq![','] + row_enc(row)
        },
{
    let pushed = rows.push(row);
    if rows.len() == 0 {
        let empty_rows = Seq::<(Digest, String)>::empty();
        assert(pushed[0] == row);
        assert(pushed.drop_first() =~= empty_rows);
        assert(rest_enc(empty_rows) == Seq::<char>::empty());
        assert(body_enc(pushed) == row_enc(row) + rest_enc(empty_rows));
        assert(body_enc(pushed) =~= row_enc(row));
    } else {
        assert(pushed[0] == rows[0]);
        assert(pushed.drop_first() =~= rows.drop_first().push(row));
        lemma_rest_enc_push(rows.drop_first(), row);
        assert(body_enc(pushed) == row_enc(rows[0]) + rest_enc(rows.drop_first().push(row)));
        assert(body_enc(pushed) =~= body_enc(rows) + seq![','] + row_enc(row));
    }
}

/// Renders the ledger rows as the ordered object the score query
/// returns; valid for zero, one and many rows.
pub fn encode_scores(rows: &Vec<(Digest, String)>) -> (r: String)
    ensures
        r@ == scores_enc(rows@),
{
    proof {
        reveal_strlit("{");
        reveal_strlit("}");
        reveal_strlit(",");
        reveal_strlit("\"");
        reveal_strlit("\":\"");
    }
    let mut out = String::from_str("{");
    proof {
        assert(out@ =~= seq!['{'] + body_enc(rows@.take(0)));
    }
    let mut i: usize = 0;
    while i < rows.len()
        invariant
            i <= rows@.len(),
            out@ == seq!['{'] + body_enc(rows@.take(i as int)),
        decreases rows@.len() - i,
    {
        proof {
            reveal_strlit(",");
            reveal_strlit("\"");
            reveal_strlit("\":\"");
        }
        if i > 0 {
            out.append(",");
        }
        out.append("\"");
        let pair = &rows[i];
        let hexed = to_hex(&pair.0.bytes);
        out.append(hexed.as_str());
        out.append("\":\"");
        out.append(pair.1.as_str());
        out.append("\"");
        proof {
            lemma_body_enc_push(rows@.take(i as int), rows@[i as int]);
            assert(rows@.take(i + 1) =~= rows@.take(i as int).push(rows@[i as int]));
            assert(out@ =~= seq!['{'] + body_enc(rows@.take(i + 1)));
        }
        i += 1;
    }
    out.append("}");
    proof {
        assert(rows@.take(rows@.len() as int) =~= rows@);
        assert(out@ =~= scores_enc(rows@));
    }
    out
}

} // verus!
