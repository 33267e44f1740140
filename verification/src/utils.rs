//! Small formatting helpers for the listing table.

use vstd::prelude::*;

verus! {

/// Relies on std's `String::push`: appends one character to the string.
#[verifier::external_body]
fn string_push(s: &mut String, c: char)
    ensures
        final(s)@ == old(s)@ + seq![c],
{
    s.push(c);
}

/// The character for one decimal digit.
pub open spec fn spec_digit_char(d: int) -> char {
    ((0x30 + d) as u8) as char
}

/// The decimal numeral of `n`, most significant digit first.
pub open spec fn spec_dec(n: int) -> Seq<char>
    decreases n,
{
    if n < 10 {
        seq![spec_digit_char(n % 10)]
    } else {
        spec_dec(n / 10) + seq![spec_digit_char(n % 10)]
    }
}

fn digit_char(d: u64) -> (c: char)
    requires
        d < 10,
    ensures
        c == spec_digit_char(d as int),
{
    (0x30 + d as u8) as char
}

/// Render `n` in decimal.
pub fn u64_to_string(n: u64) -> (s: String)
    ensures
        s@ == spec_dec(n as int),
    decreases n,
{
    if n < 10 {
        let mut s = String::new();
        string_push(&mut s, digit_char(n));
        proof {
            assert(Seq::<char>::empty() + seq![spec_digit_char(n as int)] =~= seq![
                spec_digit_char(n as int),
            ]);
        }
        s
    } else {
        let mut s = u64_to_string(n / 10);
        string_push(&mut s, digit_char(n % 10));
        s
    }
}

/// How many columns a table has: the width of its widest row.
pub open spec fn spec_num_cols(rows: Seq<Seq<Seq<char>>>) -> int
    decreases rows.len(),
{
    if rows.len() == 0 {
        0
    } else {
        let prev = spec_num_cols(rows.drop_last());
        if rows.last().len() > prev {
            rows.last().len() as int
        } else {
            prev
        }
    }
}

/// The widest cell of column `c`, over the rows that have that column.
pub open spec fn spec_col_max(rows: Seq<Seq<Seq<char>>>, c: int) -> int
    decreases rows.len(),
{
    if rows.len() == 0 {
        0
    } else {
        let prev = spec_col_max(rows.drop_last(), c);
        let cur = if c < rows.last().len() {
            rows.last()[c].len() as int
        } else {
            0
        };
        if cur > prev {
            cur
        } else {
            prev
        }
    }
}

proof fn lemma_col_max_beyond(rows: Seq<Seq<Seq<char>>>, c: int)
    requires
        c >= spec_num_cols(rows),
    ensures
        spec_col_max(rows, c) == 0,
    decreases rows.len(),
{
    if rows.len() > 0 {
        lemma_col_max_beyond(rows.drop_last(), c);
    }
}

/// For each column of a listing table, the length of its longest cell,
/// measured in characters.
pub fn compute_col_max_len(rows: &Vec<Vec<String>>) -> (r: Vec<usize>)
    ensures
        r@.len() == spec_num_cols(rows.deep_view()),
        forall|c: int| 0 <= c < r@.len() ==> r@[c] == spec_col_max(rows.deep_view(), c),
{
    let ghost all = rows.deep_view();
    let mut col_max_len: Vec<usize> = Vec::new();
    let mut i: usize = 0;
    while i < rows.len()
        invariant
            i <= rows.len(),
            all == rows.deep_view(),
            col_max_len@.len() == spec_num_cols(all.take(i as int)),
            forall|c: int|
                0 <= c < col_max_len@.len() ==> col_max_len@[c] == spec_col_max(
                    all.take(i as int),
                    c,
                ),
        decreases rows.len() - i,
    {
        let row = &rows[i];
        let ghost prefix = all.take(i as int);
        let mut colno: usize = 0;
        while colno < row.len()
            invariant
                colno <= row.len(),
                all == rows.deep_view(),
                i < rows.len(),
                row == &rows[i as int],
                prefix == all.take(i as int),
                col_max_len@.len() == if colno as int > spec_num_cols(prefix) {
                    colno as int
                } else {
                    spec_num_cols(prefix)
                },
                forall|c: int|
                    0 <= c < colno && c < col_max_len@.len() ==> col_max_len@[c] == ({
                        let cur = all[i as int][c].len() as int;
                        let prev = spec_col_max(prefix, c);
                        if cur > prev {
                            cur
                        } else {
                            prev
                        }
                    }),
                forall|c: int|
                    colno <= c < col_max_len@.len() ==> col_max_len@[c] == spec_col_max(prefix, c),
            decreases row.len() - colno,
        {
            proof {
                assert(all[i as int] == rows@[i as int].deep_view());
                assert(all[i as int][colno as int] == rows@[i as int]@[colno as int]@);
            }
            let strlen = row[colno].as_str().unicode_len();
            if col_max_len.len() <= colno {
                proof {
                    // No earlier row reaches this column, so its running
                    // maximum so far is zero.
                    lemma_col_max_beyond(prefix, colno as int);
                }
                col_max_len.push(strlen);
            } else {
                if strlen > col_max_len[colno] {
                    col_max_len.set(colno, strlen);
                }
            }
            colno = colno + 1;
        }
        proof {
            let ext = all.take(i as int + 1);
            assert(ext.drop_last() =~= prefix);
            assert(ext.last() == all[i as int]);
            assert(all[i as int] == rows@[i as int].deep_view());
            assert(all[i as int].len() == row@.len());
            assert(col_max_len@.len() == spec_num_cols(ext));
            assert forall|c: int| 0 <= c < col_max_len@.len() implies col_max_len@[c]
                == spec_col_max(ext, c) by {
                assert(spec_col_max(ext, c) == ({
                    let prev = spec_col_max(prefix, c);
                    let cur = if c < ext.last().len() {
                        ext.last()[c].len() as int
                    } else {
                        0
                    };
                    if cur > prev {
                        cur
                    } else {
                        prev
                    }
                }));
            }
        }
        i = i + 1;
    }
    proof {
        assert(all.take(rows@.len() as int) =~= all);
    }
    col_max_len
}

} // verus!
