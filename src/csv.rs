use vstd::prelude::*;

verus! {

/// A worksheet cell, by what the CSV text of it needs. Cells whose text the
/// workbook reader formats itself (decimals, dates, error codes) are `Text`.
#[derive(Debug, Clone, PartialEq, Eq)]
pub enum Cell {
    Empty,
    Text(String),
    Int(i64),
    Bool(bool),
}

impl DeepView for Cell {
    type V = Cell;

    open spec fn deep_view(&self) -> Cell {
        *self
    }
}

pub open spec fn digit_char(d: nat) -> char {
    if d == 0 { '0' } else if d == 1 { '1' } else if d == 2 { '2' } else if d == 3 { '3' }
    else if d == 4 { '4' } else if d == 5 { '5' } else if d == 6 { '6' } else if d == 7 { '7' }
    else if d == 8 { '8' } else { '9' }
}

/// Decimal digits of `n`, most significant first, without leading zeros.
pub open spec fn nat_digits(n: nat) -> Seq<char>
    decreases n,
{
    if n < 10 {
        seq![digit_char(n)]
    } else {
        nat_digits(n / 10).push(digit_char(n % 10))
    }
}

/// Decimal text of an integer, with a leading `-` when negative.
pub open spec fn int_text(i: int) -> Seq<char> {
    if i < 0 {
        seq!['-'] + nat_digits((-i) as nat)
    } else {
        nat_digits(i as nat)
    }
}

pub open spec fn cell_text(c: Cell) -> Seq<char> {
    match c {
        Cell::Empty => Seq::empty(),
        Cell::Text(s) => s@,
        Cell::Int(i) => int_text(i as int),
        Cell::Bool(b) => if b { "true"@ } else { "false"@ },
    }
}

/// The text of the first `row.len()` cells of a row of a range with `columns`
/// columns: each cell but the one in the last column is followed by a comma.
pub open spec fn row_text(row: Seq<Cell>, columns: nat) -> Seq<char>
    decreases row.len(),
{
    if row.len() == 0 {
        Seq::empty()
    } else {
        let sep = if row.len() != columns { ","@ } else { Seq::empty() };
        row_text(row.drop_last(), columns) + cell_text(row.last()) + sep
    }
}

/// The CSV text of a range: each row's text ended by CR LF.
pub open spec fn range_text(rows: Seq<Seq<Cell>>, columns: nat) -> Seq<char>
    decreases rows.len(),
{
    if rows.len() == 0 {
        Seq::empty()
    } else {
        range_text(rows.drop_last(), columns) + row_text(rows.last(), columns) + "\r\n"@
    }
}

fn digit_str(d: u64) -> (r: &'static str)
    requires
        d < 10,
    ensures
        r@ == seq![digit_char(d as nat)],
{
    proof {
        reveal_strlit("0");
        reveal_strlit("1");
        reveal_strlit("2");
        reveal_strlit("3");
        reveal_strlit("4");
        reveal_strlit("5");
        reveal_strlit("6");
        reveal_strlit("7");
        reveal_strlit("8");
        reveal_strlit("9");
    }
    let r = match d {
        0 => "0",
        1 => "1",
        2 => "2",
        3 => "3",
        4 => "4",
        5 => "5",
        6 => "6",
        7 => "7",
        8 => "8",
        _ => "9",
    };
    assert(r@ =~= seq![digit_char(d as nat)]);
    r
}

fn push_digits(out: &mut String, n: u64)
    ensures
        final(out)@ == old(out)@ + nat_digits(n as nat),
    decreases n,
{
    if n >= 10 {
        push_digits(out, n / 10);
    }
    out.append(digit_str(n % 10));
    proof {
        assert(old(out)@ + nat_digits(n as nat) =~= if n >= 10 {
            old(out)@ + nat_digits((n / 10) as nat) + seq![digit_char((n % 10) as nat)]
        } else {
            old(out)@ + seq![digit_char((n % 10) as nat)]
        });
    }
}

/// Appends the decimal text of `i` to `out`.
pub fn push_int(out: &mut String, i: i64)
    ensures
        final(out)@ == old(out)@ + int_text(i as int),
{
    if i < 0 {
        out.append("-");
        proof {
            reveal_strlit("-");
        }
        let m: u64 = (-(i as i128)) as u64;
        push_digits(out, m);
        assert(final(out)@ =~= old(out)@ + int_text(i as int));
    } else {
        push_digits(out, i as u64);
    }
}

/// Appends the CSV text of one cell to `out`.
pub fn push_cell(out: &mut String, c: &Cell)
    ensures
        final(out)@ == old(out)@ + cell_text(*c),
{
    match c {
        Cell::Empty => {
            assert(old(out)@ + cell_text(*c) =~= old(out)@);
        },
        Cell::Text(s) => out.append(s.as_str()),
        Cell::Int(i) => push_int(out, *i),
        Cell::Bool(b) => {
            if *b {
                out.append("true");
            } else {
                out.append("false");
            }
        },
    }
}

/// The CSV text of a worksheet range of `columns` columns: cells separated by
/// commas, rows ended by CR LF. Cell text is not escaped.
pub fn write_range(rows: &Vec<Vec<Cell>>, columns: usize) -> (r: String)
    ensures
        r@ == range_text(rows.deep_view(), columns as nat),
{
    let mut out = String::new();
    let mut k: usize = 0;
    while k < rows.len()
        invariant
            0 <= k <= rows.len(),
            out@ == range_text(rows.deep_view().take(k as int), columns as nat),
        decreases rows.len() - k,
    {
        let row = &rows[k];
        let ghost before = out@;
        let mut i: usize = 0;
        while i < row.len()
            invariant
                0 <= i <= row.len(),
                out@ == before + row_text(row.deep_view().take(i as int), columns as nat),
            decreases row.len() - i,
        {
            push_cell(&mut out, &row[i]);
            if i + 1 != columns {
                out.append(",");
            }
            proof {
                let cells = row.deep_view();
                assert(cells.take(i + 1).drop_last() =~= cells.take(i as int));
                assert(cells.take(i + 1).last() == cells[i as int]);
            }
            i += 1;
        }
        out.append("\r\n");
        proof {
            let all = rows.deep_view();
            assert(row.deep_view().take(row.len() as int) =~= row.deep_view());
            assert(all.take(k + 1).drop_last() =~= all.take(k as int));
            assert(all.take(k + 1).last() == all[k as int]);
        }
        k += 1;
    }
    assert(rows.deep_view().take(rows.len() as int) =~= rows.deep_view());
    out
}

/// Pieces joined with `sep` between them.
pub open spec fn join_on(pieces: Seq<Seq<char>>, sep: char) -> Seq<char>
    decreases pieces.len(),
{
    if pieces.len() == 0 {
        Seq::empty()
    } else if pieces.len() == 1 {
        pieces[0]
    } else {
        join_on(pieces.drop_last(), sep) + seq![sep] + pieces.last()
    }
}

/// The pieces of `s` between occurrences of `sep`, empty ones included.
pub open spec fn split_on(s: Seq<char>, sep: char) -> Seq<Seq<char>>
    decreases s.len(),
{
    if s.len() == 0 {
        seq![Seq::empty()]
    } else {
        let r = split_on(s.drop_last(), sep);
        if s.last() == sep {
            r.push(Seq::empty())
        } else {
            r.update(r.len() - 1, r.last().push(s.last()))
        }
    }
}

/// What a reader of comma-separated text sees: lines ended by CR LF, fields
/// separated by commas.
pub open spec fn read_csv(text: Seq<char>) -> Seq<Seq<Seq<char>>> {
    split_on(text, '\n').drop_last().map_values(|line: Seq<char>| split_on(line.drop_last(), ','))
}

pub open spec fn cell_texts(row: Seq<Cell>) -> Seq<Seq<char>> {
    row.map_values(|c: Cell| cell_text(c))
}

/// Whether no cell's text holds a comma, CR or LF.
pub open spec fn plain_cells(rows: Seq<Seq<Cell>>) -> bool {
    forall|k: int, i: int|
        0 <= k < rows.len() && 0 <= i < rows[k].len() ==> {
            let t = #[trigger] cell_text(rows[k][i]);
            !t.contains(',') && !t.contains('\r') && !t.contains('\n')
        }
}

proof fn lemma_split_extend(x: Seq<char>, b: Seq<char>, sep: char)
    requires
        !b.contains(sep),
    ensures
        split_on(x + b, sep) == split_on(x, sep).update(
            split_on(x, sep).len() - 1,
            split_on(x, sep).last() + b,
        ),
        split_on(x, sep).len() >= 1,
    decreases b.len(),
{
    lemma_split_len(x, sep);
    if b.len() == 0 {
        assert(x + b =~= x);
        assert(split_on(x, sep).last() + b =~= split_on(x, sep).last());
        assert(split_on(x, sep).update(split_on(x, sep).len() - 1, split_on(x, sep).last())
            =~= split_on(x, sep));
    } else {
        let b0 = b.drop_last();
        assert(!b0.contains(sep)) by {
            assert forall|j: int| 0 <= j < b0.len() implies b0[j] != sep by {
                assert(b0[j] == b[j]);
            }
        }
        lemma_split_extend(x, b0, sep);
        assert((x + b).drop_last() =~= x + b0);
        assert((x + b).last() == b.last());
        assert(b.last() != sep) by {
            assert(b[b.len() - 1] == b.last());
        }
        lemma_split_len(x + b0, sep);
        assert(split_on(x, sep).last() + b =~= (split_on(x, sep).last() + b0).push(b.last()));
        assert(split_on(x + b, sep) =~= split_on(x, sep).update(
            split_on(x, sep).len() - 1,
            split_on(x, sep).last() + b,
        ));
    }
}

proof fn lemma_split_len(s: Seq<char>, sep: char)
    ensures
        split_on(s, sep).len() >= 1,
    decreases s.len(),
{
    if s.len() > 0 {
        lemma_split_len(s.drop_last(), sep);
    }
}

/// Splitting on a separator undoes joining with it, when no piece holds it.
pub proof fn lemma_split_join(pieces: Seq<Seq<char>>, sep: char)
    requires
        pieces.len() >= 1,
        forall|i: int| 0 <= i < pieces.len() ==> !(#[trigger] pieces[i]).contains(sep),
    ensures
        split_on(join_on(pieces, sep), sep) == pieces,
    decreases pieces.len(),
{
    if pieces.len() == 1 {
        lemma_split_extend(Seq::empty(), pieces[0], sep);
        assert(Seq::<char>::empty() + pieces[0] =~= pieces[0]);
        assert(split_on(pieces[0], sep) =~= pieces);
    } else {
        let front = pieces.drop_last();
        assert forall|i: int| 0 <= i < front.len() implies !(#[trigger] front[i]).contains(sep) by {
            assert(front[i] == pieces[i]);
        }
        lemma_split_join(front, sep);
        let x = join_on(front, sep) + seq![sep];
        assert(x.drop_last() =~= join_on(front, sep));
        assert(split_on(x, sep) == front.push(Seq::<char>::empty()));
        assert(!pieces.last().contains(sep)) by {
            assert(pieces[pieces.len() - 1] == pieces.last());
        }
        lemma_split_extend(x, pieces.last(), sep);
        assert(Seq::<char>::empty() + pieces.last() =~= pieces.last());
        assert(front.push(Seq::<char>::empty()).update(front.len() as int, pieces.last()) =~= pieces);
    }
}

proof fn lemma_row_text(row: Seq<Cell>, columns: nat, i: int)
    requires
        row.len() == columns,
        1 <= i <= columns,
    ensures
        row_text(row.take(i), columns) == join_on(cell_texts(row.take(i)), ',') + if i < columns {
            seq![',']
        } else {
            Seq::empty()
        },
    decreases i,
{
    let t = row.take(i);
    assert(t.drop_last() =~= row.take(i - 1));
    reveal_strlit(",");
    if i == 1 {
        assert(row.take(0) =~= Seq::<Cell>::empty());
        assert(cell_texts(t) =~= seq![cell_text(row[0])]);
        assert(","@ =~= seq![',']);
        assert(t.last() == row[0]);
        assert(row_text(t.drop_last(), columns) == Seq::<char>::empty());
        assert(row_text(t, columns) =~= join_on(cell_texts(t), ',') + if i < columns {
            seq![',']
        } else {
            Seq::empty()
        });
    } else {
        lemma_row_text(row, columns, i - 1);
        assert(cell_texts(t).drop_last() =~= cell_texts(row.take(i - 1)));
        assert(cell_texts(t).last() == cell_text(t.last()));
        assert(","@ =~= seq![',']);
        let jp = join_on(cell_texts(row.take(i - 1)), ',');
        assert(t.len() == i && cell_texts(t).len() == i);
        assert(row_text(t.drop_last(), columns) == jp + seq![',']);
        assert(row_text(t, columns) == row_text(t.drop_last(), columns) + cell_text(t.last()) + if i < columns {
            seq![',']
        } else {
            Seq::empty()
        });
        assert(join_on(cell_texts(t), ',') == jp + seq![','] + cell_text(t.last()));
        assert(row_text(t, columns) =~= join_on(cell_texts(t), ',') + if i < columns {
            seq![',']
        } else {
            Seq::empty()
        });
    }
}

/// The line of a row as a reader sees it before its LF: the fields and CR.
pub open spec fn line_piece(row: Seq<Cell>) -> Seq<char> {
    join_on(cell_texts(row), ',') + seq!['\r']
}

proof fn lemma_range_pieces(rows: Seq<Seq<Cell>>, columns: nat)
    requires
        columns >= 1,
        forall|k: int| 0 <= k < rows.len() ==> (#[trigger] rows[k]).len() == columns,
    ensures
        range_text(rows, columns) == join_on(
            rows.map_values(|r: Seq<Cell>| line_piece(r)).push(Seq::empty()),
            '\n',
        ),
    decreases rows.len(),
{
    reveal_strlit("\r\n");
    let pieces = rows.map_values(|r: Seq<Cell>| line_piece(r)).push(Seq::empty());
    if rows.len() == 0 {
        assert(pieces =~= seq![Seq::<char>::empty()]);
    } else {
        let front = rows.drop_last();
        lemma_range_pieces(front, columns);
        let fp = front.map_values(|r: Seq<Cell>| line_piece(r)).push(Seq::empty());
        let last = rows.last();
        assert(last == rows[rows.len() - 1]);
        lemma_row_text(last, columns, columns as int);
        assert(last.take(columns as int) =~= last);
        assert("\r\n"@ =~= seq!['\r', '\n']);
        let lp = line_piece(last);
        assert(pieces.drop_last() =~= fp.drop_last().push(lp));
        assert(pieces.drop_last().drop_last() =~= fp.drop_last());
        assert(row_text(last, columns) == join_on(cell_texts(last), ','));
        assert(range_text(rows, columns) == range_text(front, columns) + join_on(cell_texts(last), ',')
            + seq!['\r', '\n']);
        assert(join_on(pieces, '\n') == join_on(pieces.drop_last(), '\n') + seq!['\n'] + Seq::<char>::empty());
        if front.len() == 0 {
            assert(pieces.drop_last() =~= seq![lp]);
            assert(join_on(pieces.drop_last(), '\n') == lp);
            assert(range_text(front, columns) == Seq::<char>::empty());
            assert(range_text(rows, columns) =~= join_on(pieces, '\n'));
        } else {
            assert(fp.len() >= 2);
            assert(join_on(fp, '\n') == join_on(fp.drop_last(), '\n') + seq!['\n'] + Seq::<char>::empty());
            assert(pieces.drop_last().len() >= 2);
            assert(join_on(pieces.drop_last(), '\n') == join_on(fp.drop_last(), '\n') + seq!['\n'] + lp);
            assert(range_text(rows, columns) =~= join_on(pieces, '\n'));
        }
    }
}

/// Reading back the CSV text of a range gives as many rows as the range has,
/// each with its cells' texts in column order, when every row has all the
/// columns and no cell's text holds a comma, CR or LF.
pub proof fn lemma_read_back(rows: Seq<Seq<Cell>>, columns: nat)
    requires
        columns >= 1,
        forall|k: int| 0 <= k < rows.len() ==> (#[trigger] rows[k]).len() == columns,
        plain_cells(rows),
    ensures
        read_csv(range_text(rows, columns)).len() == rows.len(),
        forall|k: int| 0 <= k < rows.len() ==> #[trigger] read_csv(range_text(rows, columns))[k]
            == cell_texts(rows[k]),
{
    let pieces = rows.map_values(|r: Seq<Cell>| line_piece(r)).push(Seq::empty());
    lemma_range_pieces(rows, columns);
    assert forall|i: int| 0 <= i < pieces.len() implies !(#[trigger] pieces[i]).contains('\n') by {
        if i < rows.len() {
            let f = cell_texts(rows[i]);
            lemma_join_free(f, ',', '\n');
            assert(pieces[i] == join_on(f, ',') + seq!['\r']);
            assert forall|j: int| 0 <= j < pieces[i].len() implies pieces[i][j] != '\n' by {
                if j < join_on(f, ',').len() {
                    assert(pieces[i][j] == join_on(f, ',')[j]);
                }
            }
        }
    }
    lemma_split_join(pieces, '\n');
    assert forall|k: int| 0 <= k < rows.len() implies #[trigger] read_csv(range_text(rows, columns))[k]
        == cell_texts(rows[k]) by {
        let f = cell_texts(rows[k]);
        assert(pieces[k].drop_last() =~= join_on(f, ','));
        assert forall|i: int| 0 <= i < f.len() implies !(#[trigger] f[i]).contains(',') by {
            assert(f[i] == cell_text(rows[k][i]));
        }
        lemma_split_join(f, ',');
    }
}

proof fn lemma_join_free(f: Seq<Seq<char>>, sep: char, c: char)
    requires
        sep != c,
        forall|i: int| 0 <= i < f.len() ==> !(#[trigger] f[i]).contains(c),
    ensures
        !join_on(f, sep).contains(c),
    decreases f.len(),
{
    if f.len() > 1 {
        let front = f.drop_last();
        assert forall|i: int| 0 <= i < front.len() implies !(#[trigger] front[i]).contains(c) by {
            assert(front[i] == f[i]);
        }
        lemma_join_free(front, sep, c);
        let a = join_on(front, sep);
        let l = f.last();
        assert(!l.contains(c)) by {
            assert(f[f.len() - 1] == l);
        }
        let j = join_on(f, sep);
        assert(j =~= a + seq![sep] + l);
        assert forall|k: int| 0 <= k < j.len() implies j[k] != c by {
            if k < a.len() {
                assert(j[k] == a[k]);
            } else if k > a.len() {
                assert(j[k] == l[k - a.len() - 1]);
            }
        }
    } else if f.len() == 1 {
        assert(!f[0].contains(c));
    }
}

} // verus!
