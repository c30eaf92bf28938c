use crate::profile::KnobTable;
use vstd::prelude::*;

verus! {

pub open spec fn is_ws(c: char) -> bool {
    c == ' ' || c == '\t' || c == '\n' || c == '\r'
}

pub open spec fn trim_start(s: Seq<char>) -> Seq<char>
    decreases s.len(),
{
    if s.len() > 0 && is_ws(s[0]) {
        trim_start(s.drop_first())
    } else {
        s
    }
}

pub open spec fn trim_end(s: Seq<char>) -> Seq<char>
    decreases s.len(),
{
    if s.len() > 0 && is_ws(s.last()) {
        trim_end(s.drop_last())
    } else {
        s
    }
}

/// `s` without the white space at either end.
pub open spec fn trim(s: Seq<char>) -> Seq<char> {
    trim_end(trim_start(s))
}

/// The fields finished within the first `n` characters of `s`, and the
/// field still open after them.
pub open spec fn split_prefix(s: Seq<char>, sep: char, n: int) -> (Seq<Seq<char>>, Seq<char>)
    decreases n,
{
    if n <= 0 {
        (Seq::empty(), Seq::empty())
    } else {
        let (done, open) = split_prefix(s, sep, n - 1);
        if s[n - 1] == sep {
            (done.push(open), Seq::empty())
        } else {
            (done, open.push(s[n - 1]))
        }
    }
}

/// The fields of `s` between occurrences of `sep` (one field more than
/// there are separators).
pub open spec fn split(s: Seq<char>, sep: char) -> Seq<Seq<char>> {
    let (done, open) = split_prefix(s, sep, s.len() as int);
    done.push(open)
}

/// The value of a string of decimal digits.
pub open spec fn digits_value(s: Seq<char>) -> int
    decreases s.len(),
{
    if s.len() == 0 {
        0
    } else {
        digits_value(s.drop_last()) * 10 + (s.last() as int - '0' as int)
    }
}

pub open spec fn all_digits(s: Seq<char>) -> bool {
    forall|i: int| 0 <= i < s.len() ==> '0' <= #[trigger] s[i] <= '9'
}

/// The digits of a number, after an optional `+`.
pub open spec fn unsigned_digits(s: Seq<char>) -> Seq<char> {
    if s.len() > 0 && s[0] == '+' {
        s.drop_first()
    } else {
        s
    }
}

/// The unsigned 64-bit number that `s` writes in decimal, if any.
pub open spec fn parse_u64(s: Seq<char>) -> Option<u64> {
    let d = unsigned_digits(s);
    if d.len() > 0 && all_digits(d) && digits_value(d) <= u64::MAX {
        Some(digits_value(d) as u64)
    } else {
        None
    }
}

/// The lines of a table's text, once the text is trimmed.
pub open spec fn table_lines(s: Seq<char>) -> Seq<Seq<char>> {
    split(trim(s), '\n')
}

/// The cells of line `k` of a table's text.
pub open spec fn line_cells(s: Seq<char>, k: int) -> Seq<Seq<char>> {
    split(trim(table_lines(s)[k]), ',')
}

/// The cells are `width` unsigned numbers.
pub open spec fn cells_ok(cells: Seq<Seq<char>>, width: nat) -> bool {
    &&& cells.len() == width
    &&& forall|c: int| 0 <= c < cells.len() ==> parse_u64(#[trigger] cells[c]).is_some()
}

pub open spec fn cells_values(cells: Seq<Seq<char>>) -> Seq<u64> {
    cells.map_values(|cell: Seq<char>| parse_u64(cell).unwrap())
}

/// Data line `k` has one number per header cell.
pub open spec fn row_ok(s: Seq<char>, k: int) -> bool {
    cells_ok(line_cells(s, k), line_cells(s, 0).len())
}

pub open spec fn row_values(s: Seq<char>, k: int) -> Seq<u64> {
    cells_values(line_cells(s, k))
}

/// Why the text of a knob table was refused.
#[derive(Clone, Copy, Debug, PartialEq, Eq, Structural)]
pub enum TableError {
    /// Nothing but white space.
    Empty,
    /// This line (the header is line 0) holds a cell that is no unsigned
    /// number, or not one cell per header cell.
    BadRow(usize),
}

/// Relies on `str::chars`: the characters of the string, in order.
#[verifier::external_body]
pub(crate) fn chars_of(s: &str) -> (r: Vec<char>)
    ensures
        r@ == s@,
{
    s.chars().collect()
}

/// Relies on `String`'s `FromIterator<char>`: the string of these characters.
#[verifier::external_body]
fn string_of(cs: &Vec<char>) -> (r: String)
    ensures
        r@ == cs@,
{
    cs.iter().collect()
}

fn is_ws_char(c: char) -> (r: bool)
    ensures
        r == is_ws(c),
{
    c == ' ' || c == '\t' || c == '\n' || c == '\r'
}

fn trim_chars(s: &Vec<char>) -> (r: Vec<char>)
    ensures
        r@ == trim(s@),
{
    let n = s.len();
    let mut start: usize = 0;
    assert(s@.subrange(0, n as int) =~= s@);
    while start < n && is_ws_char(s[start])
        invariant
            n == s@.len(),
            start <= n,
            trim_start(s@) == trim_start(s@.subrange(start as int, n as int)),
        decreases n - start,
    {
        assert(s@.subrange(start as int, n as int).drop_first() =~= s@.subrange(start + 1, n as int));
        start = start + 1;
    }
    let ghost ts = s@.subrange(start as int, n as int);
    assert(trim_start(s@) == ts);
    let mut end: usize = n;
    while end > start && is_ws_char(s[end - 1])
        invariant
            n == s@.len(),
            start <= end <= n,
            ts == s@.subrange(start as int, n as int),
            trim_end(ts) == trim_end(s@.subrange(start as int, end as int)),
        decreases end - start,
    {
        assert(s@.subrange(start as int, end as int).drop_last() =~= s@.subrange(start as int, end - 1));
        end = end - 1;
    }
    let mut r: Vec<char> = Vec::new();
    let mut i: usize = start;
    while i < end
        invariant
            start <= i <= end <= n,
            n == s@.len(),
            r@ == s@.subrange(start as int, i as int),
        decreases end - i,
    {
        r.push(s[i]);
        i = i + 1;
        assert(r@ =~= s@.subrange(start as int, i as int));
    }
    r
}

pub(crate) fn split_chars(s: &Vec<char>, sep: char) -> (r: Vec<Vec<char>>)
    ensures
        r.deep_view() == split(s@, sep),
        r@.len() >= 1,
{
    let mut done: Vec<Vec<char>> = Vec::new();
    let mut open: Vec<char> = Vec::new();
    let mut i: usize = 0;
    while i < s.len()
        invariant
            i <= s@.len(),
            split_prefix(s@, sep, i as int) == (done.deep_view(), open@),
        decreases s@.len() - i,
    {
        let c = s[i];
        if c == sep {
            let ghost before = done.deep_view();
            let field = open;
            open = Vec::new();
            assert(field.deep_view() =~= field@);
            done.push(field);
            assert(done.deep_view() =~= before.push(field@));
        } else {
            open.push(c);
        }
        i = i + 1;
    }
    let ghost before = done.deep_view();
    assert(open.deep_view() =~= open@);
    let last = open;
    done.push(last);
    assert(done.deep_view() =~= before.push(last@));
    done
}

proof fn lemma_digits_grow(s: Seq<char>, i: int, j: int)
    requires
        0 <= i <= j <= s.len(),
        all_digits(s),
    ensures
        digits_value(s.take(i)) <= digits_value(s.take(j)),
        digits_value(s.take(j)) >= 0,
    decreases j - i,
{
    lemma_digits_nonneg(s.take(j));
    if i < j {
        lemma_digits_grow(s, i, j - 1);
        assert(s.take(j).drop_last() =~= s.take(j - 1));
        lemma_digits_nonneg(s.take(j - 1));
    }
}

proof fn lemma_digits_nonneg(s: Seq<char>)
    requires
        all_digits(s),
    ensures
        digits_value(s) >= 0,
    decreases s.len(),
{
    if s.len() > 0 {
        lemma_digits_nonneg(s.drop_last());
    }
}

/// The unsigned number that the characters write in decimal, after an
/// optional `+`.
pub fn parse_cell(cell: &Vec<char>) -> (r: Option<u64>)
    ensures
        r == parse_u64(cell@),
{
    let mut i: usize = 0;
    if cell.len() > 0 && cell[0] == '+' {
        i = 1;
    }
    let ghost d = unsigned_digits(cell@);
    assert(d =~= cell@.subrange(i as int, cell@.len() as int));
    if i >= cell.len() {
        return None;
    }
    let mut acc: u64 = 0;
    let mut k: usize = i;
    while k < cell.len()
        invariant
            i <= k <= cell@.len(),
            i < cell@.len(),
            d == unsigned_digits(cell@),
            d =~= cell@.subrange(i as int, cell@.len() as int),
            all_digits(d.take(k - i)),
            acc as int == digits_value(d.take(k - i)),
        decreases cell@.len() - k,
    {
        let c = cell[k];
        assert(d.take(k - i + 1).drop_last() =~= d.take(k - i));
        if c < '0' || c > '9' {
            assert(d[k - i] == c);
            assert(!('0' <= d[k - i] <= '9'));
            assert(!all_digits(d));
            return None;
        }
        let digit = (c as u32 - '0' as u32) as u64;
        if acc > (u64::MAX - digit) / 10 {
            proof {
                assert(acc as int * 10 + digit as int > u64::MAX) by (nonlinear_arith)
                    requires acc > (u64::MAX - digit) / 10, digit <= 9;
                if all_digits(d) {
                    assert(d.take(k - i + 1).last() == c);
                    assert(digits_value(d.take(k - i + 1)) == acc as int * 10 + digit as int);
                    assert(d.take(d.len() as int) =~= d);
                    lemma_digits_grow(d, k - i + 1, d.len() as int);
                }
            }
            return None;
        }
        assert(acc as int * 10 + digit as int <= u64::MAX) by (nonlinear_arith)
            requires acc <= (u64::MAX - digit) / 10, digit <= 9;
        acc = acc * 10 + digit;
        k = k + 1;
        assert(all_digits(d.take(k - i)));
    }
    assert(d.take(k - i) =~= d);
    Some(acc)
}

/// The numbers of a line, once trimmed, if it holds `width` of them.
fn parse_line(line: &Vec<char>, width: usize) -> (r: Option<Vec<u64>>)
    ensures
        match r {
            Some(v) => cells_ok(split(trim(line@), ','), width as nat) && v@ == cells_values(split(trim(line@), ',')),
            None => !cells_ok(split(trim(line@), ','), width as nat),
        },
{
    let trimmed = trim_chars(line);
    let cells = split_chars(&trimmed, ',');
    let ghost lc = split(trim(line@), ',');
    assert(cells.deep_view() == lc);
    if cells.len() != width {
        return None;
    }
    let mut row: Vec<u64> = Vec::new();
    let mut c: usize = 0;
    while c < cells.len()
        invariant
            c <= cells@.len(),
            cells.deep_view() == lc,
            lc == split(trim(line@), ','),
            width == cells@.len(),
            row@.len() == c,
            forall|q: int| 0 <= q < c ==> parse_u64(#[trigger] lc[q]) == Some(row@[q]),
        decreases cells@.len() - c,
    {
        assert(cells@[c as int]@ == lc[c as int]);
        match parse_cell(&cells[c]) {
            Some(v) => row.push(v),
            None => {
                assert(parse_u64(lc[c as int]).is_none());
                assert(!cells_ok(lc, width as nat));
                return None;
            },
        }
        c = c + 1;
    }
    assert(row@ =~= cells_values(lc));
    Some(row)
}

impl KnobTable {
    /// Reads a knob table from its text: a header line of column names and
    /// one line of unsigned numbers per configuration, cells separated by
    /// commas, lines by line breaks; white space at either end of the text
    /// and of each line is ignored.
    pub fn new(content: &str) -> (r: Result<KnobTable, TableError>)
        ensures
            trim(content@).len() == 0 ==> r == Err::<KnobTable, TableError>(TableError::Empty),
            trim(content@).len() > 0 ==> match r {
                Ok(t) => t.wf()
                    && t.names.deep_view() == line_cells(content@, 0)
                    && t.configurations@.len() + 1 == table_lines(content@).len()
                    && forall|k: int| 1 <= k < table_lines(content@).len() ==> #[trigger] row_ok(content@, k)
                        && t.configurations@[k - 1]@ == row_values(content@, k),
                Err(TableError::Empty) => false,
                Err(TableError::BadRow(k)) => 1 <= k < table_lines(content@).len()
                    && !row_ok(content@, k as int)
                    && forall|j: int| 1 <= j < k ==> #[trigger] row_ok(content@, j),
            },
    {
        let cs = chars_of(content);
        let text = trim_chars(&cs);
        if text.len() == 0 {
            return Err(TableError::Empty);
        }
        let lines = split_chars(&text, '\n');
        let ghost sl = table_lines(content@);
        assert(lines.deep_view() == sl);
        assert(lines@[0]@ == sl[0]);
        let header_line = trim_chars(&lines[0]);
        let header = split_chars(&header_line, ',');
        let ghost hc = line_cells(content@, 0);
        let mut names: Vec<String> = Vec::new();
        let mut h: usize = 0;
        while h < header.len()
            invariant
                h <= header@.len(),
                header.deep_view() == hc,
                names.deep_view() == hc.take(h as int),
            decreases header@.len() - h,
        {
            let ghost before = names.deep_view();
            assert(header@[h as int]@ == hc[h as int]);
            let name = string_of(&header[h]);
            names.push(name);
            assert(names.deep_view() =~= before.push(hc[h as int]));
            h = h + 1;
            assert(names.deep_view() =~= hc.take(h as int));
        }
        assert(hc.take(h as int) =~= hc);
        let mut configurations: Vec<Vec<u64>> = Vec::new();
        let mut k: usize = 1;
        while k < lines.len()
            invariant
                1 <= k <= lines@.len(),
                trim(content@).len() > 0,
                lines.deep_view() == sl,
                sl == table_lines(content@),
                header.deep_view() == hc,
                hc == line_cells(content@, 0),
                names.deep_view() == hc,
                configurations@.len() + 1 == k,
                forall|j: int| 1 <= j < k ==> #[trigger] row_ok(content@, j)
                    && configurations@[j - 1]@ == row_values(content@, j),
            decreases lines@.len() - k,
        {
            assert(lines@[k as int]@ == sl[k as int]);
            assert(line_cells(content@, k as int) == split(trim(lines@[k as int]@), ','));
            assert(hc.len() == header@.len());
            let row = match parse_line(&lines[k], header.len()) {
                Some(row) => row,
                None => {
                    assert(!row_ok(content@, k as int));
                    return Err(TableError::BadRow(k));
                },
            };
            assert(row_ok(content@, k as int));
            assert(row@ == row_values(content@, k as int));
            let ghost prev = configurations@;
            configurations.push(row);
            assert forall|j: int| 1 <= j < k + 1 implies #[trigger] row_ok(content@, j)
                && configurations@[j - 1]@ == row_values(content@, j) by {
                if j < k {
                    assert(configurations@[j - 1] == prev[j - 1]);
                }
            }
            k = k + 1;
        }
        let t = KnobTable { names, configurations };
        proof {
            assert forall|i: int| 0 <= i < t.configurations@.len() implies #[trigger] t.configurations@[i]@.len() == t.names@.len() by {
                assert(row_ok(content@, i + 1));
                assert(t.names@.len() == hc.len());
            }
        }
        Ok(t)
    }
}

} // verus!
