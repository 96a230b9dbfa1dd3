use vstd::prelude::*;
use vstd::string::StringSliceAdditionalSpecFns;

verus! {

/// A line without the carriage return that ended it, if any.
pub open spec fn without_cr(line: Seq<u8>) -> Seq<u8> {
    if line.len() > 0 && line.last() == 13u8 {
        line.drop_last()
    } else {
        line
    }
}

/// Splitting of `b[i..]` into lines, `done` holding the lines already ended
/// and `cur` the one being read. A line ends at a line feed, and loses a
/// carriage return just before it; a last line with no line feed counts only
/// when it is not empty.
pub open spec fn split_rest(b: Seq<u8>, i: int, done: Seq<Seq<u8>>, cur: Seq<u8>) -> Seq<Seq<u8>>
    decreases b.len() - i,
{
    if i >= b.len() {
        if cur.len() == 0 {
            done
        } else {
            done.push(cur)
        }
    } else if b[i] == 10u8 {
        split_rest(b, i + 1, done.push(without_cr(cur)), Seq::empty())
    } else {
        split_rest(b, i + 1, done, cur.push(b[i]))
    }
}

/// The lines of a program text.
pub open spec fn lines_of(b: Seq<u8>) -> Seq<Seq<u8>> {
    split_rest(b, 0, Seq::empty(), Seq::empty())
}

/// Length of the longest of the first `k` lines.
pub open spec fn longest(lines: Seq<Seq<u8>>, k: int) -> nat
    decreases k,
{
    if k <= 0 {
        0
    } else {
        let w = longest(lines, k - 1);
        if lines[k - 1].len() > w {
            lines[k - 1].len()
        } else {
            w
        }
    }
}

/// A line right-padded with spaces to `width`.
pub open spec fn padded(line: Seq<u8>, width: nat) -> Seq<u8> {
    line + Seq::new((width - line.len()) as nat, |j: int| 32u8)
}

/// The grid of a program text: one row per line, each padded with spaces to
/// the longest line's length.
pub open spec fn grid_of(b: Seq<u8>) -> Seq<Seq<u8>> {
    let lines = lines_of(b);
    Seq::new(lines.len(), |i: int| padded(lines[i], longest(lines, lines.len() as int)))
}

proof fn lemma_longest_bound(lines: Seq<Seq<u8>>, k: int)
    requires
        0 <= k <= lines.len(),
    ensures
        forall|i: int| 0 <= i < k ==> lines[i].len() <= longest(lines, k),
    decreases k,
{
    if k > 0 {
        lemma_longest_bound(lines, k - 1);
    }
}

/// Every row of a program's grid is as long as its longest line.
pub proof fn lemma_grid_rectangular(b: Seq<u8>)
    ensures
        forall|i: int|
            0 <= i < grid_of(b).len() ==> #[trigger] grid_of(b)[i].len() == longest(
                lines_of(b),
                lines_of(b).len() as int,
            ),
{
    lemma_longest_bound(lines_of(b), lines_of(b).len() as int);
}

/// Splits a text into its lines.
fn split_lines(b: &[u8]) -> (r: Vec<Vec<u8>>)
    ensures
        r@.map_values(|l: Vec<u8>| l@) == lines_of(b@),
{
    let mut done: Vec<Vec<u8>> = Vec::new();
    let mut cur: Vec<u8> = Vec::new();
    let mut i: usize = 0;
    proof {
        assert(done@.map_values(|l: Vec<u8>| l@) =~= Seq::<Seq<u8>>::empty());
    }
    while i < b.len()
        invariant
            i <= b@.len(),
            split_rest(b@, i as int, done@.map_values(|l: Vec<u8>| l@), cur@) == lines_of(b@),
        decreases b@.len() - i,
    {
        if b[i] == 10u8 {
            if cur.len() > 0 && cur[cur.len() - 1] == 13u8 {
                cur.pop();
            }
            proof {
                assert(done@.push(cur).map_values(|l: Vec<u8>| l@) =~= done@.map_values(
                    |l: Vec<u8>| l@,
                ).push(cur@));
            }
            done.push(cur);
            cur = Vec::new();
        } else {
            cur.push(b[i]);
        }
        i = i + 1;
    }
    if cur.len() > 0 {
        proof {
            assert(done@.push(cur).map_values(|l: Vec<u8>| l@) =~= done@.map_values(
                |l: Vec<u8>| l@,
            ).push(cur@));
        }
        done.push(cur);
    }
    done
}

/// The program text laid out as a rectangle of bytes, and its width.
pub fn build_grid(script: &str) -> (r: (Vec<Vec<u8>>, usize))
    ensures
        r.0@.map_values(|row: Vec<u8>| row@) == grid_of(script.spec_bytes()),
        r.1 == longest(lines_of(script.spec_bytes()), lines_of(script.spec_bytes()).len() as int),
{
    let b = script.as_bytes();
    let lines = split_lines(b);
    let ghost ls = lines_of(b@);
    let mut width: usize = 0;
    let mut k: usize = 0;
    while k < lines.len()
        invariant
            lines@.map_values(|l: Vec<u8>| l@) == ls,
            k <= lines@.len(),
            width == longest(ls, k as int),
        decreases lines@.len() - k,
    {
        if lines[k].len() > width {
            width = lines[k].len();
        }
        k = k + 1;
    }
    proof {
        lemma_longest_bound(ls, ls.len() as int);
    }
    let mut rows: Vec<Vec<u8>> = Vec::new();
    let mut i: usize = 0;
    while i < lines.len()
        invariant
            lines@.map_values(|l: Vec<u8>| l@) == ls,
            i <= lines@.len(),
            width == longest(ls, ls.len() as int),
            forall|j: int| 0 <= j < ls.len() ==> ls[j].len() <= width,
            rows@.len() == i,
            forall|j: int| 0 <= j < i ==> rows@[j]@ == padded(ls[j], width as nat),
        decreases lines@.len() - i,
    {
        let mut row: Vec<u8> = lines[i].clone();
        let ghost line = ls[i as int];
        assert(row@ == line);
        while row.len() < width
            invariant
                line.len() <= row@.len() <= width,
                row@ == line + Seq::new((row@.len() - line.len()) as nat, |j: int| 32u8),
            decreases width - row@.len(),
        {
            row.push(32u8);
            proof {
                assert(row@ =~= line + Seq::new((row@.len() - line.len()) as nat, |j: int| 32u8));
            }
        }
        rows.push(row);
        i = i + 1;
    }
    proof {
        assert(rows@.map_values(|row: Vec<u8>| row@) =~= grid_of(b@));
    }
    (rows, width)
}

} // verus!
