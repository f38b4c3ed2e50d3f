//! Segment files: their names, and the counter that hands out the next one.
//!
//! A segment is named after its id, zero padded to nine digits, with a `.ts`
//! extension. On start the counter resumes after the largest id already in
//! the output directory, so a restart never reuses a name.

use vstd::prelude::*;

use crate::decimal::{
    all_digits, digit_value, digits_value, is_digit, lemma_decimal_len_bound, lemma_digits_value_bound,
    lemma_digits_value_concat, lemma_padded_decimal, padded_decimal, parse_u64, parse_u64_spec,
    pow10, push_padded_decimal, unsigned_body,
};

verus! {

/// Number of digits a segment id is padded to.
pub const SEGMENT_ID_WIDTH: usize = 9;

/// The extension of a segment file.
pub open spec fn ts_extension() -> Seq<char> {
    seq!['.', 't', 's']
}

/// The file name of segment `id`.
pub open spec fn segment_name_spec(id: nat) -> Seq<char> {
    padded_decimal(id, SEGMENT_ID_WIDTH as nat) + ts_extension()
}

/// The id that a file name carries: the name less a `.ts` extension, read as
/// `str::parse::<u64>` reads it.
pub open spec fn segment_id_of(name: Seq<char>) -> Option<u64> {
    if name.len() >= 3 && name.subrange(name.len() - 3, name.len() as int) == ts_extension() {
        parse_u64_spec(name.subrange(0, name.len() - 3))
    } else {
        None
    }
}

/// The id a file name carries, 0 when it carries none.
pub open spec fn id_or_zero(name: Seq<char>) -> nat {
    match segment_id_of(name) {
        Some(id) => id as nat,
        None => 0,
    }
}

/// The largest id carried by any of `names`, 0 when none carries one.
pub open spec fn max_segment_id(names: Seq<Seq<char>>) -> nat
    decreases names.len(),
{
    if names.len() == 0 {
        0
    } else {
        let rest = max_segment_id(names.drop_last());
        let last = id_or_zero(names.last());
        if last > rest {
            last
        } else {
            rest
        }
    }
}

/// `name` inside directory `dir`, joined as `Path::join` joins a relative name.
pub open spec fn join_path(dir: Seq<char>, name: Seq<char>) -> Seq<char> {
    if dir.len() == 0 {
        name
    } else if dir.last() == '/' {
        dir + name
    } else {
        dir + seq!['/'] + name
    }
}

/// Whether `x` sorts before `y`, as `str`'s `<` orders them.
pub open spec fn lex_less(x: Seq<char>, y: Seq<char>) -> bool
    decreases x.len(),
{
    if x.len() == 0 {
        y.len() > 0
    } else if y.len() == 0 {
        false
    } else if x[0] != y[0] {
        (x[0] as int) < (y[0] as int)
    } else {
        lex_less(x.drop_first(), y.drop_first())
    }
}

/// The file name of segment `id`: nine or more digits and `.ts`.
pub fn segment_name(id: u64) -> (r: String)
    ensures
        r@ == segment_name_spec(id as nat),
{
    let mut s = String::new();
    push_padded_decimal(&mut s, id, SEGMENT_ID_WIDTH);
    proof {
        reveal_strlit(".ts");
    }
    s.append(".ts");
    s
}

/// The segment id a file name carries, if it is a `.ts` file whose stem
/// parses as an unsigned integer.
pub fn parse_segment_id(name: &str) -> (r: Option<u64>)
    ensures
        r == segment_id_of(name@),
{
    let n = name.unicode_len();
    if n < 3 {
        return None;
    }
    let dot = name.get_char(n - 3);
    let t = name.get_char(n - 2);
    let s = name.get_char(n - 1);
    if !(dot == '.' && t == 't' && s == 's') {
        assert(name@.subrange(n - 3, n as int)[0] == dot);
        assert(name@.subrange(n - 3, n as int)[1] == t);
        assert(name@.subrange(n - 3, n as int)[2] == s);
        return None;
    }
    assert(name@.subrange(n - 3, n as int) =~= ts_extension());
    let stem = name.substring_char(0, n - 3);
    parse_u64(stem)
}

/// Hands out segment file paths in a directory, one id after another.
pub struct FileChunkWriterFactory {
    directory: String,
    seq_num: u64,
}

impl FileChunkWriterFactory {
    /// The directory the segments are written to.
    pub closed spec fn directory_spec(&self) -> Seq<char> {
        self.directory@
    }

    /// The id of the segment handed out last (0 before the first).
    pub closed spec fn seq_num_spec(&self) -> nat {
        self.seq_num as nat
    }

    /// A counter for `directory` that has handed out no id yet.
    pub fn new(directory: &str) -> (r: FileChunkWriterFactory)
        ensures
            r.directory_spec() == directory@,
            r.seq_num_spec() == 0,
    {
        FileChunkWriterFactory { directory: directory.to_owned(), seq_num: 0 }
    }

    /// Resumes after the largest segment id among `file_names`, the names of
    /// the regular files in the directory (0 when none is a segment).
    pub fn init(&mut self, file_names: &Vec<String>)
        ensures
            final(self).directory_spec() == old(self).directory_spec(),
            final(self).seq_num_spec() == max_segment_id(file_names@.map_values(|s: String| s@)),
    {
        let ghost names = file_names@.map_values(|s: String| s@);
        let mut max: u64 = 0;
        let mut i: usize = 0;
        while i < file_names.len()
            invariant
                i <= file_names@.len(),
                names == file_names@.map_values(|s: String| s@),
                max == max_segment_id(names.subrange(0, i as int)),
            decreases file_names@.len() - i,
        {
            let id = parse_segment_id(file_names[i].as_str());
            proof {
                let prefix = names.subrange(0, i + 1);
                assert(prefix.drop_last() =~= names.subrange(0, i as int));
                assert(prefix.last() == file_names@[i as int]@);
            }
            match id {
                Some(v) => {
                    if v > max {
                        max = v;
                    }
                },
                None => {},
            }
            i = i + 1;
        }
        assert(names.subrange(0, file_names@.len() as int) =~= names);
        self.seq_num = max;
    }

    /// The id of the segment handed out last.
    pub fn seq_num(&self) -> (r: u64)
        ensures
            r == self.seq_num_spec(),
    {
        self.seq_num
    }

    /// The directory the segments are written to.
    pub fn directory(&self) -> (r: &str)
        ensures
            r@ == self.directory_spec(),
    {
        self.directory.as_str()
    }

    /// Takes the next id and returns the path of its segment file.
    pub fn next(&mut self) -> (r: String)
        requires
            old(self).seq_num_spec() < u64::MAX,
        ensures
            final(self).directory_spec() == old(self).directory_spec(),
            final(self).seq_num_spec() == old(self).seq_num_spec() + 1,
            r@ == join_path(old(self).directory_spec(), segment_name_spec(final(self).seq_num_spec())),
    {
        self.seq_num = self.seq_num + 1;
        let name = segment_name(self.seq_num);
        let n = self.directory.as_str().unicode_len();
        if n == 0 {
            return name;
        }
        let mut path = self.directory.clone();
        proof {
            assert(path@ == self.directory@);
        }
        if self.directory.as_str().get_char(n - 1) != '/' {
            proof {
                reveal_strlit("/");
            }
            path.append("/");
        }
        path.append(name.as_str());
        assert(path@ =~= join_path(self.directory@, name@));
        path
    }
}

/// A segment's name reads back as its id.
pub proof fn lemma_segment_name_round_trip(id: u64)
    ensures
        segment_id_of(segment_name_spec(id as nat)) == Some(id),
{
    let p = padded_decimal(id as nat, SEGMENT_ID_WIDTH as nat);
    let name = segment_name_spec(id as nat);
    lemma_padded_decimal(id as nat, SEGMENT_ID_WIDTH as nat);
    assert(name.subrange(name.len() - 3, name.len() as int) =~= ts_extension());
    assert(name.subrange(0, name.len() - 3) =~= p);
    assert(is_digit(p[0]));
    assert(unsigned_body(p) == p);
}

/// Restarting in a directory that holds the segments `1` to `k` resumes at
/// `k`, so the next segment handed out is `k + 1`.
pub proof fn lemma_restart_continuation(k: u64)
    ensures
        max_segment_id(Seq::new(k as nat, |i: int| segment_name_spec((i + 1) as nat))) == k,
    decreases k,
{
    let names = Seq::new(k as nat, |i: int| segment_name_spec((i + 1) as nat));
    if k > 0 {
        let k1 = (k - 1) as u64;
        lemma_restart_continuation(k1);
        assert(names.drop_last() =~= Seq::new(k1 as nat, |i: int| segment_name_spec((i + 1) as nat)));
        lemma_segment_name_round_trip(k);
        assert(names.last() == segment_name_spec(k as nat));
    }
}

/// Two digit strings of one length compare as their values do.
proof fn lemma_digits_order(x: Seq<char>, y: Seq<char>, tx: Seq<char>, ty: Seq<char>)
    requires
        x.len() == y.len(),
        all_digits(x),
        all_digits(y),
        digits_value(x) < digits_value(y),
    ensures
        lex_less(x + tx, y + ty),
    decreases x.len(),
{
    let l = x.len();
    if l == 0 {
        assert(false);
    }
    let x0 = seq![x[0]];
    let y0 = seq![y[0]];
    let xr = x.drop_first();
    let yr = y.drop_first();
    assert(x =~= x0 + xr);
    assert(y =~= y0 + yr);
    assert(all_digits(xr)) by {
        assert forall|i: int| 0 <= i < xr.len() implies is_digit(#[trigger] xr[i]) by {
            assert(xr[i] == x[i + 1]);
        }
    }
    assert(all_digits(yr)) by {
        assert forall|i: int| 0 <= i < yr.len() implies is_digit(#[trigger] yr[i]) by {
            assert(yr[i] == y[i + 1]);
        }
    }
    assert(is_digit(x[0]) && is_digit(y[0]));
    lemma_digits_value_concat(x0, xr);
    lemma_digits_value_concat(y0, yr);
    assert(x0.drop_last() =~= Seq::<char>::empty());
    assert(y0.drop_last() =~= Seq::<char>::empty());
    assert(digits_value(Seq::<char>::empty()) == 0);
    assert(x0.last() == x[0] && y0.last() == y[0]);
    assert(digits_value(x0) == digit_value(x[0]));
    assert(digits_value(y0) == digit_value(y[0]));
    lemma_digits_value_bound(xr);
    lemma_digits_value_bound(yr);
    let p = pow10(xr.len());
    let vx = digits_value(xr);
    let vy = digits_value(yr);
    let dx = digit_value(x[0]);
    let dy = digit_value(y[0]);
    let a = x + tx;
    let b = y + ty;
    assert(a[0] == x[0] && b[0] == y[0]);
    if dx < dy {
        assert(lex_less(a, b));
    } else if dx > dy {
        assert(dx * p + vx >= dy * p + vy) by (nonlinear_arith)
            requires
                dx >= dy + 1,
                0 <= vy < p,
                0 <= vx,
        ;
        assert(false);
    } else {
        assert(vx < vy);
        lemma_digits_order(xr, yr, tx, ty);
        assert(a.drop_first() =~= xr + tx);
        assert(b.drop_first() =~= yr + ty);
    }
}

/// Segment names sort as their ids do, for ids below a billion (nine digits).
/// So the files of a run, listed in name order, come in the order they were
/// written.
pub proof fn lemma_segment_names_sort_by_id(a: u64, b: u64)
    requires
        a < b < 1_000_000_000,
    ensures
        lex_less(segment_name_spec(a as nat), segment_name_spec(b as nat)),
{
    reveal_with_fuel(pow10, 10);
    assert(pow10(9) == 1_000_000_000);
    lemma_decimal_len_bound(a as nat, 9);
    lemma_decimal_len_bound(b as nat, 9);
    lemma_padded_decimal(a as nat, 9);
    lemma_padded_decimal(b as nat, 9);
    lemma_digits_order(
        padded_decimal(a as nat, 9),
        padded_decimal(b as nat, 9),
        ts_extension(),
        ts_extension(),
    );
}

} // verus!
