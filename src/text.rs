//! Text building blocks of the chunk renderings: numbers in decimal,
//! hexadecimal and binary, ANSI styling, and the boxed two-column table.
use vstd::prelude::*;
use vstd::utf8::{decode_utf8, encode_utf8, valid_utf8};

use owo_colors::OwoColorize;

verus! {

/// The decimal digit `d`.
pub open spec fn digit(d: int) -> Seq<char> {
    if d == 0 {
        "0"@
    } else if d == 1 {
        "1"@
    } else if d == 2 {
        "2"@
    } else if d == 3 {
        "3"@
    } else if d == 4 {
        "4"@
    } else if d == 5 {
        "5"@
    } else if d == 6 {
        "6"@
    } else if d == 7 {
        "7"@
    } else if d == 8 {
        "8"@
    } else {
        "9"@
    }
}

/// The hexadecimal digit `d`, in upper case.
pub open spec fn hex_digit(d: int) -> Seq<char> {
    if d < 10 {
        digit(d)
    } else if d == 10 {
        "A"@
    } else if d == 11 {
        "B"@
    } else if d == 12 {
        "C"@
    } else if d == 13 {
        "D"@
    } else if d == 14 {
        "E"@
    } else {
        "F"@
    }
}

/// `n` in decimal, without leading zeros.
pub open spec fn decimal(n: nat) -> Seq<char>
    decreases n,
{
    if n < 10 {
        digit(n as int)
    } else {
        decimal(n / 10) + digit((n % 10) as int)
    }
}

/// A byte as two upper-case hexadecimal digits.
pub open spec fn hex_byte(b: u8) -> Seq<char> {
    hex_digit(b as int / 16) + hex_digit(b as int % 16)
}

/// The `n` lowest bits of `x` in binary, the highest first.
pub open spec fn binary(x: nat, n: nat) -> Seq<char>
    decreases n,
{
    if n == 0 {
        Seq::empty()
    } else {
        binary(x / 2, (n - 1) as nat) + digit((x % 2) as int)
    }
}

/// `s` repeated `n` times.
pub open spec fn repeat(s: Seq<char>, n: nat) -> Seq<char>
    decreases n,
{
    if n == 0 {
        Seq::empty()
    } else {
        repeat(s, (n - 1) as nat) + s
    }
}

/// The pieces with `sep` between each two of them.
pub open spec fn join(pieces: Seq<Seq<char>>, sep: Seq<char>) -> Seq<char>
    decreases pieces.len(),
{
    if pieces.len() == 0 {
        Seq::empty()
    } else if pieces.len() == 1 {
        pieces[0]
    } else {
        join(pieces.drop_last(), sep) + sep + pieces.last()
    }
}

/// The text between the ANSI escapes for "dim" and "reset".
pub open spec fn dim(s: Seq<char>) -> Seq<char> {
    "\x1b[2m"@ + s + "\x1b[0m"@
}

/// The text between the ANSI escapes for a blue foreground and the default
/// foreground.
pub open spec fn blue(s: Seq<char>) -> Seq<char> {
    "\x1b[34m"@ + s + "\x1b[39m"@
}

/// The text between the ANSI escapes for a green foreground and the default
/// foreground.
pub open spec fn green(s: Seq<char>) -> Seq<char> {
    "\x1b[32m"@ + s + "\x1b[39m"@
}

/// Relies on owo_colors' `OwoColorize::dimmed`, whose `Display` writes the
/// dim escape, the text and the reset escape.
#[verifier::external_body]
pub(crate) fn dimmed(s: &str) -> (r: String)
    ensures
        r@ == dim(s@),
{
    s.dimmed().to_string()
}

/// Relies on owo_colors' `OwoColorize::blue`, whose `Display` writes the
/// blue foreground escape, the text and the default foreground escape.
#[verifier::external_body]
pub(crate) fn blued(s: &str) -> (r: String)
    ensures
        r@ == blue(s@),
{
    s.blue().to_string()
}

/// Relies on owo_colors' `OwoColorize::green`, whose `Display` writes the
/// green foreground escape, the text and the default foreground escape.
#[verifier::external_body]
pub(crate) fn greened(s: &str) -> (r: String)
    ensures
        r@ == green(s@),
{
    s.green().to_string()
}

fn digit_str(d: u64) -> (r: &'static str)
    requires
        d < 16,
    ensures
        r@ == hex_digit(d as int),
{
    if d == 0 {
        "0"
    } else if d == 1 {
        "1"
    } else if d == 2 {
        "2"
    } else if d == 3 {
        "3"
    } else if d == 4 {
        "4"
    } else if d == 5 {
        "5"
    } else if d == 6 {
        "6"
    } else if d == 7 {
        "7"
    } else if d == 8 {
        "8"
    } else if d == 9 {
        "9"
    } else if d == 10 {
        "A"
    } else if d == 11 {
        "B"
    } else if d == 12 {
        "C"
    } else if d == 13 {
        "D"
    } else if d == 14 {
        "E"
    } else {
        "F"
    }
}

/// `n` in decimal, as `to_string` writes it.
pub fn decimal_string(n: u64) -> (r: String)
    ensures
        r@ == decimal(n as nat),
    decreases n,
{
    if n < 10 {
        String::from_str(digit_str(n))
    } else {
        let mut s = decimal_string(n / 10);
        s.append(digit_str(n % 10));
        s
    }
}

/// A byte as two upper-case hexadecimal digits, as `{:02X}` writes it.
pub fn hex_byte_string(b: u8) -> (r: String)
    ensures
        r@ == hex_byte(b),
{
    let mut s = String::from_str(digit_str(b as u64 / 16));
    s.append(digit_str(b as u64 % 16));
    s
}

/// The `n` lowest bits of `x`, the highest first, as `{:0nb}` writes a value
/// below `2^n`.
pub fn binary_string(x: u64, n: u64) -> (r: String)
    ensures
        r@ == binary(x as nat, n as nat),
    decreases n,
{
    if n == 0 {
        String::new()
    } else {
        let mut s = binary_string(x / 2, n - 1);
        s.append(digit_str(x % 2));
        s
    }
}

/// `s` repeated `n` times.
pub fn repeat_str(s: &str, n: usize) -> (r: String)
    ensures
        r@ == repeat(s@, n as nat),
{
    let mut out = String::new();
    let mut i: usize = 0;
    while i < n
        invariant
            i <= n,
            out@ == repeat(s@, i as nat),
        decreases n - i,
    {
        out.append(s);
        i = i + 1;
    }
    out
}

/// The strings with `sep` between each two of them.
pub fn join_strings(pieces: &Vec<String>, sep: &str) -> (r: String)
    ensures
        r@ == join(pieces@.map_values(|s: String| s@), sep@),
{
    let ghost views = pieces@.map_values(|s: String| s@);
    let mut out = String::new();
    let mut i: usize = 0;
    while i < pieces.len()
        invariant
            i <= pieces.len(),
            views == pieces@.map_values(|s: String| s@),
            out@ == join(views.take(i as int), sep@),
        decreases pieces.len() - i,
    {
        if i > 0 {
            out.append(sep);
        }
        out.append(pieces[i].as_str());
        assert(views.take(i + 1).drop_last() =~= views.take(i as int));
        i = i + 1;
    }
    assert(views.take(pieces.len() as int) =~= views);
    out
}

/// The number of bytes of the UTF-8 encoding of `s`: what `str::len` gives.
pub open spec fn byte_len(s: Seq<char>) -> int {
    encode_utf8(s).len() as int
}

/// The rows of a table, as text.
pub open spec fn rows_view(rows: Seq<(String, String)>) -> Seq<(Seq<char>, Seq<char>)> {
    rows.map_values(|r: (String, String)| (r.0@, r.1@))
}

/// The widest key of the rows, in bytes.
pub open spec fn key_width(rows: Seq<(Seq<char>, Seq<char>)>) -> int
    decreases rows.len(),
{
    if rows.len() == 0 {
        0
    } else {
        let w = key_width(rows.drop_last());
        let k = byte_len(rows.last().0);
        if k > w {
            k
        } else {
            w
        }
    }
}

/// The widest value of the rows, in bytes.
pub open spec fn value_width(rows: Seq<(Seq<char>, Seq<char>)>) -> int
    decreases rows.len(),
{
    if rows.len() == 0 {
        0
    } else {
        let w = value_width(rows.drop_last());
        let v = byte_len(rows.last().1);
        if v > w {
            v
        } else {
            w
        }
    }
}

/// One line of the table: a dim bar, the key padded to four bytes past the
/// widest key, and the value.
pub open spec fn table_line(k: Seq<char>, v: Seq<char>, kw: int) -> Seq<char> {
    dim("|"@) + " "@ + k + repeat(" "@, (kw - byte_len(k) + 4) as nat) + v
}

/// The rows as a boxed table: a dim top rule, the lines with dim separators
/// between them, and a dim bottom rule.
pub open spec fn rows_table(rows: Seq<(Seq<char>, Seq<char>)>) -> Seq<char> {
    let kw = key_width(rows);
    let vw = value_width(rows);
    let rule = repeat("-"@, (kw + vw + 4) as nat);
    let lines = rows.map_values(|r: (Seq<char>, Seq<char>)| table_line(r.0, r.1, kw));
    let sep = dim("\n|"@ + repeat("-"@, (kw + 2) as nat) + "+"@ + repeat("-"@, vw as nat) + "\n"@);
    dim("╭"@ + rule) + "\n"@ + join(lines, sep) + "\n"@ + dim("╰"@ + rule)
}

proof fn lemma_width_bounds(rows: Seq<(Seq<char>, Seq<char>)>, i: int)
    requires
        0 <= i < rows.len(),
    ensures
        byte_len(rows[i].0) <= key_width(rows),
        byte_len(rows[i].1) <= value_width(rows),
        0 <= key_width(rows),
        0 <= value_width(rows),
    decreases rows.len(),
{
    if i < rows.len() - 1 {
        lemma_width_bounds(rows.drop_last(), i);
    } else if rows.len() > 1 {
        lemma_width_bounds(rows.drop_last(), 0);
    }
}

/// The widest key and the widest value of the rows, in bytes.
fn table_widths(rows: &Vec<(String, String)>) -> (r: (usize, usize))
    ensures
        r.0 == key_width(rows_view(rows@)),
        r.1 == value_width(rows_view(rows@)),
{
    let ghost rv = rows_view(rows@);
    let mut kw: usize = 0;
    let mut vw: usize = 0;
    let mut i: usize = 0;
    while i < rows.len()
        invariant
            i <= rows.len(),
            rv == rows_view(rows@),
            kw == key_width(rv.take(i as int)),
            vw == value_width(rv.take(i as int)),
        decreases rows.len() - i,
    {
        let k = rows[i].0.as_str().as_bytes().len();
        let v = rows[i].1.as_str().as_bytes().len();
        assert(rv[i as int] == (rows@[i as int].0@, rows@[i as int].1@));
        assert(rv.take(i + 1).drop_last() =~= rv.take(i as int));
        assert(rv.take(i + 1).last() == rv[i as int]);
        if k > kw {
            kw = k;
        }
        if v > vw {
            vw = v;
        }
        i = i + 1;
    }
    assert(rv.take(rows.len() as int) =~= rv);
    (kw, vw)
}

/// Renders the rows as a boxed two-column table.
pub fn get_rows_string(rows: Vec<(String, String)>) -> (r: String)
    requires
        rows.len() > 0,
        key_width(rows_view(rows@)) + value_width(rows_view(rows@)) + 4 <= usize::MAX,
    ensures
        r@ == rows_table(rows_view(rows@)),
{
    let ghost rv = rows_view(rows@);
    let (kw, vw) = table_widths(&rows);
    let rule = repeat_str("-", kw + vw + 4);
    let mut top = String::from_str("╭");
    top.append(rule.as_str());
    let mut lines: Vec<String> = Vec::new();
    let mut j: usize = 0;
    while j < rows.len()
        invariant
            j <= rows.len(),
            rv == rows_view(rows@),
            kw == key_width(rv),
            vw == value_width(rv),
            kw + vw + 4 <= usize::MAX,
            lines@.map_values(|s: String| s@) == rv.take(j as int).map_values(
                |r: (Seq<char>, Seq<char>)| table_line(r.0, r.1, kw as int),
            ),
        decreases rows.len() - j,
    {
        proof {
            lemma_width_bounds(rv, j as int);
        }
        let k = &rows[j].0;
        let v = &rows[j].1;
        assert(rv[j as int] == (k@, v@));
        let mut line = dimmed("|");
        line.append(" ");
        line.append(k.as_str());
        let klen = k.as_str().len();
        assert(klen == byte_len(k@));
        let pad = repeat_str(" ", kw - klen + 4);
        line.append(pad.as_str());
        line.append(v.as_str());
        assert(line@ =~= table_line(k@, v@, kw as int));
        let ghost before = lines@.map_values(|s: String| s@);
        let ghost lv = line@;
        lines.push(line);
        assert(rv.take(j + 1) =~= rv.take(j as int).push(rv[j as int]));
        assert(lines@.map_values(|s: String| s@) =~= before.push(lv));
        assert(rv.take(j + 1).map_values(|r: (Seq<char>, Seq<char>)| table_line(r.0, r.1, kw as int))
            =~= rv.take(j as int).map_values(|r: (Seq<char>, Seq<char>)| table_line(r.0, r.1, kw as int)).push(
            table_line(k@, v@, kw as int),
        ));
        assert(lines@.map_values(|s: String| s@) =~= rv.take(j + 1).map_values(
            |r: (Seq<char>, Seq<char>)| table_line(r.0, r.1, kw as int),
        ));
        j = j + 1;
    }
    assert(rv.take(rows.len() as int) =~= rv);
    let mut sep = String::from_str("\n|");
    sep.append(repeat_str("-", kw + 2).as_str());
    sep.append("+");
    sep.append(repeat_str("-", vw).as_str());
    sep.append("\n");
    let sep = dimmed(sep.as_str());
    let table = join_strings(&lines, sep.as_str());
    let mut bottom = String::from_str("╰");
    bottom.append(rule.as_str());
    let mut out = dimmed(top.as_str());
    out.append("\n");
    out.append(table.as_str());
    out.append("\n");
    out.append(dimmed(bottom.as_str()).as_str());
    out
}

/// Whether the rows can be drawn as a table: some, and not so wide that the
/// rule length overflows.
pub open spec fn rows_fit(rows: Seq<(Seq<char>, Seq<char>)>) -> bool {
    rows.len() > 0 && key_width(rows) + value_width(rows) + 4 <= usize::MAX
}

/// The rows as a boxed table where they fit, else `None`.
pub fn render_rows(rows: Vec<(String, String)>) -> (r: Option<String>)
    ensures
        rows_fit(rows_view(rows@)) ==> r is Some && r->Some_0@ == rows_table(rows_view(rows@)),
        !rows_fit(rows_view(rows@)) ==> r is None,
{
    if rows.len() == 0 {
        return None;
    }
    let (kw, vw) = table_widths(&rows);
    if kw > usize::MAX - 4 || vw > usize::MAX - 4 - kw {
        return None;
    }
    Some(get_rows_string(rows))
}

/// What `String::from_utf8_lossy` makes of the bytes.
pub uninterp spec fn utf8_lossy(b: Seq<u8>) -> Seq<char>;

/// Relies on `String::from_utf8_lossy`: valid UTF-8 comes out as its
/// decoding, and each invalid sequence as U+FFFD.
#[verifier::external_body]
pub(crate) fn text_of(b: &[u8]) -> (r: String)
    ensures
        r@ == utf8_lossy(b@),
        valid_utf8(b@) ==> r@ == decode_utf8(b@),
{
    String::from_utf8_lossy(b).into_owned()
}

/// The bytes with each run of NUL bytes shortened to one.
pub open spec fn collapse_nuls(s: Seq<u8>) -> Seq<u8>
    decreases s.len(),
{
    if s.len() == 0 {
        s
    } else {
        let c = collapse_nuls(s.drop_last());
        if s.last() == 0 && s.len() >= 2 && s[s.len() - 2] == 0 {
            c
        } else {
            c.push(s.last())
        }
    }
}

/// The pieces between the NUL bytes, as `slice::split` gives them: one more
/// piece than there are NUL bytes.
pub open spec fn split_nuls(s: Seq<u8>) -> Seq<Seq<u8>>
    decreases s.len(),
{
    if s.len() == 0 {
        seq![Seq::empty()]
    } else {
        let init = split_nuls(s.drop_last());
        if s.last() == 0 {
            init.push(Seq::empty())
        } else {
            init.update(init.len() - 1, init.last().push(s.last()))
        }
    }
}

/// The bytes read as text where they can be: runs of NUL bytes shortened to
/// one, the pieces between them decoded, and a dim " ...\0 " between pieces.
pub open spec fn maybe_text(b: Seq<u8>) -> Seq<char> {
    join(
        split_nuls(collapse_nuls(b)).map_values(|p: Seq<u8>| utf8_lossy(p)),
        dim(" ...\\0 "@),
    )
}

/// The bytes as text where they can be read as such; for the payload of
/// chunks of unknown kind.
pub fn as_maybe_utf8(bytes: Vec<u8>) -> (r: String)
    ensures
        r@ == maybe_text(bytes@),
{
    let ghost b = bytes@;
    let mut collapsed: Vec<u8> = Vec::new();
    let mut seen_null_byte = false;
    let mut i: usize = 0;
    while i < bytes.len()
        invariant
            i <= bytes.len(),
            b == bytes@,
            collapsed@ == collapse_nuls(b.take(i as int)),
            seen_null_byte == (i > 0 && b[i - 1] == 0),
        decreases bytes.len() - i,
    {
        let byte = bytes[i];
        assert(b.take(i + 1).drop_last() =~= b.take(i as int));
        if byte == 0 {
            if !seen_null_byte {
                seen_null_byte = true;
                collapsed.push(byte);
            }
        } else {
            seen_null_byte = false;
            collapsed.push(byte);
        }
        i = i + 1;
    }
    assert(b.take(bytes.len() as int) =~= b);
    let ghost c = collapsed@;
    let mut texts: Vec<String> = Vec::new();
    let mut current: Vec<u8> = Vec::new();
    let mut j: usize = 0;
    while j < collapsed.len()
        invariant
            j <= collapsed.len(),
            c == collapsed@,
            split_nuls(c.take(j as int)).len() >= 1,
            current@ == split_nuls(c.take(j as int)).last(),
            texts@.map_values(|s: String| s@) == split_nuls(c.take(j as int)).drop_last().map_values(
                |p: Seq<u8>| utf8_lossy(p),
            ),
        decreases collapsed.len() - j,
    {
        let byte = collapsed[j];
        assert(c.take(j + 1).drop_last() =~= c.take(j as int));
        let ghost before = split_nuls(c.take(j as int));
        if byte == 0 {
            let t = text_of(current.as_slice());
            let ghost tv = t@;
            texts.push(t);
            current = Vec::new();
            assert(split_nuls(c.take(j + 1)).drop_last() =~= before);
            assert(texts@.map_values(|s: String| s@) =~= before.drop_last().map_values(
                |p: Seq<u8>| utf8_lossy(p),
            ).push(tv));
            assert(before.drop_last().push(before.last()) =~= before);
            assert(before.map_values(|p: Seq<u8>| utf8_lossy(p)) =~= before.drop_last().map_values(
                |p: Seq<u8>| utf8_lossy(p),
            ).push(utf8_lossy(before.last())));
            assert(current@ =~= split_nuls(c.take(j + 1)).last());
        } else {
            current.push(byte);
            assert(split_nuls(c.take(j + 1)).drop_last() =~= before.drop_last());
            assert(current@ =~= split_nuls(c.take(j + 1)).last());
        }
        j = j + 1;
    }
    assert(c.take(collapsed.len() as int) =~= c);
    let ghost pieces = split_nuls(c);
    let t = text_of(current.as_slice());
    let ghost tv = t@;
    let ghost before = texts@.map_values(|s: String| s@);
    texts.push(t);
    assert(texts@.map_values(|s: String| s@) =~= before.push(tv));
    assert(pieces.drop_last().push(pieces.last()) =~= pieces);
    assert(pieces.map_values(|p: Seq<u8>| utf8_lossy(p)) =~= pieces.drop_last().map_values(
        |p: Seq<u8>| utf8_lossy(p),
    ).push(utf8_lossy(pieces.last())));
    let sep = dimmed(" ...\\0 ");
    join_strings(&texts, sep.as_str())
}

} // verus!
