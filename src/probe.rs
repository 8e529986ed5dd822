//! Reading what the hardware and system tools report: GPU memory from the
//! vendor tool or the OS, the listener of a port, the C library version, and
//! the unified-memory estimate. The tools are run by the caller; these
//! functions read their output.

use vstd::prelude::*;
use crate::text::{Trim, chars_of, contains_ci, contains_ignore_ascii_case, ends_at, is_ws, push_chars, push_str, slice_chars, string_of, trim, trimmed, trims, trims_char};

verus! {

/// The pieces of `s` between separators `sep` (one more than there are separators).
pub open spec fn pieces(s: Seq<char>, sep: Trim) -> Seq<Seq<char>>
    decreases s.len(),
{
    if s.len() == 0 {
        seq![seq![]]
    } else if trims(sep, s.last()) {
        pieces(s.drop_last(), sep).push(seq![])
    } else {
        let p = pieces(s.drop_last(), sep);
        p.update(p.len() - 1, p.last().push(s.last()))
    }
}

/// There is always at least one piece.
pub proof fn lemma_pieces_nonempty(s: Seq<char>, sep: Trim)
    ensures
        pieces(s, sep).len() >= 1,
    decreases s.len(),
{
    if s.len() > 0 {
        lemma_pieces_nonempty(s.drop_last(), sep);
    }
}

/// A line without the carriage return of its line ending.
pub open spec fn strip_cr(l: Seq<char>) -> Seq<char> {
    if l.len() > 0 && l.last() == '\r' {
        l.drop_last()
    } else {
        l
    }
}

/// The lines of a text as `str::lines` gives them: split at `\n`, a `\r`
/// before the `\n` removed, and no empty line after a final line ending.
pub open spec fn lines_of(s: Seq<char>) -> Seq<Seq<char>> {
    if s.len() == 0 {
        seq![]
    } else {
        let p = pieces(s, Trim::Exactly('\n'));
        let head = p.drop_last().map_values(|l: Seq<char>| strip_cr(l));
        if s.last() == '\n' {
            head
        } else {
            head.push(p.last())
        }
    }
}

/// The pieces of `v` between separators `sep`.
fn split_pieces(v: &[char], sep: Trim) -> (r: Vec<Vec<char>>)
    ensures
        r@.map_values(|x: Vec<char>| x@) == pieces(v@, sep),
{
    let mut done: Vec<Vec<char>> = Vec::new();
    let mut cur: Vec<char> = Vec::new();
    let mut i: usize = 0;
    assert(v@.subrange(0, 0) =~= Seq::<char>::empty());
    assert(pieces(Seq::<char>::empty(), sep) =~= seq![Seq::<char>::empty()]);
    while i < v.len()
        invariant
            i <= v@.len(),
            pieces(v@.subrange(0, i as int), sep) == done@.map_values(|x: Vec<char>| x@).push(cur@),
        decreases v@.len() - i,
    {
        let c = v[i];
        let ghost pre = v@.subrange(0, i as int);
        let ghost old_done = done@.map_values(|x: Vec<char>| x@);
        assert(v@.subrange(0, i + 1).drop_last() =~= pre);
        if trims_char(sep, c) {
            done.push(cur);
            cur = Vec::new();
            assert(done@.map_values(|x: Vec<char>| x@) =~= old_done.push(done@[done@.len() - 1]@));
            assert(pieces(v@.subrange(0, i + 1), sep) =~= done@.map_values(|x: Vec<char>| x@).push(cur@));
        } else {
            cur.push(c);
            assert(pieces(v@.subrange(0, i + 1), sep) =~= done@.map_values(|x: Vec<char>| x@).push(cur@));
        }
        i = i + 1;
    }
    assert(v@.subrange(0, v@.len() as int) =~= v@);
    done.push(cur);
    done
}

/// The lines of a text.
pub fn text_lines(text: &str) -> (r: Vec<Vec<char>>)
    ensures
        r@.map_values(|x: Vec<char>| x@) == lines_of(text@),
{
    let v = chars_of(text);
    if v.len() == 0 {
        let r: Vec<Vec<char>> = Vec::new();
        assert(r@.map_values(|x: Vec<char>| x@) =~= lines_of(text@));
        return r;
    }
    let p = split_pieces(v.as_slice(), Trim::Exactly('\n'));
    let ghost pv = p@.map_values(|x: Vec<char>| x@);
    let mut r: Vec<Vec<char>> = Vec::new();
    let np = p.len();
    proof {
        lemma_pieces_nonempty(v@, Trim::Exactly('\n'));
    }
    let mut i: usize = 0;
    while i + 1 < np
        invariant
            np == p@.len(),
            pv == p@.map_values(|x: Vec<char>| x@),
            pv.len() >= 1,
            i + 1 <= p@.len(),
            r@.map_values(|x: Vec<char>| x@) == pv.subrange(0, i as int).map_values(|l: Seq<char>| strip_cr(l)),
        decreases p@.len() - i,
    {
        let l = &p[i];
        let n = l.len();
        let stripped = if n > 0 && l[n - 1] == '\r' {
            slice_chars(l.as_slice(), 0, n - 1)
        } else {
            slice_chars(l.as_slice(), 0, n)
        };
        assert(l@.drop_last() =~= l@.subrange(0, l@.len() - 1));
        assert(l@.subrange(0, l@.len() as int) =~= l@);
        assert(stripped@ == strip_cr(pv[i as int]));
        let ghost before = r@.map_values(|x: Vec<char>| x@);
        r.push(stripped);
        assert(r@.map_values(|x: Vec<char>| x@) =~= before.push(strip_cr(pv[i as int])));
        i = i + 1;
        assert(pv.subrange(0, i as int).map_values(|l: Seq<char>| strip_cr(l)) =~= pv.subrange(0, i - 1).map_values(|l: Seq<char>| strip_cr(l)).push(strip_cr(pv[i - 1])));
    }
    assert(pv.subrange(0, i as int) =~= pv.drop_last());
    if v[v.len() - 1] != '\n' {
        let last = &p[p.len() - 1];
        let ghost before = r@.map_values(|x: Vec<char>| x@);
        r.push(slice_chars(last.as_slice(), 0, last.len()));
        assert(last@.subrange(0, last@.len() as int) =~= last@);
        assert(r@.map_values(|x: Vec<char>| x@) =~= before.push(pv.last()));
    }
    r
}


/// An ASCII digit.
pub open spec fn is_digit(c: char) -> bool {
    '0' <= c && c <= '9'
}

/// The value of a digit character.
pub open spec fn digit_value(c: char) -> int {
    (c as u32) as int - 48
}

/// The value of a sequence of digits.
pub open spec fn digits_value(s: Seq<char>) -> int
    decreases s.len(),
{
    if s.len() == 0 {
        0
    } else {
        digits_value(s.drop_last()) * 10 + digit_value(s.last())
    }
}

/// What `parse` gives for an unsigned integer no larger than `max`: an
/// optional `+`, then one or more digits whose value fits.
pub open spec fn parse_unsigned(s: Seq<char>, max: int) -> Option<int> {
    let d = unsigned_digits(s);
    if d.len() > 0 && all_digits(d) && digits_value(d) <= max {
        Some(digits_value(d))
    } else {
        None
    }
}

/// The text of a number without its optional leading `+`.
pub open spec fn unsigned_digits(s: Seq<char>) -> Seq<char> {
    if s.len() > 0 && s[0] == '+' {
        s.drop_first()
    } else {
        s
    }
}

/// Every character is a digit.
pub open spec fn all_digits(d: Seq<char>) -> bool {
    forall|i: int| 0 <= i < d.len() ==> is_digit(#[trigger] d[i])
}

proof fn lemma_digits_nonneg(s: Seq<char>)
    requires
        forall|i: int| 0 <= i < s.len() ==> is_digit(#[trigger] s[i]),
    ensures
        digits_value(s) >= 0,
    decreases s.len(),
{
    if s.len() > 0 {
        lemma_digits_nonneg(s.drop_last());
    }
}

/// Parses an unsigned decimal integer as `str::parse::<u64>` does.
pub fn parse_u64(v: &[char]) -> (r: Option<u64>)
    ensures
        r is None <==> parse_unsigned(v@, u64::MAX as int) is None,
        r is Some ==> parse_unsigned(v@, u64::MAX as int) == Some(r->0 as int),
{
    let start: usize = if v.len() > 0 && v[0] == '+' { 1 } else { 0 };
    let ghost d = unsigned_digits(v@);
    assert(d =~= v@.subrange(start as int, v@.len() as int));
    if start >= v.len() {
        return None;
    }
    let mut val: u64 = 0;
    let mut over = false;
    let mut i: usize = start;
    while i < v.len()
        invariant
            start <= i <= v@.len(),
            d == unsigned_digits(v@),
            d == v@.subrange(start as int, v@.len() as int),
            forall|k: int| start <= k < i ==> is_digit(#[trigger] v@[k]),
            over ==> digits_value(v@.subrange(start as int, i as int)) > u64::MAX,
            !over ==> val == digits_value(v@.subrange(start as int, i as int)),
        decreases v@.len() - i,
    {
        let c = v[i];
        if !('0' <= c && c <= '9') {
            assert(d[i - start] == c);
            assert(!is_digit(d[i - start]));
            assert(!all_digits(d));
            return None;
        }
        let ghost pre = v@.subrange(start as int, i as int);
        assert(v@.subrange(start as int, i + 1).drop_last() =~= pre);
        proof {
            lemma_digits_nonneg(pre);
        }
        let dv = (c as u32 - 48) as u64;
        if !over {
            if val > (u64::MAX - dv) / 10 {
                over = true;
                assert(val * 10 + dv > u64::MAX) by (nonlinear_arith)
                    requires
                        val > (u64::MAX - dv) / 10,
                        dv <= 9,
                ;
            } else {
                assert(val * 10 + dv <= u64::MAX) by (nonlinear_arith)
                    requires
                        val <= (u64::MAX - dv) / 10,
                        dv <= 9,
                ;
                val = val * 10 + dv;
            }
        } else {
            assert(digits_value(pre) * 10 + dv > u64::MAX) by (nonlinear_arith)
                requires
                    digits_value(pre) > u64::MAX,
                    dv >= 0,
            ;
        }
        i = i + 1;
    }
    assert(v@.subrange(start as int, i as int) == d);
    assert(all_digits(d));
    if over {
        None
    } else {
        Some(val)
    }
}

/// The lines of a text as they are read: trimmed of whitespace.
pub open spec fn trimmed_line(l: Seq<char>) -> Seq<char> {
    trim(l, Trim::Whitespace)
}

/// The largest value of the trimmed lines that parse as integers, starting from `best`.
pub open spec fn max_parsed(lines: Seq<Seq<char>>, best: int) -> int
    decreases lines.len(),
{
    if lines.len() == 0 {
        best
    } else {
        let rest = max_parsed(lines.drop_last(), best);
        match parse_unsigned(trimmed_line(lines.last()), u64::MAX as int) {
            Some(v) if v > rest => v,
            _ => rest,
        }
    }
}

/// The memory the GPU-management tool reports, in bytes: the largest of its
/// per-GPU figures in MiB (lines that do not parse are skipped), times 2^20
/// (saturating); nothing when no figure is above zero.
pub open spec fn vram_from_smi_of(out: Seq<char>) -> Option<u64> {
    let mb = max_parsed(lines_of(out), 0);
    if mb == 0 {
        None
    } else if mb * 1048576 > u64::MAX {
        Some(u64::MAX)
    } else {
        Some((mb * 1048576) as u64)
    }
}

fn max_of_lines(lines: &Vec<Vec<char>>) -> (r: u64)
    ensures
        r as int == max_parsed(lines@.map_values(|x: Vec<char>| x@), 0),
{
    let ghost lv = lines@.map_values(|x: Vec<char>| x@);
    let mut best: u64 = 0;
    let mut i: usize = 0;
    while i < lines.len()
        invariant
            lv == lines@.map_values(|x: Vec<char>| x@),
            i <= lines@.len(),
            best as int == max_parsed(lv.subrange(0, i as int), 0),
        decreases lines@.len() - i,
    {
        let t = trimmed(lines[i].as_slice(), Trim::Whitespace);
        assert(lv.subrange(0, i + 1).drop_last() =~= lv.subrange(0, i as int));
        assert(lv.subrange(0, i + 1).last() == lines@[i as int]@);
        if let Some(v) = parse_u64(t.as_slice()) {
            if v > best {
                best = v;
            }
        }
        i = i + 1;
    }
    assert(lv.subrange(0, lv.len() as int) =~= lv);
    best
}

/// The VRAM the GPU-management tool reports, from its CSV output without
/// header or units.
pub fn vram_bytes_from_smi(output: &str) -> (r: Option<u64>)
    ensures
        r == vram_from_smi_of(output@),
{
    let lines = text_lines(output);
    let mb = max_of_lines(&lines);
    if mb == 0 {
        None
    } else {
        let bytes: u128 = (mb as u128) * 1048576;
        if bytes > u64::MAX as u128 {
            Some(u64::MAX)
        } else {
            Some(bytes as u64)
        }
    }
}

/// The digits of a sequence, in order.
pub open spec fn digits_only(s: Seq<char>) -> Seq<char> {
    s.filter(|c: char| is_digit(c))
}

/// The largest adapter memory the OS device list reports: for each trimmed
/// non-empty line, its digits read as a number (lines without digits, or
/// whose digits overflow, are skipped); nothing when none is above zero.
pub open spec fn max_adapter_ram(lines: Seq<Seq<char>>) -> int
    decreases lines.len(),
{
    if lines.len() == 0 {
        0
    } else {
        let rest = max_adapter_ram(lines.drop_last());
        let ds = digits_only(trimmed_line(lines.last()));
        match parse_unsigned(ds, u64::MAX as int) {
            Some(v) if v > rest => v,
            _ => rest,
        }
    }
}

fn digits_of(v: &[char]) -> (r: Vec<char>)
    ensures
        r@ == digits_only(v@),
{
    let mut r: Vec<char> = Vec::new();
    let mut i: usize = 0;
    while i < v.len()
        invariant
            i <= v@.len(),
            r@ == digits_only(v@.subrange(0, i as int)),
        decreases v@.len() - i,
    {
        let c = v[i];
        assert(v@.subrange(0, i + 1).drop_last() =~= v@.subrange(0, i as int));
        if '0' <= c && c <= '9' {
            r.push(c);
        }
        i = i + 1;
        proof {
            reveal(Seq::filter);
        }
        assert(r@ =~= digits_only(v@.subrange(0, i as int)));
    }
    assert(v@.subrange(0, v@.len() as int) =~= v@);
    r
}

/// The largest adapter memory in the OS device list output, in bytes.
pub fn adapter_ram_bytes(output: &str) -> (r: Option<u64>)
    ensures
        max_adapter_ram(lines_of(output@)) == 0 ==> r is None,
        max_adapter_ram(lines_of(output@)) > 0 ==> r == Some(max_adapter_ram(lines_of(output@)) as u64),
{
    let lines = text_lines(output);
    let ghost lv = lines@.map_values(|x: Vec<char>| x@);
    let mut best: u64 = 0;
    let mut i: usize = 0;
    while i < lines.len()
        invariant
            lv == lines@.map_values(|x: Vec<char>| x@),
            i <= lines@.len(),
            best as int == max_adapter_ram(lv.subrange(0, i as int)),
        decreases lines@.len() - i,
    {
        let t = trimmed(lines[i].as_slice(), Trim::Whitespace);
        let ds = digits_of(t.as_slice());
        assert(lv.subrange(0, i + 1).drop_last() =~= lv.subrange(0, i as int));
        assert(lv.subrange(0, i + 1).last() == lines@[i as int]@);
        if let Some(v) = parse_u64(ds.as_slice()) {
            if v > best {
                best = v;
            }
        }
        i = i + 1;
    }
    assert(lv.subrange(0, lv.len() as int) =~= lv);
    if best == 0 {
        None
    } else {
        Some(best)
    }
}


/// Parses an unsigned decimal integer as `str::parse::<u32>` does.
pub fn parse_u32(v: &[char]) -> (r: Option<u32>)
    ensures
        r is None <==> parse_unsigned(v@, u32::MAX as int) is None,
        r is Some ==> parse_unsigned(v@, u32::MAX as int) == Some(r->0 as int),
{
    match parse_u64(v) {
        Some(x) => if x <= u32::MAX as u64 {
            Some(x as u32)
        } else {
            None
        },
        None => None,
    }
}

/// The process that the port lookup tool reports: the first line of its
/// trimmed output, itself trimmed, read as a process identifier.
pub open spec fn pid_from_listing_of(out: Seq<char>) -> Option<int> {
    let ls = lines_of(trim(out, Trim::Whitespace));
    if ls.len() == 0 {
        None
    } else {
        parse_unsigned(trim(ls[0], Trim::Whitespace), u32::MAX as int)
    }
}

/// The process listening on a port, from the output of the lookup tool that
/// prints only process identifiers.
pub fn pid_from_listing(output: &str) -> (r: Option<u32>)
    ensures
        r is None <==> pid_from_listing_of(output@) is None,
        r is Some ==> pid_from_listing_of(output@) == Some(r->0 as int),
{
    let v = chars_of(output);
    let t = trimmed(v.as_slice(), Trim::Whitespace);
    let ts = crate::text::string_of(t.as_slice());
    let lines = text_lines(ts.as_str());
    if lines.len() == 0 {
        return None;
    }
    assert(lines@.map_values(|x: Vec<char>| x@)[0] == lines@[0]@);
    let first = trimmed(lines[0].as_slice(), Trim::Whitespace);
    parse_u32(first.as_slice())
}

/// The unified-memory estimate of GPU memory: three quarters of the RAM.
pub fn unified_memory_vram(total_memory_bytes: u64) -> (r: Option<u64>)
    ensures
        total_memory_bytes == 0 ==> r is None,
        total_memory_bytes > 0 ==> r == Some((total_memory_bytes as int * 3 / 4) as u64),
{
    if total_memory_bytes == 0 {
        return None;
    }
    let x: u128 = (total_memory_bytes as u128) * 3 / 4;
    assert(x <= total_memory_bytes as u128);
    Some(x as u64)
}

/// The position of the last whitespace character, or -1.
pub open spec fn last_ws_index(s: Seq<char>) -> int
    decreases s.len(),
{
    if s.len() == 0 {
        -1
    } else if is_ws(s.last()) {
        s.len() - 1
    } else {
        last_ws_index(s.drop_last())
    }
}

/// The last whitespace-separated word of a text, if it has one.
pub open spec fn last_word(s: Seq<char>) -> Option<Seq<char>> {
    let t = trim(s, Trim::Whitespace);
    if t.len() == 0 {
        None
    } else {
        Some(t.subrange(last_ws_index(t) + 1, t.len() as int))
    }
}

/// The pieces that parse as `u32`, in order; the others are skipped.
pub open spec fn parsed_parts(ps: Seq<Seq<char>>) -> Seq<int>
    decreases ps.len(),
{
    if ps.len() == 0 {
        seq![]
    } else {
        let rest = parsed_parts(ps.drop_last());
        match parse_unsigned(ps.last(), u32::MAX as int) {
            Some(v) => rest.push(v),
            None => rest,
        }
    }
}

/// Whether the C library version that the dynamic linker reports (the last
/// word of the first line of its output, as dot-separated numbers) is older
/// than 2.34, the oldest the published runtime binaries run on. An empty
/// output or an unreadable version is not taken as old.
pub open spec fn glibc_too_old_of(out: Seq<char>) -> bool {
    let ls = lines_of(out);
    if ls.len() == 0 {
        false
    } else {
        match last_word(ls[0]) {
            None => false,
            Some(w) => {
                let p = parsed_parts(pieces(w, Trim::Exactly('.')));
                p.len() >= 2 && (p[0] < 2 || (p[0] == 2 && p[1] < 34))
            },
        }
    }
}

/// Whether only bundled runtimes can be used, from the dynamic linker's
/// version output.
pub fn glibc_too_old(ldd_output: &str) -> (r: bool)
    ensures
        r == glibc_too_old_of(ldd_output@),
{
    let lines = text_lines(ldd_output);
    if lines.len() == 0 {
        return false;
    }
    assert(lines@.map_values(|x: Vec<char>| x@)[0] == lines@[0]@);
    let v = &lines[0];
    let t = trimmed(v.as_slice(), Trim::Whitespace);
    if t.len() == 0 {
        return false;
    }
    let mut k: usize = t.len();
    assert(t@.subrange(0, k as int) =~= t@);
    while k > 0 && !trims_char(Trim::Whitespace, t[k - 1])
        invariant
            k <= t@.len(),
            last_ws_index(t@) == last_ws_index(t@.subrange(0, k as int)),
        decreases k,
    {
        assert(t@.subrange(0, k as int).drop_last() =~= t@.subrange(0, k - 1));
        k = k - 1;
    }
    let word = slice_chars(t.as_slice(), k, t.len());
    let ps = split_pieces(word.as_slice(), Trim::Exactly('.'));
    let ghost pv = ps@.map_values(|x: Vec<char>| x@);
    let mut parts: Vec<u32> = Vec::new();
    let mut i: usize = 0;
    while i < ps.len()
        invariant
            pv == ps@.map_values(|x: Vec<char>| x@),
            i <= ps@.len(),
            parts@.map_values(|x: u32| x as int) == parsed_parts(pv.subrange(0, i as int)),
        decreases ps@.len() - i,
    {
        assert(pv.subrange(0, i + 1).drop_last() =~= pv.subrange(0, i as int));
        assert(pv.subrange(0, i + 1).last() == ps@[i as int]@);
        let ghost before = parts@.map_values(|x: u32| x as int);
        if let Some(x) = parse_u32(ps[i].as_slice()) {
            parts.push(x);
            assert(parts@.map_values(|x: u32| x as int) =~= before.push(x as int));
        }
        i = i + 1;
    }
    assert(pv.subrange(0, pv.len() as int) =~= pv);
    if parts.len() >= 2 {
        let major = parts[0];
        let minor = parts[1];
        assert(parts@.map_values(|x: u32| x as int)[0] == major as int);
        assert(parts@.map_values(|x: u32| x as int)[1] == minor as int);
        major < 2 || (major == 2 && minor < 34)
    } else {
        false
    }
}


/// The GPU memory a sysfs counter file reports, when above zero.
pub open spec fn vram_from_sysfs_of(content: Seq<char>) -> Option<int> {
    match parse_unsigned(trim(content, Trim::Whitespace), u64::MAX as int) {
        Some(v) if v > 0 => Some(v),
        _ => None,
    }
}

/// The GPU memory a sysfs counter file reports.
pub fn vram_from_sysfs(content: &str) -> (r: Option<u64>)
    ensures
        r is None <==> vram_from_sysfs_of(content@) is None,
        r is Some ==> vram_from_sysfs_of(content@) == Some(r->0 as int),
{
    let v = chars_of(content);
    let t = trimmed(v.as_slice(), Trim::Whitespace);
    match parse_u64(t.as_slice()) {
        Some(x) => if x > 0 {
            Some(x)
        } else {
            None
        },
        None => None,
    }
}

/// The whitespace-separated words of a text.
pub open spec fn words_of(s: Seq<char>) -> Seq<Seq<char>> {
    pieces(s, Trim::Whitespace).filter(|w: Seq<char>| w.len() > 0)
}

fn split_words(v: &[char]) -> (r: Vec<Vec<char>>)
    ensures
        r@.map_values(|x: Vec<char>| x@) == words_of(v@),
{
    let ps = split_pieces(v, Trim::Whitespace);
    let ghost pv = ps@.map_values(|x: Vec<char>| x@);
    let mut r: Vec<Vec<char>> = Vec::new();
    let mut i: usize = 0;
    while i < ps.len()
        invariant
            pv == ps@.map_values(|x: Vec<char>| x@),
            i <= ps@.len(),
            r@.map_values(|x: Vec<char>| x@) == pv.subrange(0, i as int).filter(|w: Seq<char>| w.len() > 0),
        decreases ps@.len() - i,
    {
        let ghost before = r@.map_values(|x: Vec<char>| x@);
        assert(pv.subrange(0, i + 1).drop_last() =~= pv.subrange(0, i as int));
        assert(pv.subrange(0, i + 1).last() == ps@[i as int]@);
        proof {
            reveal(Seq::filter);
        }
        if ps[i].len() > 0 {
            r.push(slice_chars(ps[i].as_slice(), 0, ps[i].len()));
            assert(ps@[i as int]@.subrange(0, ps@[i as int]@.len() as int) =~= ps@[i as int]@);
            assert(r@.map_values(|x: Vec<char>| x@) =~= before.push(ps@[i as int]@));
        }
        i = i + 1;
    }
    assert(pv.subrange(0, pv.len() as int) =~= pv);
    r
}

/// `s` holds `pat` somewhere, exactly.
pub open spec fn contains_exact(s: Seq<char>, pat: Seq<char>) -> bool {
    exists|i: int| pat.len() <= i <= s.len() && #[trigger] s.subrange(i - pat.len(), i) == pat
}

fn contains_chars(v: &[char], pat: &str) -> (r: bool)
    ensures
        r == contains_exact(v@, pat@),
{
    let p = chars_of(pat);
    let mut i: usize = p.len();
    while i <= v.len()
        invariant
            p@ == pat@,
            p@.len() <= i,
            forall|j: int| p@.len() <= j < i && j <= v@.len() ==> #[trigger] v@.subrange(j - p@.len(), j) != p@,
        decreases v@.len() + 1 - i,
    {
        if ends_at(v, i, p.as_slice()) {
            return true;
        }
        if i == v.len() {
            return false;
        }
        i = i + 1;
    }
    false
}

/// `s` ends with `suffix`, exactly.
pub open spec fn ends_with_exact(s: Seq<char>, suffix: Seq<char>) -> bool {
    suffix.len() <= s.len() && s.subrange(s.len() - suffix.len(), s.len() as int) == suffix
}

/// The process the connection table reports for a port: the first trimmed
/// line that says `LISTENING`, has five or more words and whose local
/// address (second word) ends with `:<port>` decides; its last word is read
/// as the process identifier.
pub open spec fn netstat_pid_of(lines: Seq<Seq<char>>, port: u16) -> Option<int>
    decreases lines.len(),
{
    if lines.len() == 0 {
        None
    } else {
        let l = trim(lines[0], Trim::Whitespace);
        let w = words_of(l);
        if contains_exact(l, "LISTENING"@) && w.len() >= 5 && ends_with_exact(w[1], ":"@ + crate::text::decimal(port as nat)) {
            parse_unsigned(w.last(), u32::MAX as int)
        } else {
            netstat_pid_of(lines.drop_first(), port)
        }
    }
}

/// The process listening on `port`, from the OS's connection table.
pub fn pid_from_netstat(output: &str, port: u16) -> (r: Option<u32>)
    ensures
        r is None <==> netstat_pid_of(lines_of(output@), port) is None,
        r is Some ==> netstat_pid_of(lines_of(output@), port) == Some(r->0 as int),
{
    let lines = text_lines(output);
    let ghost lv = lines@.map_values(|x: Vec<char>| x@);
    let mut needle: Vec<char> = Vec::new();
    push_str(&mut needle, ":");
    crate::text::push_decimal(&mut needle, port as u64);
    let mut i: usize = 0;
    assert(lv.subrange(0, lv.len() as int) =~= lv);
    while i < lines.len()
        invariant
            lv == lines@.map_values(|x: Vec<char>| x@),
            i <= lines@.len(),
            needle@ == ":"@ + crate::text::decimal(port as nat),
            lv == lines_of(output@),
            netstat_pid_of(lv, port) == netstat_pid_of(lv.subrange(i as int, lv.len() as int), port),
        decreases lines@.len() - i,
    {
        let ghost rest = lv.subrange(i as int, lv.len() as int);
        assert(rest[0] == lines@[i as int]@);
        assert(rest.drop_first() =~= lv.subrange(i + 1, lv.len() as int));
        let l = trimmed(lines[i].as_slice(), Trim::Whitespace);
        if contains_chars(l.as_slice(), "LISTENING") {
            let w = split_words(l.as_slice());
            if w.len() >= 5 {
                let ghost wv = w@.map_values(|x: Vec<char>| x@);
                assert(wv[1] == w@[1]@);
                assert(wv.last() == w@[w@.len() - 1]@);
                let a = &w[1];
                if a.len() >= needle.len() && ends_at(a.as_slice(), a.len(), needle.as_slice()) {
                    assert(l@ == trim(rest[0], Trim::Whitespace));
                    assert(contains_exact(l@, "LISTENING"@));
                    assert(wv == words_of(l@));
                    assert(ends_with_exact(wv[1], ":"@ + crate::text::decimal(port as nat)));
                    assert(netstat_pid_of(rest, port) == parse_unsigned(wv.last(), u32::MAX as int));
                    let last = w[w.len() - 1].as_slice();
                    assert(last@ == wv.last());
                    assert(netstat_pid_of(lines_of(output@), port) == parse_unsigned(last@, u32::MAX as int));
                    let r = parse_u32(last);
                    return r;
                }
            }
        }
        i = i + 1;
    }
    None
}

/// The first position of `: ` in `s`, or -1.
pub open spec fn colon_space_index(s: Seq<char>) -> int
    decreases s.len(),
{
    if s.len() < 2 {
        -1
    } else if s[0] == ':' && s[1] == ' ' {
        0
    } else {
        let r = colon_space_index(s.drop_first());
        if r < 0 {
            -1
        } else {
            r + 1
        }
    }
}

/// The device name on a line of the PCI listing, when the line is a display
/// controller (VGA, 3D or display, in any case): the trimmed text after the
/// first `: `, if not empty.
pub open spec fn gpu_on_line(line: Seq<char>) -> Option<Seq<char>> {
    if contains_ignore_ascii_case(line, "vga"@) || contains_ignore_ascii_case(line, "3d"@)
        || contains_ignore_ascii_case(line, "display"@) {
        let k = colon_space_index(line);
        if k < 0 {
            None
        } else {
            let n = trim(line.subrange(k + 2, line.len() as int), Trim::Whitespace);
            if n.len() > 0 {
                Some(n)
            } else {
                None
            }
        }
    } else {
        None
    }
}

/// The display controllers of a PCI listing, in order.
pub open spec fn gpus_of(lines: Seq<Seq<char>>) -> Seq<Seq<char>>
    decreases lines.len(),
{
    if lines.len() == 0 {
        seq![]
    } else {
        let rest = gpus_of(lines.drop_last());
        match gpu_on_line(lines.last()) {
            Some(n) => rest.push(n),
            None => rest,
        }
    }
}

/// The GPU names of a PCI listing, joined by `, `; nothing when there are none.
pub open spec fn gpu_names_of(out: Seq<char>) -> Option<Seq<char>> {
    let g = gpus_of(lines_of(out));
    if g.len() == 0 {
        None
    } else {
        Some(crate::download::join(g, ", "@))
    }
}

fn find_colon_space(v: &[char]) -> (r: Option<usize>)
    ensures
        match r {
            Some(k) => k as int == colon_space_index(v@) && k + 2 <= v@.len(),
            None => colon_space_index(v@) < 0,
        },
{
    let n = v.len();
    let mut i: usize = 0;
    assert(v@.subrange(0, n as int) =~= v@);
    while i < n && i + 1 < n
        invariant
            n == v@.len(),
            i <= n,
            colon_space_index(v@) == if colon_space_index(v@.subrange(i as int, n as int)) < 0 {
                -1
            } else {
                colon_space_index(v@.subrange(i as int, n as int)) + i
            },
        decreases n - i,
    {
        let ghost t = v@.subrange(i as int, n as int);
        if v[i] == ':' && v[i + 1] == ' ' {
            assert(t[0] == ':' && t[1] == ' ');
            return Some(i);
        }
        assert(t.drop_first() =~= v@.subrange(i + 1, n as int));
        i = i + 1;
    }
    None
}

/// Joins character sequences with `sep` between each two.
fn join_chars(parts: &Vec<Vec<char>>, sep: &str) -> (r: Vec<char>)
    ensures
        r@ == crate::download::join(parts@.map_values(|x: Vec<char>| x@), sep@),
{
    let ghost pv = parts@.map_values(|x: Vec<char>| x@);
    let mut r: Vec<char> = Vec::new();
    if parts.len() == 0 {
        return r;
    }
    push_chars(&mut r, parts[0].as_slice());
    assert(pv.subrange(0, 1) =~= seq![pv[0]]);
    let mut i: usize = 1;
    while i < parts.len()
        invariant
            pv == parts@.map_values(|x: Vec<char>| x@),
            1 <= i <= pv.len(),
            r@ == crate::download::join(pv.subrange(0, i as int), sep@),
        decreases pv.len() - i,
    {
        push_str(&mut r, sep);
        push_chars(&mut r, parts[i].as_slice());
        assert(pv.subrange(0, i + 1).drop_last() =~= pv.subrange(0, i as int));
        i = i + 1;
    }
    assert(pv.subrange(0, pv.len() as int) =~= pv);
    r
}

/// The GPU names of a PCI listing.
pub fn gpu_names_from_listing(output: &str) -> (r: Option<String>)
    ensures
        match gpu_names_of(output@) {
            Some(n) => r is Some && r->0@ == n,
            None => r is None,
        },
{
    let lines = text_lines(output);
    let ghost lv = lines@.map_values(|x: Vec<char>| x@);
    let mut names: Vec<Vec<char>> = Vec::new();
    let mut i: usize = 0;
    while i < lines.len()
        invariant
            lv == lines@.map_values(|x: Vec<char>| x@),
            i <= lines@.len(),
            names@.map_values(|x: Vec<char>| x@) == gpus_of(lv.subrange(0, i as int)),
        decreases lines@.len() - i,
    {
        let l = lines[i].as_slice();
        let ln = l.len();
        assert(lv.subrange(0, i + 1).drop_last() =~= lv.subrange(0, i as int));
        assert(lv.subrange(0, i + 1).last() == l@);
        let ghost before = names@.map_values(|x: Vec<char>| x@);
        if contains_ci(l, "vga") || contains_ci(l, "3d") || contains_ci(l, "display") {
            if let Some(k) = find_colon_space(l) {
                let rest = slice_chars(l, k + 2, ln);
                let n = trimmed(rest.as_slice(), Trim::Whitespace);
                if n.len() > 0 {
                    names.push(n);
                    assert(names@.map_values(|x: Vec<char>| x@) =~= before.push(names@[names@.len() - 1]@));
                }
            }
        }
        i = i + 1;
    }
    assert(lv.subrange(0, lv.len() as int) =~= lv);
    if names.len() == 0 {
        return None;
    }
    let j = join_chars(&names, ", ");
    Some(string_of(j.as_slice()))
}

/// A GPU name that belongs to a virtual or remote display driver.
pub open spec fn is_virtual_display(name: Seq<char>) -> bool {
    contains_ignore_ascii_case(name, "idddriver"@) || contains_ignore_ascii_case(name, "virtual"@)
        || contains_ignore_ascii_case(name, "remote"@) || contains_ignore_ascii_case(name, "parsec"@)
        || contains_ignore_ascii_case(name, "rdp"@)
}

/// The trimmed entries of a comma-separated list that are not virtual displays.
pub open spec fn real_entries(parts: Seq<Seq<char>>) -> Seq<Seq<char>>
    decreases parts.len(),
{
    if parts.len() == 0 {
        seq![]
    } else {
        let rest = real_entries(parts.drop_last());
        let t = trim(parts.last(), Trim::Whitespace);
        if is_virtual_display(t) {
            rest
        } else {
            rest.push(t)
        }
    }
}

/// The display adapters of a comma-separated list without the virtual and
/// remote-display drivers, joined by `, `; the whole list when none is left.
pub open spec fn real_gpu_names_of(list: Seq<char>) -> Seq<char> {
    let kept = real_entries(pieces(list, Trim::Exactly(',')));
    if kept.len() > 0 {
        crate::download::join(kept, ", "@)
    } else {
        list
    }
}

/// Drops virtual and remote-display drivers from the OS's list of adapters.
pub fn real_gpu_names(list: &str) -> (r: String)
    ensures
        r@ == real_gpu_names_of(list@),
{
    let v = chars_of(list);
    let ps = split_pieces(v.as_slice(), Trim::Exactly(','));
    let ghost pv = ps@.map_values(|x: Vec<char>| x@);
    let mut kept: Vec<Vec<char>> = Vec::new();
    let mut i: usize = 0;
    while i < ps.len()
        invariant
            pv == ps@.map_values(|x: Vec<char>| x@),
            i <= ps@.len(),
            kept@.map_values(|x: Vec<char>| x@) == real_entries(pv.subrange(0, i as int)),
        decreases ps@.len() - i,
    {
        assert(pv.subrange(0, i + 1).drop_last() =~= pv.subrange(0, i as int));
        assert(pv.subrange(0, i + 1).last() == ps@[i as int]@);
        let t = trimmed(ps[i].as_slice(), Trim::Whitespace);
        let s = t.as_slice();
        let ghost before = kept@.map_values(|x: Vec<char>| x@);
        if !(contains_ci(s, "idddriver") || contains_ci(s, "virtual") || contains_ci(s, "remote")
            || contains_ci(s, "parsec") || contains_ci(s, "rdp")) {
            kept.push(t);
            assert(kept@.map_values(|x: Vec<char>| x@) =~= before.push(kept@[kept@.len() - 1]@));
        }
        i = i + 1;
    }
    assert(pv.subrange(0, pv.len() as int) =~= pv);
    if kept.len() > 0 {
        let j = join_chars(&kept, ", ");
        string_of(j.as_slice())
    } else {
        crate::text::owned(list)
    }
}


/// `s` without every leading copy of `p`.
pub open spec fn strip_all_prefix(s: Seq<char>, p: Seq<char>) -> Seq<char>
    decreases s.len(),
{
    if p.len() > 0 && p.len() <= s.len() && s.subrange(0, p.len() as int) == p {
        strip_all_prefix(s.subrange(p.len() as int, s.len() as int), p)
    } else {
        s
    }
}

/// The chipset the display report names: the first trimmed line that starts
/// with `Chipset Model:` and has a name after it.
pub open spec fn chipset_of(lines: Seq<Seq<char>>) -> Option<Seq<char>>
    decreases lines.len(),
{
    if lines.len() == 0 {
        None
    } else {
        let t = trim(lines[0], Trim::Whitespace);
        let pre = "Chipset Model:"@;
        if pre.len() <= t.len() && t.subrange(0, pre.len() as int) == pre && trim(
            strip_all_prefix(t, pre),
            Trim::Whitespace,
        ).len() > 0 {
            Some(trim(strip_all_prefix(t, pre), Trim::Whitespace))
        } else {
            chipset_of(lines.drop_first())
        }
    }
}

/// The GPU chipset named in the OS's display report.
pub fn chipset_from_profiler(output: &str) -> (r: Option<String>)
    ensures
        match chipset_of(lines_of(output@)) {
            Some(n) => r is Some && r->0@ == n,
            None => r is None,
        },
{
    let lines = text_lines(output);
    let ghost lv = lines@.map_values(|x: Vec<char>| x@);
    let pre = chars_of("Chipset Model:");
    proof {
        reveal_strlit("Chipset Model:");
    }
    let mut i: usize = 0;
    assert(lv.subrange(0, lv.len() as int) =~= lv);
    while i < lines.len()
        invariant
            lv == lines@.map_values(|x: Vec<char>| x@),
            lv == lines_of(output@),
            pre@ == "Chipset Model:"@,
            pre@.len() > 0,
            i <= lines@.len(),
            chipset_of(lv) == chipset_of(lv.subrange(i as int, lv.len() as int)),
        decreases lines@.len() - i,
    {
        let ghost rest = lv.subrange(i as int, lv.len() as int);
        assert(rest[0] == lines@[i as int]@);
        assert(rest.drop_first() =~= lv.subrange(i + 1, lv.len() as int));
        let t = trimmed(lines[i].as_slice(), Trim::Whitespace);
        let n = t.len();
        let p = pre.len();
        if p <= n && ends_at(t.as_slice(), p, pre.as_slice()) {
            let mut lo: usize = 0;
            assert(t@.subrange(0, n as int) =~= t@);
            while p <= n - lo && ends_at(t.as_slice(), lo + p, pre.as_slice())
                invariant
                    n == t@.len(),
                    p == pre@.len(),
                    p > 0,
                    lo <= n,
                    strip_all_prefix(t@, pre@) == strip_all_prefix(t@.subrange(lo as int, n as int), pre@),
                decreases n - lo,
            {
                assert(t@.subrange(lo as int, n as int).subrange(0, p as int) =~= t@.subrange(lo as int, lo + p));
                assert(t@.subrange(lo as int, n as int).subrange(p as int, n - lo) =~= t@.subrange(lo + p, n as int));
                lo = lo + p;
            }
            assert(lo + p <= n ==> t@.subrange(lo as int, n as int).subrange(0, p as int) =~= t@.subrange(lo as int, lo + p));
            let rest_chars = slice_chars(t.as_slice(), lo, n);
            let name = trimmed(rest_chars.as_slice(), Trim::Whitespace);
            if name.len() > 0 {
                return Some(string_of(name.as_slice()));
            }
        }
        i = i + 1;
    }
    None
}

} // verus!
