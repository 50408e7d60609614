//! Text helpers that the exposition format and the collector share: decimal
//! numerals, comparison and joining of strings.

use vstd::prelude::*;
use vstd::string::*;
use vstd::utf8::*;

verus! {

/// The numeral for a digit below ten.
pub open spec fn digit_char(d: nat) -> char
    recommends
        d < 10,
{
    "0123456789"@[d as int]
}

/// `n` in base ten, without sign or leading zeros.
pub open spec fn decimal_text(n: nat) -> Seq<char>
    decreases n,
{
    if n < 10 {
        seq![digit_char(n)]
    } else {
        decimal_text(n / 10).push(digit_char(n % 10))
    }
}

/// The views of a sequence of strings.
pub open spec fn texts(v: Seq<String>) -> Seq<Seq<char>> {
    Seq::new(v.len(), |i: int| v[i]@)
}

/// The parts written one after the other with `sep` between each two.
pub open spec fn spec_join(parts: Seq<Seq<char>>, sep: Seq<char>) -> Seq<char>
    decreases parts.len(),
{
    if parts.len() == 0 {
        Seq::empty()
    } else if parts.len() == 1 {
        parts[0]
    } else {
        spec_join(parts.drop_last(), sep) + sep + parts.last()
    }
}

/// `line` stands in `text` from position `k` on, and starts a line there.
pub open spec fn line_at(text: Seq<char>, line: Seq<char>, k: int) -> bool {
    &&& 0 <= k
    &&& k + line.len() <= text.len()
    &&& text.subrange(k, k + line.len()) == line
    &&& (k == 0 || text[k - 1] == '\n')
}

/// `line` is one of the lines of `text`.
pub open spec fn has_line(text: Seq<char>, line: Seq<char>) -> bool {
    exists|k: int| #[trigger] line_at(text, line, k)
}

/// `text` is empty or its last line is closed by a line feed.
pub open spec fn closed_lines(text: Seq<char>) -> bool {
    text.len() == 0 || text.last() == '\n'
}

/// Whole lines after whole lines are whole lines.
pub proof fn lemma_closed_lines_concat(a: Seq<char>, b: Seq<char>)
    requires
        closed_lines(a),
        closed_lines(b),
    ensures
        closed_lines(a + b),
{
    if b.len() == 0 {
        assert(a + b =~= a);
    }
}

/// A line of a text is a line of any longer text that holds it after whole
/// lines.
pub proof fn lemma_line_in_context(
    before: Seq<char>,
    text: Seq<char>,
    after: Seq<char>,
    line: Seq<char>,
)
    requires
        has_line(text, line),
        closed_lines(before),
    ensures
        has_line(before + text + after, line),
{
    let k = choose|k: int| #[trigger] line_at(text, line, k);
    let whole = before + text + after;
    let at = before.len() + k;
    assert(whole.subrange(at, at + line.len()) =~= text.subrange(k, k + line.len()));
    assert(line_at(whole, line, at));
}

/// The view of an optional string.
pub open spec fn opt_text(s: Option<String>) -> Option<Seq<char>> {
    match s {
        Some(s) => Some(s@),
        None => None,
    }
}

/// The view of an optional string slice.
pub open spec fn opt_str_text(s: Option<&str>) -> Option<Seq<char>> {
    match s {
        Some(s) => Some(s@),
        None => None,
    }
}

/// Borrows what an optional string holds.
pub fn opt_as_str(s: &Option<String>) -> (r: Option<&str>)
    ensures
        opt_str_text(r) == opt_text(*s),
{
    match s {
        Some(s) => Some(s.as_str()),
        None => None,
    }
}

/// The one-character string for a digit.
fn digit_str(d: u64) -> (s: &'static str)
    requires
        d < 10,
    ensures
        s@ == seq![digit_char(d as nat)],
{
    let digits = "0123456789";
    proof {
        reveal_strlit("0123456789");
    }
    let s = digits.substring_ascii(d as usize, d as usize + 1);
    assert(s@ =~= seq![digit_char(d as nat)]);
    s
}

/// Appends `value` in base ten to `out`.
pub fn push_decimal(out: &mut String, value: u64)
    ensures
        final(out)@ == old(out)@ + decimal_text(value as nat),
    decreases value,
{
    if value >= 10 {
        push_decimal(out, value / 10);
    }
    out.append(digit_str(value % 10));
    assert(final(out)@ =~= old(out)@ + decimal_text(value as nat));
}

/// Whether two strings hold the same text.
pub fn same_text(a: &str, b: &str) -> (r: bool)
    ensures
        r == (a@ == b@),
{
    let x = a.as_bytes();
    let y = b.as_bytes();
    proof {
        encode_utf8_decode_utf8(a@);
        encode_utf8_decode_utf8(b@);
    }
    if x.len() != y.len() {
        return false;
    }
    let mut i: usize = 0;
    while i < x.len()
        invariant
            i <= x.len() == y.len(),
            forall|j: int| 0 <= j < i ==> x@[j] == y@[j],
            x@ == a.spec_bytes(),
            y@ == b.spec_bytes(),
            a@ == decode_utf8(a.spec_bytes()),
            b@ == decode_utf8(b.spec_bytes()),
        decreases x.len() - i,
    {
        if x[i] != y[i] {
            return false;
        }
        i += 1;
    }
    assert(x@ =~= y@);
    true
}

/// Joins the strings from position `from` on with `sep` between each two.
pub fn join(parts: &Vec<String>, from: usize, sep: &str) -> (r: String)
    ensures
        from <= parts.len() ==> r@ == spec_join(texts(parts@).skip(from as int), sep@),
        from > parts.len() ==> r@ == Seq::<char>::empty(),
{
    let mut out = String::new();
    if from >= parts.len() {
        return out;
    }
    let ghost all = texts(parts@).skip(from as int);
    let mut i: usize = from;
    while i < parts.len()
        invariant
            from <= i <= parts.len(),
            from < parts.len(),
            all == texts(parts@).skip(from as int),
            out@ == spec_join(all.take(i - from), sep@),
        decreases parts.len() - i,
    {
        if i > from {
            out.append(sep);
        }
        out.append(parts[i].as_str());
        proof {
            let now = all.take(i + 1 - from);
            assert(now.drop_last() =~= all.take(i - from));
            assert(now.last() == parts@[i as int]@);
            if i > from {
                assert(now.len() >= 2);
            } else {
                assert(now.len() == 1);
                assert(out@ =~= now[0]);
            }
        }
        i += 1;
    }
    assert(all.take(parts.len() - from) =~= all);
    out
}

} // verus!
