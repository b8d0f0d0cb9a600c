use vstd::prelude::*;
use vstd::string::StringSliceAdditionalSpecFns;

verus! {

/// Space, tab, line feed or carriage return.
pub open spec fn is_blank(c: u8) -> bool {
    c == 32 || c == 9 || c == 10 || c == 13
}

/// Three backticks start at `i`.
pub open spec fn ticks_at(b: Seq<u8>, i: int) -> bool {
    0 <= i && i + 3 <= b.len() && b[i] == 96 && b[i + 1] == 96 && b[i + 2] == 96
}

/// `lo..hi` is `s..e` without the blanks at either end (`e..e` where all of
/// it is blank).
pub open spec fn trimmed(b: Seq<u8>, s: int, e: int, lo: int, hi: int) -> bool {
    &&& s <= lo <= hi <= e
    &&& forall|i: int| s <= i < lo ==> is_blank(#[trigger] b[i])
    &&& forall|i: int| hi <= i < e ==> is_blank(#[trigger] b[i])
    &&& lo < hi ==> !is_blank(b[lo]) && !is_blank(b[hi - 1])
    &&& lo == hi ==> lo == e
}

/// `p` is the first line feed in `from..to`, or `to` where there is none.
pub open spec fn first_line_end(b: Seq<u8>, from: int, to: int, p: int) -> bool {
    &&& from <= p <= to
    &&& forall|i: int| from <= i < p ==> #[trigger] b[i] != 10
    &&& p < to ==> b[p] == 10
}

/// The span of the reply text `b` that holds its payload: the text without
/// surrounding blanks and, where it is wrapped in a Markdown code fence, without
/// the opening fence line (which may name a language) and the closing fence.
pub open spec fn payload_span(b: Seq<u8>, lo: int, hi: int, r: (int, int)) -> bool {
    if hi - lo >= 3 && ticks_at(b, lo) {
        exists|p: int|
            #[trigger] first_line_end(b, lo + 3, hi, p) && {
                let s = if p < hi { p + 1 } else { hi };
                let e = if hi - s >= 3 && ticks_at(b, hi - 3) { hi - 3 } else { hi };
                trimmed(b, s, e, r.0, r.1)
            }
    } else {
        r == (lo, hi)
    }
}

fn trim_span(b: &[u8], s: usize, e: usize) -> (r: (usize, usize))
    requires
        s <= e <= b@.len(),
    ensures
        trimmed(b@, s as int, e as int, r.0 as int, r.1 as int),
{
    let mut lo = s;
    while lo < e && (b[lo] == 32 || b[lo] == 9 || b[lo] == 10 || b[lo] == 13)
        invariant
            s <= lo <= e <= b@.len(),
            forall|i: int| s <= i < lo ==> is_blank(#[trigger] b@[i]),
        decreases e - lo,
    {
        lo = lo + 1;
    }
    if lo == e {
        return (e, e);
    }
    let mut hi = e;
    while hi > lo && (b[hi - 1] == 32 || b[hi - 1] == 9 || b[hi - 1] == 10 || b[hi - 1] == 13)
        invariant
            s <= lo < e <= b@.len(),
            lo <= hi <= e,
            !is_blank(b@[lo as int]),
            forall|i: int| hi <= i < e ==> is_blank(#[trigger] b@[i]),
        decreases hi - lo,
    {
        hi = hi - 1;
    }
    (lo, hi)
}

fn ticks(b: &[u8], i: usize) -> (r: bool)
    requires
        i + 3 <= b@.len(),
    ensures
        r == ticks_at(b@, i as int),
{
    b[i] == 96 && b[i + 1] == 96 && b[i + 2] == 96
}

/// The byte range of `text` that holds the JSON payload of a model reply,
/// with surrounding blanks and any Markdown code fence taken off.
pub fn payload_range(text: &str) -> (r: (usize, usize))
    ensures
        r.0 <= r.1 <= text.spec_bytes().len(),
        exists|lo: int, hi: int|
            trimmed(text.spec_bytes(), 0, text.spec_bytes().len() as int, lo, hi) && payload_span(
                text.spec_bytes(),
                lo,
                hi,
                (r.0 as int, r.1 as int),
            ),
{
    let b = text.as_bytes();
    let (lo, hi) = trim_span(b, 0, b.len());
    if hi - lo >= 3 && ticks(b, lo) {
        let mut p = lo + 3;
        while p < hi && b[p] != 10
            invariant
                lo + 3 <= p <= hi <= b@.len(),
                forall|i: int| lo + 3 <= i < p ==> #[trigger] b@[i] != 10,
            decreases hi - p,
        {
            p = p + 1;
        }
        let s = if p < hi { p + 1 } else { hi };
        let e = if hi - s >= 3 && ticks(b, hi - 3) { hi - 3 } else { hi };
        let r = trim_span(b, s, e);
        assert(first_line_end(b@, lo + 3, hi as int, p as int));
        r
    } else {
        (lo, hi)
    }
}

} // verus!
