use vstd::prelude::*;

use crate::color::Color;
use vstd::std_specs::iter::IteratorSpec;
use vstd::utf8::{encode_scalar, encode_utf8};

verus! {

/// Number of bytes that the UTF-8 encoding of `c` occupies.
pub open spec fn char_width(c: char) -> nat {
    if (c as u32) < 0x80 {
        1
    } else if (c as u32) < 0x800 {
        2
    } else if (c as u32) < 0x10000 {
        3
    } else {
        4
    }
}

/// Number of bytes that the UTF-8 encoding of `s` occupies.
pub open spec fn byte_len(s: Seq<char>) -> nat
    decreases s.len(),
{
    if s.len() == 0 {
        0
    } else {
        byte_len(s.drop_last()) + char_width(s.last())
    }
}

proof fn lemma_char_width(c: char)
    ensures
        encode_scalar(c as u32).len() == char_width(c),
{
    vstd::utf8::char_is_scalar(c);
}

proof fn lemma_byte_len_first(s: Seq<char>)
    requires
        s.len() > 0,
    ensures
        byte_len(s) == char_width(s[0]) + byte_len(s.drop_first()),
    decreases s.len(),
{
    if s.len() > 1 {
        lemma_byte_len_first(s.drop_last());
        assert(s.drop_first().drop_last() =~= s.drop_last().drop_first());
    } else {
        assert(s.drop_last() =~= Seq::<char>::empty());
        assert(s.drop_first() =~= Seq::<char>::empty());
    }
}

/// `byte_len` is the length of the UTF-8 encoding.
pub proof fn lemma_byte_len_encoding(s: Seq<char>)
    ensures
        byte_len(s) == encode_utf8(s).len(),
    decreases s.len(),
{
    if s.len() > 0 {
        lemma_byte_len_first(s);
        lemma_char_width(s[0]);
        lemma_byte_len_encoding(s.drop_first());
    }
}

/// The UTF-8 width of a character, as `char::len_utf8` gives it.
pub fn utf8_width(c: char) -> (r: usize)
    ensures
        r == char_width(c),
{
    let code: u32 = c as u32;
    if code < 0x80 {
        1
    } else if code < 0x800 {
        2
    } else if code < 0x10000 {
        3
    } else {
        4
    }
}

/// A stretch of text, `len` bytes long, drawn in one colour.
#[derive(Clone, Copy, Debug, PartialEq, Eq, Structural)]
pub struct TextRun {
    pub len: usize,
    pub color: Color,
}

/// Sum of the byte lengths of `runs`.
pub open spec fn total_len(runs: Seq<TextRun>) -> nat
    decreases runs.len(),
{
    if runs.len() == 0 {
        0
    } else {
        total_len(runs.drop_last()) + runs.last().len as nat
    }
}

/// Every run is non-empty, and no two neighbouring runs share a colour.
pub open spec fn well_formed_runs(runs: Seq<TextRun>) -> bool {
    &&& forall|i: int| 0 <= i < runs.len() ==> #[trigger] runs[i].len > 0
    &&& forall|i: int| 0 < i < runs.len() ==> #[trigger] runs[i - 1].color != runs[i].color
}

/// Position of the highlight cursor once the first `n` characters of `text`
/// have been scanned. The cursor only moves forward, and only past an offset
/// that matches the character under the scan.
pub open spec fn cursor_after(text: Seq<char>, highlights: Seq<usize>, n: nat) -> nat
    decreases n,
{
    if n == 0 {
        0
    } else {
        let k = cursor_after(text, highlights, (n - 1) as nat);
        if k < highlights.len() && highlights[k as int] as int == byte_len(
            text.take(n - 1),
        ) {
            k + 1
        } else {
            k
        }
    }
}

/// Whether the character at index `i` of `text` is drawn in the highlight colour.
pub open spec fn is_highlighted(text: Seq<char>, highlights: Seq<usize>, i: nat) -> bool {
    let k = cursor_after(text, highlights, i);
    k < highlights.len() && highlights[k as int] as int == byte_len(text.take(i as int))
}

/// Colour resolved for the character at index `i` of `text`.
pub open spec fn char_color(
    text: Seq<char>,
    highlights: Seq<usize>,
    base: Color,
    highlight: Color,
    i: nat,
) -> Color {
    if is_highlighted(text, highlights, i) {
        highlight
    } else {
        base
    }
}

/// Appends a character of `width` bytes in `color`: it joins the last run when
/// that run has the same colour, and starts a new run otherwise.
pub open spec fn push_char(runs: Seq<TextRun>, width: nat, color: Color) -> Seq<TextRun> {
    if runs.len() > 0 && runs.last().color == color {
        runs.drop_last().push(TextRun { len: (runs.last().len + width) as usize, color })
    } else {
        runs.push(TextRun { len: width as usize, color })
    }
}

/// Runs of the first `n` characters of `text`.
pub open spec fn segment(
    text: Seq<char>,
    highlights: Seq<usize>,
    base: Color,
    highlight: Color,
    n: nat,
) -> Seq<TextRun>
    decreases n,
{
    if n == 0 {
        seq![]
    } else {
        push_char(
            segment(text, highlights, base, highlight, (n - 1) as nat),
            char_width(text[n - 1]),
            char_color(text, highlights, base, highlight, (n - 1) as nat),
        )
    }
}

/// Runs of the whole of `text`.
pub open spec fn runs_of(
    text: Seq<char>,
    highlights: Seq<usize>,
    base: Color,
    highlight: Color,
) -> Seq<TextRun> {
    segment(text, highlights, base, highlight, text.len())
}

proof fn lemma_take_step(s: Seq<char>, j: int)
    requires
        0 <= j < s.len(),
    ensures
        byte_len(s.take(j + 1)) == byte_len(s.take(j)) + char_width(s[j]),
{
    assert(s.take(j + 1).drop_last() =~= s.take(j));
}

/// A prefix of a text takes no more bytes than the text.
pub proof fn lemma_byte_len_prefix(s: Seq<char>, j: int)
    requires
        0 <= j <= s.len(),
    ensures
        byte_len(s.take(j)) <= byte_len(s),
    decreases s.len() - j,
{
    if j == s.len() {
        assert(s.take(j) =~= s);
    } else {
        lemma_take_step(s, j);
        lemma_byte_len_prefix(s, j + 1);
    }
}

proof fn lemma_last_le_total(runs: Seq<TextRun>)
    requires
        runs.len() > 0,
    ensures
        runs.last().len <= total_len(runs),
{
}

proof fn lemma_push_char(runs: Seq<TextRun>, width: nat, color: Color)
    requires
        well_formed_runs(runs),
        width > 0,
        total_len(runs) + width <= usize::MAX,
    ensures
        well_formed_runs(push_char(runs, width, color)),
        total_len(push_char(runs, width, color)) == total_len(runs) + width,
{
    let r = push_char(runs, width, color);
    if runs.len() > 0 && runs.last().color == color {
        lemma_last_le_total(runs);
        let d = runs.drop_last();
        assert(r.drop_last() =~= d);
        assert(total_len(runs) == total_len(d) + runs.last().len);
        assert forall|i: int| 0 < i < r.len() implies #[trigger] r[i - 1].color != r[i].color by {
            assert(runs[i - 1].color != runs[i].color);
        }
        assert forall|i: int| 0 <= i < r.len() implies #[trigger] r[i].len > 0 by {
            assert(runs[i].len > 0);
        }
    } else {
        assert(r.drop_last() =~= runs);
        assert forall|i: int| 0 < i < r.len() implies #[trigger] r[i - 1].color != r[i].color by {
            if i < runs.len() {
                assert(runs[i - 1].color != runs[i].color);
            }
        }
        assert forall|i: int| 0 <= i < r.len() implies #[trigger] r[i].len > 0 by {
            if i < runs.len() {
                assert(runs[i].len > 0);
            }
        }
    }
}

/// The runs of a prefix are well formed and cover exactly its bytes.
pub proof fn lemma_segment(
    text: Seq<char>,
    highlights: Seq<usize>,
    base: Color,
    highlight: Color,
    n: nat,
)
    requires
        n <= text.len(),
        byte_len(text) <= usize::MAX,
    ensures
        well_formed_runs(segment(text, highlights, base, highlight, n)),
        total_len(segment(text, highlights, base, highlight, n)) == byte_len(text.take(n as int)),
    decreases n,
{
    if n == 0 {
        assert(text.take(0) =~= Seq::<char>::empty());
    } else {
        let m = (n - 1) as nat;
        lemma_segment(text, highlights, base, highlight, m);
        lemma_take_step(text, m as int);
        lemma_byte_len_prefix(text, n as int);
        lemma_push_char(
            segment(text, highlights, base, highlight, m),
            char_width(text[m as int]),
            char_color(text, highlights, base, highlight, m),
        );
    }
}

/// A non-empty prefix whose characters all resolve to one colour is a single
/// run in that colour that covers all of its bytes.
pub proof fn lemma_single_run(
    text: Seq<char>,
    highlights: Seq<usize>,
    base: Color,
    highlight: Color,
    color: Color,
    n: nat,
)
    requires
        0 < n <= text.len(),
        byte_len(text) <= usize::MAX,
        forall|i: nat| i < n ==> #[trigger] char_color(text, highlights, base, highlight, i) == color,
    ensures
        segment(text, highlights, base, highlight, n) == seq![
            (TextRun { len: byte_len(text.take(n as int)) as usize, color }),
        ],
    decreases n,
{
    let m = (n - 1) as nat;
    assert(char_color(text, highlights, base, highlight, m) == color);
    lemma_take_step(text, m as int);
    lemma_byte_len_prefix(text, n as int);
    if m == 0 {
        assert(text.take(0) =~= Seq::<char>::empty());
        assert(byte_len(text.take(0)) == 0);
        assert(segment(text, highlights, base, highlight, 0) =~= Seq::<TextRun>::empty());
        assert(segment(text, highlights, base, highlight, n) =~= seq![
            (TextRun { len: byte_len(text.take(n as int)) as usize, color }),
        ]);
    } else {
        lemma_single_run(text, highlights, base, highlight, color, m);
        lemma_byte_len_prefix(text, m as int);
        let prev = segment(text, highlights, base, highlight, m);
        assert(prev.drop_last() =~= Seq::<TextRun>::empty());
        assert(prev.len() == 1 && prev.last().color == color);
        assert(segment(text, highlights, base, highlight, n) =~= seq![
            (TextRun { len: byte_len(text.take(n as int)) as usize, color }),
        ]);
    }
}

/// With no highlight offsets, a non-empty text is one run in the base colour.
pub proof fn lemma_no_highlights(
    text: Seq<char>,
    highlights: Seq<usize>,
    base: Color,
    highlight: Color,
)
    requires
        highlights.len() == 0,
        0 < text.len(),
        byte_len(text) <= usize::MAX,
    ensures
        runs_of(text, highlights, base, highlight) == seq![
            (TextRun { len: byte_len(text) as usize, color: base }),
        ],
{
    assert forall|i: nat| i < text.len() implies #[trigger] char_color(
        text,
        highlights,
        base,
        highlight,
        i,
    ) == base by {
        lemma_cursor_stays(text, highlights, i);
    }
    lemma_single_run(text, highlights, base, highlight, base, text.len());
    assert(text.take(text.len() as int) =~= text);
}

/// `highlights` lists the byte offset of every character of `text`, in order.
pub open spec fn all_offsets(text: Seq<char>, highlights: Seq<usize>) -> bool {
    &&& highlights.len() == text.len()
    &&& forall|i: int| 0 <= i < text.len() ==> #[trigger] highlights[i] as int == byte_len(
        text.take(i),
    )
}

proof fn lemma_cursor_follows(text: Seq<char>, highlights: Seq<usize>, n: nat)
    requires
        all_offsets(text, highlights),
        n <= text.len(),
    ensures
        cursor_after(text, highlights, n) == n,
    decreases n,
{
    if n > 0 {
        lemma_cursor_follows(text, highlights, (n - 1) as nat);
        assert(highlights[n - 1] as int == byte_len(text.take(n - 1)));
    }
}

/// When every character's offset is highlighted, a non-empty text is one run
/// in the highlight colour.
pub proof fn lemma_all_highlighted(
    text: Seq<char>,
    highlights: Seq<usize>,
    base: Color,
    highlight: Color,
)
    requires
        all_offsets(text, highlights),
        0 < text.len(),
        byte_len(text) <= usize::MAX,
    ensures
        runs_of(text, highlights, base, highlight) == seq![
            (TextRun { len: byte_len(text) as usize, color: highlight }),
        ],
{
    assert forall|i: nat| i < text.len() implies #[trigger] char_color(
        text,
        highlights,
        base,
        highlight,
        i,
    ) == highlight by {
        lemma_cursor_follows(text, highlights, i);
        assert(highlights[i as int] as int == byte_len(text.take(i as int)));
    }
    lemma_single_run(text, highlights, base, highlight, highlight, text.len());
    assert(text.take(text.len() as int) =~= text);
}

proof fn lemma_cursor_stays(text: Seq<char>, highlights: Seq<usize>, n: nat)
    requires
        highlights.len() == 0,
    ensures
        cursor_after(text, highlights, n) == 0,
    decreases n,
{
    if n > 0 {
        lemma_cursor_stays(text, highlights, (n - 1) as nat);
    }
}

/// Segmentation is deterministic: two segmentations of the same text with the
/// same offsets and colours give the same runs.
pub proof fn lemma_runs_deterministic(
    text: Seq<char>,
    highlights: Seq<usize>,
    base: Color,
    highlight: Color,
    first: Seq<TextRun>,
    second: Seq<TextRun>,
)
    requires
        first == runs_of(text, highlights, base, highlight),
        second == runs_of(text, highlights, base, highlight),
    ensures
        first == second,
{
}

/// Splits `text` into maximal runs of equal colour. A character is drawn in
/// `highlight` when its byte offset is the next unconsumed entry of
/// `highlights`, which is then consumed; every other character is drawn in
/// `base`. The offsets are expected in ascending order: the scan only moves
/// forward through them.
pub fn text_runs(text: &str, highlights: &[usize], base: Color, highlight: Color) -> (r: Vec<
    TextRun,
>)
    ensures
        r@ == runs_of(text@, highlights@, base, highlight),
        well_formed_runs(r@),
        total_len(r@) == byte_len(text@),
        text@.len() == 0 ==> r@.len() == 0,
        highlights@.len() == 0 && text@.len() > 0 ==> r@ == seq![
            (TextRun { len: byte_len(text@) as usize, color: base }),
        ],
        all_offsets(text@, highlights@) && text@.len() > 0 ==> r@ == seq![
            (TextRun { len: byte_len(text@) as usize, color: highlight }),
        ],
{
    broadcast use vstd::string::group_string_axioms;

    let total = text.as_bytes().len();
    proof {
        lemma_byte_len_encoding(text@);
        assert(total == byte_len(text@));
    }
    let mut chars = text.chars();
    let mut runs: Vec<TextRun> = Vec::new();
    let mut cursor: usize = 0;
    let mut offset: usize = 0;
    let ghost mut i: nat = 0;
    loop
        invariant
            i <= text@.len(),
            chars.remaining() == text@.skip(i as int),
            cursor == cursor_after(text@, highlights@, i),
            cursor <= highlights@.len(),
            offset == byte_len(text@.take(i as int)),
            runs@ == segment(text@, highlights@, base, highlight, i),
            byte_len(text@) <= usize::MAX,
        decreases text@.len() - i,
    {
        let next = chars.next();
        match next {
            None => {
                proof {
                    assert(text@.take(i as int) =~= text@);
                    lemma_segment(text@, highlights@, base, highlight, i);
                    if highlights@.len() == 0 && i > 0 {
                        lemma_no_highlights(text@, highlights@, base, highlight);
                    }
                    if all_offsets(text@, highlights@) && i > 0 {
                        lemma_all_highlighted(text@, highlights@, base, highlight);
                    }
                }
                return runs;
            },
            Some(c) => {
                proof {
                    assert(c == text@[i as int]);
                    assert(chars.remaining() =~= text@.skip(i + 1 as int));
                    lemma_segment(text@, highlights@, base, highlight, i);
                    lemma_take_step(text@, i as int);
                    lemma_byte_len_prefix(text@, i + 1 as int);
                }
                let mut color = base;
                if cursor < highlights.len() && highlights[cursor] == offset {
                    color = highlight;
                    cursor = cursor + 1;
                }
                let w = utf8_width(c);
                let n = runs.len();
                if n > 0 && runs[n - 1].color == color {
                    proof {
                        lemma_last_le_total(runs@);
                    }
                    let last = runs.pop().unwrap();
                    runs.push(TextRun { len: last.len + w, color });
                } else {
                    runs.push(TextRun { len: w, color });
                }
                offset = offset + w;
                proof {
                    i = i + 1;
                }
            },
        }
    }
}

} // verus!
