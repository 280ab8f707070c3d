//! Text layout helpers of the palette rows: turning the matcher's character
//! positions into the UTF-8 byte ranges a text layout colours.

use vstd::prelude::*;
use vstd::utf8::{encode_scalar, encode_utf8};

verus! {

/// The byte offset of character `i` of `s` in its UTF-8 encoding.
pub open spec fn byte_offset(s: Seq<char>, i: int) -> int {
    encode_utf8(s.take(i)).len() as int
}

/// Whether character position `i` is among `indices`.
pub open spec fn is_selected(indices: Seq<usize>, i: int) -> bool {
    exists|k: int| 0 <= k < indices.len() && indices[k] == i
}

/// The byte ranges of the maximal runs of selected characters of `s` from
/// character `i` on, where `open` is the byte offset at which the run in
/// progress (if any) started.
pub open spec fn runs_from(s: Seq<char>, indices: Seq<usize>, i: int, open: Option<int>) -> Seq<(int, int)>
    decreases s.len() - i,
{
    if i >= s.len() {
        match open {
            Some(b) => seq![(b, byte_offset(s, s.len() as int))],
            None => Seq::empty(),
        }
    } else if is_selected(indices, i) {
        runs_from(s, indices, i + 1, if open is Some { open } else { Some(byte_offset(s, i)) })
    } else {
        match open {
            Some(b) => seq![(b, byte_offset(s, i))] + runs_from(s, indices, i + 1, None),
            None => runs_from(s, indices, i + 1, None),
        }
    }
}

/// The byte ranges of `s` covered by the characters at `indices`, in
/// ascending order, adjacent characters merged into one range; positions
/// past the end are ignored.
pub open spec fn byte_ranges_spec(s: Seq<char>, indices: Seq<usize>) -> Seq<(int, int)> {
    runs_from(s, indices, 0, None)
}

/// A list of `usize` pairs taken as integers.
pub open spec fn pairs_view(v: Seq<(usize, usize)>) -> Seq<(int, int)> {
    v.map_values(|p: (usize, usize)| (p.0 as int, p.1 as int))
}

/// Encoding a concatenation concatenates the encodings.
proof fn lemma_encode_concat(a: Seq<char>, b: Seq<char>)
    ensures
        encode_utf8(a + b) == encode_utf8(a) + encode_utf8(b),
    decreases a.len(),
{
    if a.len() == 0 {
        assert(a + b =~= b);
        assert(encode_utf8(a) + encode_utf8(b) =~= encode_utf8(b));
    } else {
        assert((a + b).drop_first() =~= a.drop_first() + b);
        lemma_encode_concat(a.drop_first(), b);
        assert(encode_utf8(a + b) =~= encode_utf8(a) + encode_utf8(b));
    }
}

/// One more character advances the byte offset by its encoded width, and no
/// offset exceeds the encoded length.
proof fn lemma_byte_offset_step(s: Seq<char>, i: int)
    requires
        0 <= i < s.len(),
    ensures
        byte_offset(s, i + 1) == byte_offset(s, i) + encode_scalar(s[i] as u32).len(),
        byte_offset(s, i + 1) <= encode_utf8(s).len(),
{
    assert(s.take(i + 1) =~= s.take(i) + seq![s[i]]);
    lemma_encode_concat(s.take(i), seq![s[i]]);
    let t = seq![s[i]];
    vstd::utf8::char_is_scalar(s[i]);
    assert(t.drop_first() =~= Seq::<char>::empty());
    assert(encode_utf8(t.drop_first()) =~= Seq::<u8>::empty());
    assert(encode_utf8(t) =~= encode_scalar(s[i] as u32));
    assert(s =~= s.take(i + 1) + s.skip(i + 1));
    lemma_encode_concat(s.take(i + 1), s.skip(i + 1));
}

/// Byte ranges that are each non-empty, start at or after `lo`, end at or
/// before `hi`, and are separated from their successor by at least one byte.
pub open spec fn ranges_ordered(r: Seq<(int, int)>, lo: int, hi: int) -> bool {
    &&& forall|k: int| 0 <= k < r.len() ==> lo <= (#[trigger] r[k]).0 < r[k].1 <= hi
    &&& forall|k: int| 0 <= k < r.len() - 1 ==> (#[trigger] r[k]).1 < r[k + 1].0
}

/// Each character takes at least one byte: offsets strictly increase.
proof fn lemma_byte_offset_increases(s: Seq<char>, i: int)
    requires
        0 <= i < s.len(),
    ensures
        byte_offset(s, i) < byte_offset(s, i + 1) <= encode_utf8(s).len(),
{
    lemma_byte_offset_step(s, i);
    vstd::utf8::char_is_scalar(s[i]);
}

/// The runs from character `i` on are ordered and inside the text.
proof fn lemma_runs_ordered(s: Seq<char>, indices: Seq<usize>, i: int, open: Option<int>)
    requires
        0 <= i <= s.len(),
        open matches Some(b) ==> 0 <= b < byte_offset(s, i),
    ensures
        ranges_ordered(
            runs_from(s, indices, i, open),
            match open {
                Some(b) => b,
                None => byte_offset(s, i),
            },
            encode_utf8(s).len() as int,
        ),
    decreases s.len() - i,
{
    let lo = match open {
        Some(b) => b,
        None => byte_offset(s, i),
    };
    let hi = encode_utf8(s).len() as int;
    if i >= s.len() {
        assert(s.take(s.len() as int) =~= s);
    } else {
        lemma_byte_offset_increases(s, i);
        if is_selected(indices, i) {
            let next = if open is Some { open } else { Some(byte_offset(s, i)) };
            lemma_runs_ordered(s, indices, i + 1, next);
        } else {
            lemma_runs_ordered(s, indices, i + 1, None);
            let rest = runs_from(s, indices, i + 1, None);
            match open {
                Some(b) => {
                    let r = seq![(b, byte_offset(s, i))] + rest;
                    assert forall|k: int| 0 <= k < r.len() implies lo <= (#[trigger] r[k]).0 < r[k].1 <= hi by {
                        if k > 0 {
                            assert(r[k] == rest[k - 1]);
                        }
                    }
                    assert forall|k: int| 0 <= k < r.len() - 1 implies (#[trigger] r[k]).1 < r[k + 1].0 by {
                        if k > 0 {
                            assert(r[k] == rest[k - 1]);
                            assert(r[k + 1] == rest[k]);
                        } else {
                            assert(r[1] == rest[0]);
                        }
                    }
                },
                None => {},
            }
        }
    }
}

/// The byte ranges are non-empty, ascending, never adjacent (adjacent
/// characters are merged into one range), and lie inside the text.
pub proof fn lemma_byte_ranges_ordered(s: Seq<char>, indices: Seq<usize>)
    ensures
        ranges_ordered(byte_ranges_spec(s, indices), 0, encode_utf8(s).len() as int),
{
    assert(s.take(0) =~= Seq::<char>::empty());
    lemma_runs_ordered(s, indices, 0, None);
}

/// The UTF-8 width of a character.
fn utf8_width(c: char) -> (w: usize)
    ensures
        w == encode_scalar(c as u32).len(),
{
    let u = c as u32;
    proof {
        vstd::utf8::char_is_scalar(c);
    }
    if u < 0x80 {
        1
    } else if u < 0x800 {
        2
    } else if u < 0x10000 {
        3
    } else {
        4
    }
}

/// Convert char positions (the matcher's highlight indices) into UTF-8 byte
/// ranges of `text`: one range per maximal run of adjacent selected
/// characters, in ascending order; positions past the end are skipped.
pub fn char_indices_to_byte_ranges(text: &str, indices: &[usize]) -> (r: Vec<(usize, usize)>)
    ensures
        pairs_view(r@) == byte_ranges_spec(text@, indices@),
{
    let n = text.unicode_len();
    let ghost s = text@;
    let bytes = text.as_bytes();
    let total = bytes.len();
    let mut mask: Vec<bool> = Vec::new();
    let mut i: usize = 0;
    while i < n
        invariant
            i <= n,
            mask@.len() == i,
            forall|j: int| 0 <= j < i ==> !(#[trigger] mask@[j]),
        decreases n - i,
    {
        mask.push(false);
        i = i + 1;
    }
    let mut k: usize = 0;
    while k < indices.len()
        invariant
            k <= indices@.len(),
            mask@.len() == n,
            n == s.len(),
            forall|j: int| 0 <= j < n ==> (#[trigger] mask@[j] <==> exists|q: int| 0 <= q < k && indices@[q] == j),
        decreases indices@.len() - k,
    {
        let ci = indices[k];
        if ci < n {
            mask[ci] = true;
        }
        proof {
            assert forall|j: int| 0 <= j < n implies (#[trigger] mask@[j] <==> exists|q: int| 0 <= q < k + 1 && indices@[q] == j) by {
                if indices@[k as int] == j {
                    assert(0 <= k < k + 1 && indices@[k as int] == j);
                }
            }
        }
        k = k + 1;
    }
    proof {
        assert(indices@.take(k as int) =~= indices@);
        assert forall|j: int| 0 <= j < n implies (#[trigger] mask@[j] <==> is_selected(indices@, j)) by {}
        assert(s.take(0) =~= Seq::<char>::empty());
    }
    let mut out: Vec<(usize, usize)> = Vec::new();
    let mut open: Option<usize> = None;
    let mut off: usize = 0;
    let mut i: usize = 0;
    while i < n
        invariant
            i <= n,
            n == s.len(),
            s == text@,
            total == encode_utf8(s).len(),
            mask@.len() == n,
            forall|j: int| 0 <= j < n ==> (#[trigger] mask@[j] <==> is_selected(indices@, j)),
            off == byte_offset(s, i as int),
            off <= total,
            pairs_view(out@) + runs_from(s, indices@, i as int, match open {
                Some(b) => Some(b as int),
                None => None,
            }) == byte_ranges_spec(s, indices@),
        decreases n - i,
    {
        let c = text.get_char(i);
        let w = utf8_width(c);
        proof {
            lemma_byte_offset_step(s, i as int);
        }
        let ghost before = pairs_view(out@);
        if mask[i] {
            if open.is_none() {
                open = Some(off);
            }
        } else {
            match open {
                Some(st) => {
                    out.push((st, off));
                    proof {
                        assert(pairs_view(out@) =~= before + seq![(st as int, off as int)]);
                    }
                    open = None;
                },
                None => {},
            }
        }
        off = off + w;
        i = i + 1;
    }
    match open {
        Some(st) => {
            let ghost before = pairs_view(out@);
            out.push((st, off));
            proof {
                assert(pairs_view(out@) =~= before + seq![(st as int, off as int)]);
                assert(s.take(n as int) =~= s);
            }
        },
        None => {
            proof {
                assert(pairs_view(out@) + Seq::<(int, int)>::empty() =~= pairs_view(out@));
            }
        },
    }
    out
}

} // verus!
