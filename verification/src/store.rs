//! The persistence codec.  The task entries are framed into a flat sequence
//! of words that the host persists as an opaque blob under one fixed key;
//! restoring decodes the blob and yields the same entries, content and order.
//!
//! Frame layout: the entry count, then per entry its description length, the
//! description's characters as code points, and two flag words.

use vstd::prelude::*;

use crate::state::{Entry, EntryView};

verus! {

/// The fixed key under which the host persists the entry blob.
pub fn storage_key() -> (k: &'static str)
    ensures
        k@ == "yew.keystone.self"@,
{
    "yew.keystone.self"
}

/// Whether a word is the code point of a Unicode scalar value.
pub open spec fn char_word_ok(w: u64) -> bool {
    w < 0xD800 || (0xE000 <= w && w <= 0x10FFFF)
}

/// The word a flag is framed as.
pub open spec fn bool_word(b: bool) -> u64 {
    if b {
        1u64
    } else {
        0u64
    }
}

/// The frame of one description: its length, then its code points.
pub open spec fn encode_text(s: Seq<char>) -> Seq<u64> {
    seq![s.len() as u64] + s.map_values(|c: char| c as u64)
}

/// The frame of one entry.
pub open spec fn encode_entry(e: EntryView) -> Seq<u64> {
    encode_text(e.description) + seq![bool_word(e.completed), bool_word(e.editing)]
}

/// The frames of a list of entries, in order.
pub open spec fn encode_list(es: Seq<EntryView>) -> Seq<u64>
    decreases es.len(),
{
    if es.len() == 0 {
        Seq::empty()
    } else {
        encode_entry(es[0]) + encode_list(es.drop_first())
    }
}

/// The whole blob: the entry count, then the entry frames.
pub open spec fn spec_encode(es: Seq<EntryView>) -> Seq<u64> {
    seq![es.len() as u64] + encode_list(es)
}

/// Reads one description frame; `None` on any malformed prefix.
pub open spec fn decode_text(b: Seq<u64>) -> Option<(Seq<char>, Seq<u64>)> {
    if b.len() < 1 {
        None
    } else {
        let n = b[0] as int;
        if b.len() < n + 1 {
            None
        } else if exists|i: int| 0 <= i < n && !char_word_ok(#[trigger] b[1 + i]) {
            None
        } else {
            Some(
                (
                    Seq::new(n as nat, |i: int| (b[1 + i] as u32) as char),
                    b.subrange(n + 1, b.len() as int),
                ),
            )
        }
    }
}

/// Reads one entry frame; `None` on any malformed prefix.
pub open spec fn decode_entry(b: Seq<u64>) -> Option<(EntryView, Seq<u64>)> {
    match decode_text(b) {
        None => None,
        Some((d, r)) => {
            if r.len() < 2 {
                None
            } else if !((r[0] == 0 || r[0] == 1) && (r[1] == 0 || r[1] == 1)) {
                None
            } else {
                Some(
                    (
                        EntryView { description: d, completed: r[0] == 1, editing: r[1] == 1 },
                        r.subrange(2, r.len() as int),
                    ),
                )
            }
        },
    }
}

/// Reads `n` entry frames; `None` if any is malformed.
pub open spec fn decode_list(b: Seq<u64>, n: nat) -> Option<(Seq<EntryView>, Seq<u64>)>
    decreases n,
{
    if n == 0 {
        Some((Seq::empty(), b))
    } else {
        match decode_entry(b) {
            None => None,
            Some((e, r)) => match decode_list(r, (n - 1) as nat) {
                None => None,
                Some((es, r2)) => Some((seq![e] + es, r2)),
            },
        }
    }
}

/// Decodes a whole blob back into entries; `None` unless the blob is exactly
/// one well-formed frame sequence.
pub open spec fn spec_decode(b: Seq<u64>) -> Option<Seq<EntryView>> {
    if b.len() < 1 {
        None
    } else {
        match decode_list(b.drop_first(), b[0] as nat) {
            None => None,
            Some((es, r)) => if r.len() == 0 {
                Some(es)
            } else {
                None
            },
        }
    }
}

/// Whether a character's code point lies in the Unicode scalar-value range.
/// Every value the `char` type can hold satisfies this; it is spelled out
/// because it must be stated of characters inside mathematical sequences too.
pub open spec fn char_ok(c: char) -> bool {
    0 <= c as int && ((c as int) < 0xD800 || (0xE000 <= c as int && c as int <= 0x10FFFF))
}

/// Whether every character of the text is framed as a valid scalar-value
/// word.
pub open spec fn text_ok(s: Seq<char>) -> bool {
    forall|i: int| 0 <= i < s.len() ==> char_ok(#[trigger] s[i])
}

/// Whether the entry list fits the frame: counts and lengths fit the length
/// words and every character is a scalar value.  Every list a program can
/// hold satisfies this; [`save_entries`] establishes it of its input.
pub open spec fn encodable(es: Seq<EntryView>) -> bool {
    es.len() <= u64::MAX && forall|i: int|
        0 <= i < es.len() ==> (#[trigger] es[i].description.len()) <= u64::MAX && text_ok(
            es[i].description,
        )
}

proof fn lemma_decode_text_of_encode(s: Seq<char>, rest: Seq<u64>)
    requires
        s.len() <= u64::MAX,
        text_ok(s),
    ensures
        decode_text(encode_text(s) + rest) == Some((s, rest)),
{
    let b = encode_text(s) + rest;
    let n = s.len() as int;
    let m = s.map_values(|c: char| c as u64);
    assert(b[0] == s.len() as u64);
    assert(b.subrange(1, n + 1) =~= m);
    assert forall|i: int| 0 <= i < n implies char_word_ok(#[trigger] b[1 + i]) by {
        assert(b[1 + i] == b.subrange(1, n + 1)[i]);
        assert(m[i] == s[i] as u64);
        assert(char_ok(s[i]));
        assert(s[i] as u64 == s[i] as int);
    }
    assert(Seq::new(n as nat, |i: int| (b[1 + i] as u32) as char) =~= s) by {
        assert forall|i: int| 0 <= i < n implies ((b[1 + i] as u32) as char) == s[i] by {
            assert(b[1 + i] == b.subrange(1, n + 1)[i]);
            assert(m[i] == s[i] as u64);
            assert(char_ok(s[i]));
            assert(s[i] as u64 == s[i] as int);
            assert(b[1 + i] as u32 == s[i] as int);
            assert(((b[1 + i] as u32) as char) as int == s[i] as int);
        }
    }
    assert(b.subrange(n + 1, b.len() as int) =~= rest);
}

proof fn lemma_decode_entry_of_encode(e: EntryView, rest: Seq<u64>)
    requires
        e.description.len() <= u64::MAX,
        text_ok(e.description),
    ensures
        decode_entry(encode_entry(e) + rest) == Some((e, rest)),
{
    let tail = seq![bool_word(e.completed), bool_word(e.editing)] + rest;
    assert(encode_entry(e) + rest =~= encode_text(e.description) + tail);
    lemma_decode_text_of_encode(e.description, tail);
    assert(tail.subrange(2, tail.len() as int) =~= rest);
}

proof fn lemma_decode_list_of_encode(es: Seq<EntryView>, rest: Seq<u64>)
    requires
        forall|i: int|
            0 <= i < es.len() ==> (#[trigger] es[i].description.len()) <= u64::MAX && text_ok(
                es[i].description,
            ),
    ensures
        decode_list(encode_list(es) + rest, es.len() as nat) == Some((es, rest)),
    decreases es.len(),
{
    if es.len() == 0 {
        assert(encode_list(es) + rest =~= rest);
        assert(Seq::<EntryView>::empty() =~= es);
    } else {
        let tail = encode_list(es.drop_first()) + rest;
        assert(encode_list(es) + rest =~= encode_entry(es[0]) + tail);
        lemma_decode_entry_of_encode(es[0], tail);
        lemma_decode_list_of_encode(es.drop_first(), rest);
        assert(seq![es[0]] + es.drop_first() =~= es);
    }
}

/// Round trip: a blob framed from any entry list decodes back to exactly
/// that list, content and order.  The premise holds of every entry list an
/// executable program can hold, and [`save_entries`] establishes it.
pub proof fn lemma_codec_round_trip(es: Seq<EntryView>)
    requires
        encodable(es),
    ensures
        spec_decode(spec_encode(es)) == Some(es),
{
    let b = spec_encode(es);
    assert(b.drop_first() =~= encode_list(es) + Seq::<u64>::empty());
    lemma_decode_list_of_encode(es, Seq::<u64>::empty());
    assert(b[0] as nat == es.len());
}

proof fn lemma_encode_list_push(es: Seq<EntryView>, e: EntryView)
    ensures
        encode_list(es.push(e)) == encode_list(es) + encode_entry(e),
    decreases es.len(),
{
    if es.len() == 0 {
        assert(es.push(e).drop_first() =~= Seq::<EntryView>::empty());
        assert(es.push(e)[0] == e);
        assert(encode_list(es.push(e)) == encode_entry(e) + encode_list(
            Seq::<EntryView>::empty(),
        ));
        assert(encode_entry(e) + Seq::<u64>::empty() =~= Seq::<u64>::empty() + encode_entry(e));
    } else {
        assert(es.push(e).drop_first() =~= es.drop_first().push(e));
        assert(es.push(e)[0] == es[0]);
        lemma_encode_list_push(es.drop_first(), e);
        assert(encode_list(es.push(e)) == encode_entry(es[0]) + (encode_list(es.drop_first())
            + encode_entry(e)));
        assert(encode_entry(es[0]) + (encode_list(es.drop_first()) + encode_entry(e))
            =~= (encode_entry(es[0]) + encode_list(es.drop_first())) + encode_entry(e));
    }
}

/// Relies on `char::from_u32`: `Some` exactly for Unicode scalar values, and
/// the returned character carries the given code point.
#[verifier::external_body]
fn char_from_code(u: u32) -> (r: Option<char>)
    ensures
        r == (if u < 0xD800 || (0xE000 <= u && u <= 0x10FFFF) {
            Some(u as char)
        } else {
            None::<char>
        }),
{
    char::from_u32(u)
}

/// Relies on `String::push`: appends exactly one character.
#[verifier::external_body]
fn push_char(s: &mut String, c: char)
    ensures
        final(s)@ == old(s)@.push(c),
{
    s.push(c);
}

fn write_text(blob: &mut Vec<u64>, s: &str)
    ensures
        final(blob)@ == old(blob)@ + encode_text(s@),
        text_ok(s@),
        s@.len() <= u64::MAX,
{
    let n = s.unicode_len();
    blob.push(n as u64);
    let mut i: usize = 0;
    while i < n
        invariant
            i <= n,
            n == s@.len(),
            forall|j: int| 0 <= j < i ==> char_ok(#[trigger] s@[j]),
            blob@ == old(blob)@ + seq![n as u64] + s@.subrange(0, i as int).map_values(
                |c: char| c as u64,
            ),
        decreases n - i,
    {
        let c = s.get_char(i);
        blob.push(c as u64);
        proof {
            assert(char_ok(c));
            assert(s@.subrange(0, i + 1).map_values(|c: char| c as u64) =~= s@.subrange(
                0,
                i as int,
            ).map_values(|c: char| c as u64).push(c as u64));
        }
        i = i + 1;
    }
    proof {
        assert(s@.subrange(0, n as int) =~= s@);
        assert(old(blob)@ + seq![n as u64] + s@.map_values(|c: char| c as u64) =~= old(blob)@
            + encode_text(s@));
    }
}

/// Frames the entries into the blob the host persists.
pub fn save_entries(entries: &Vec<Entry>) -> (blob: Vec<u64>)
    ensures
        blob@ == spec_encode(entries.deep_view()),
        encodable(entries.deep_view()),
{
    let ghost dv = entries.deep_view();
    let mut blob: Vec<u64> = Vec::new();
    blob.push(entries.len() as u64);
    let mut i: usize = 0;
    while i < entries.len()
        invariant
            i <= entries.len(),
            dv == entries.deep_view(),
            dv.len() == entries@.len(),
            dv.len() <= u64::MAX,
            forall|j: int|
                0 <= j < i ==> (#[trigger] dv[j].description.len()) <= u64::MAX && text_ok(
                    dv[j].description,
                ),
            blob@ == seq![dv.len() as u64] + encode_list(dv.subrange(0, i as int)),
        decreases entries.len() - i,
    {
        let ghost before = blob@;
        let e = &entries[i];
        write_text(&mut blob, e.description.as_str());
        blob.push(if e.completed { 1 } else { 0 });
        blob.push(if e.editing { 1 } else { 0 });
        proof {
            lemma_encode_list_push(dv.subrange(0, i as int), dv[i as int]);
            assert(dv.subrange(0, i + 1) =~= dv.subrange(0, i as int).push(dv[i as int]));
            assert(e.deep_view() == dv[i as int]);
            assert(blob@ =~= seq![dv.len() as u64] + encode_list(dv.subrange(0, i + 1)));
        }
        i = i + 1;
    }
    proof {
        assert(dv.subrange(0, dv.len() as int) =~= dv);
    }
    blob
}

fn read_text(blob: &Vec<u64>, pos: usize) -> (r: Option<(String, usize)>)
    requires
        pos <= blob@.len(),
    ensures
        match r {
            Some((s, new_pos)) => pos <= new_pos <= blob@.len() && decode_text(
                blob@.subrange(pos as int, blob@.len() as int),
            ) == Some((s@, blob@.subrange(new_pos as int, blob@.len() as int))),
            None => decode_text(blob@.subrange(pos as int, blob@.len() as int)) is None,
        },
{
    let ghost b = blob@.subrange(pos as int, blob@.len() as int);
    let len = blob.len();
    if pos >= len {
        return None;
    }
    let n64 = blob[pos];
    assert(b[0] == n64);
    if n64 > (len - pos - 1) as u64 {
        return None;
    }
    let n = n64 as usize;
    let mut s = String::new();
    let mut i: usize = 0;
    while i < n
        invariant
            i <= n,
            pos + 1 + n <= len,
            len == blob@.len(),
            n == n64,
            b == blob@.subrange(pos as int, blob@.len() as int),
            b[0] == n64,
            forall|j: int| 0 <= j < i ==> char_word_ok(#[trigger] b[1 + j]),
            s@ =~= Seq::new(i as nat, |j: int| (b[1 + j] as u32) as char),
        decreases n - i,
    {
        let w = blob[pos + 1 + i];
        assert(b[1 + i] == w);
        if !(w < 0xD800 || (0xE000 <= w && w <= 0x10FFFF)) {
            proof {
                assert(!char_word_ok(b[1 + i as int]));
            }
            return None;
        }
        let c = char_from_code(w as u32).unwrap();
        push_char(&mut s, c);
        proof {
            assert(s@ =~= Seq::new((i + 1) as nat, |j: int| (b[1 + j] as u32) as char));
        }
        i = i + 1;
    }
    let new_pos = pos + 1 + n;
    proof {
        assert(b.subrange(n + 1, b.len() as int) =~= blob@.subrange(
            new_pos as int,
            blob@.len() as int,
        ));
    }
    Some((s, new_pos))
}

fn read_entry(blob: &Vec<u64>, pos: usize) -> (r: Option<(Entry, usize)>)
    requires
        pos <= blob@.len(),
    ensures
        match r {
            Some((e, new_pos)) => pos <= new_pos <= blob@.len() && decode_entry(
                blob@.subrange(pos as int, blob@.len() as int),
            ) == Some((e.deep_view(), blob@.subrange(new_pos as int, blob@.len() as int))),
            None => decode_entry(blob@.subrange(pos as int, blob@.len() as int)) is None,
        },
{
    let (description, p2) = match read_text(blob, pos) {
        Some(x) => x,
        None => {
            return None;
        },
    };
    let ghost rem = blob@.subrange(p2 as int, blob@.len() as int);
    if blob.len() - p2 < 2 {
        return None;
    }
    let w1 = blob[p2];
    let w2 = blob[p2 + 1];
    assert(rem[0] == w1 && rem[1] == w2);
    if !((w1 == 0 || w1 == 1) && (w2 == 0 || w2 == 1)) {
        return None;
    }
    let new_pos = p2 + 2;
    proof {
        assert(rem.subrange(2, rem.len() as int) =~= blob@.subrange(
            new_pos as int,
            blob@.len() as int,
        ));
    }
    Some((Entry { description, completed: w1 == 1, editing: w2 == 1 }, new_pos))
}

/// Prepends already-decoded entries to the outcome of decoding the rest.
spec fn dl_prepend(p: Seq<EntryView>, o: Option<(Seq<EntryView>, Seq<u64>)>) -> Option<
    (Seq<EntryView>, Seq<u64>),
> {
    match o {
        None => None,
        Some((es, r)) => Some((p + es, r)),
    }
}

proof fn lemma_dl_step(p: Seq<EntryView>, e: EntryView, o: Option<(Seq<EntryView>, Seq<u64>)>)
    ensures
        dl_prepend(
            p,
            match o {
                None => None,
                Some((es, r)) => Some((seq![e] + es, r)),
            },
        ) == dl_prepend(p.push(e), o),
{
    match o {
        None => {},
        Some((es, r)) => {
            assert(p + (seq![e] + es) =~= p.push(e) + es);
        },
    }
}

/// Decodes a persisted blob back into entries; `None` on any malformed blob,
/// exactly as [`spec_decode`] lays it down.
pub fn restore_entries(blob: &Vec<u64>) -> (r: Option<Vec<Entry>>)
    ensures
        r.deep_view() == spec_decode(blob@),
{
    if blob.len() == 0 {
        return None;
    }
    let count = blob[0];
    let ghost tail0 = blob@.drop_first();
    let mut parsed: Vec<Entry> = Vec::new();
    let mut pos: usize = 1;
    let mut k: u64 = 0;
    proof {
        assert(tail0 =~= blob@.subrange(1, blob@.len() as int));
    }
    while k < count
        invariant
            k <= count,
            1 <= pos <= blob@.len(),
            count == blob@[0],
            blob@.len() >= 1,
            tail0 == blob@.drop_first(),
            parsed.deep_view().len() == k,
            decode_list(tail0, count as nat) == dl_prepend(
                parsed.deep_view(),
                decode_list(
                    blob@.subrange(pos as int, blob@.len() as int),
                    (count - k) as nat,
                ),
            ),
        decreases count - k,
    {
        let ghost rest = blob@.subrange(pos as int, blob@.len() as int);
        let ghost m = (count - k) as nat;
        let (e, new_pos) = match read_entry(blob, pos) {
            Some(x) => x,
            None => {
                proof {
                    assert(decode_list(rest, m) is None);
                    assert(decode_list(tail0, count as nat) is None);
                }
                return None;
            },
        };
        let ghost parsed_before = parsed.deep_view();
        parsed.push(e);
        proof {
            assert(parsed.deep_view() =~= parsed_before.push(e.deep_view()));
            let rest2 = blob@.subrange(new_pos as int, blob@.len() as int);
            assert(decode_list(rest, m) == (match decode_list(rest2, (m - 1) as nat) {
                None => None,
                Some((es, r2)) => Some((seq![e.deep_view()] + es, r2)),
            }));
            lemma_dl_step(parsed_before, e.deep_view(), decode_list(rest2, (m - 1) as nat));
        }
        pos = new_pos;
        k = k + 1;
    }
    proof {
        let rest = blob@.subrange(pos as int, blob@.len() as int);
        assert(decode_list(rest, 0) == Some((Seq::<EntryView>::empty(), rest)));
        assert(parsed.deep_view() + Seq::<EntryView>::empty() =~= parsed.deep_view());
        assert(decode_list(tail0, count as nat) == Some((parsed.deep_view(), rest)));
    }
    if pos != blob.len() {
        proof {
            assert(blob@.subrange(pos as int, blob@.len() as int).len() > 0);
        }
        return None;
    }
    proof {
        assert(blob@.subrange(pos as int, blob@.len() as int).len() == 0);
    }
    Some(parsed)
}

} // verus!
