//! Content capture: how a written byte range becomes text records.
//!
//! The bytes are cut at every line break; the empty fragments at the end are
//! dropped; each fragment that is left must be text and becomes one record.

use vstd::prelude::*;
use vstd::utf8::decode_first_codepoint;
use vstd::utf8::decode_utf8;
use vstd::utf8::is_char_boundary_iff_not_is_continuation_byte;
use vstd::utf8::is_leading_byte_width_1;
use vstd::utf8::length_of_first_scalar;
use vstd::utf8::pop_first_scalar;
use vstd::utf8::valid_first_scalar;
use vstd::utf8::valid_utf8;
use vstd::utf8::valid_utf8_concat;
use vstd::utf8::valid_utf8_split;

verus! {

/// The byte that ends a line.
pub const LINE_BREAK: u8 = 10;

/// The fragments between the line breaks of `data`, in order. There is one
/// more fragment than there are line breaks, and none holds a line break.
pub open spec fn fragments(data: Seq<u8>) -> Seq<Seq<u8>>
    decreases data.len(),
{
    if data.len() == 0 {
        seq![Seq::<u8>::empty()]
    } else {
        let before = fragments(data.drop_last());
        if data.last() == LINE_BREAK {
            before.push(Seq::<u8>::empty())
        } else {
            before.drop_last().push(before.last().push(data.last()))
        }
    }
}

/// `frags` without the empty fragments at its end.
pub open spec fn strip_trailing_empty(frags: Seq<Seq<u8>>) -> Seq<Seq<u8>>
    decreases frags.len(),
{
    if frags.len() > 0 && frags.last().len() == 0 {
        strip_trailing_empty(frags.drop_last())
    } else {
        frags
    }
}

/// The byte records that a written range holds.
pub open spec fn byte_records(data: Seq<u8>) -> Seq<Seq<u8>> {
    strip_trailing_empty(fragments(data))
}

/// Every fragment is well-formed UTF-8.
pub open spec fn all_text(frags: Seq<Seq<u8>>) -> bool {
    forall|i: int| 0 <= i < frags.len() ==> valid_utf8(#[trigger] frags[i])
}

/// Each fragment decoded as UTF-8.
pub open spec fn decode_all(frags: Seq<Seq<u8>>) -> Seq<Seq<char>> {
    Seq::new(frags.len(), |i: int| decode_utf8(frags[i]))
}

/// The text records that a written range holds, if all of them are text.
pub open spec fn text_records(data: Seq<u8>) -> Option<Seq<Seq<char>>> {
    if all_text(byte_records(data)) {
        Some(decode_all(byte_records(data)))
    } else {
        None
    }
}

/// The byte sequences that a vector of byte vectors holds.
pub open spec fn byte_seqs(v: Seq<Vec<u8>>) -> Seq<Seq<u8>> {
    Seq::new(v.len(), |i: int| v[i]@)
}

/// The character sequences that a vector of strings holds.
pub open spec fn lines_of(v: Seq<String>) -> Seq<Seq<char>> {
    Seq::new(v.len(), |i: int| v[i]@)
}

/// Fragments put together again, with a line break between neighbours.
pub open spec fn join_fragments(frags: Seq<Seq<u8>>) -> Seq<u8>
    decreases frags.len(),
{
    if frags.len() == 0 {
        Seq::<u8>::empty()
    } else if frags.len() == 1 {
        frags[0]
    } else {
        join_fragments(frags.drop_last()).push(LINE_BREAK) + frags.last()
    }
}

/// Cutting at the line breaks loses nothing and leaves no line break: there
/// is at least one fragment, no fragment holds a line break, and the
/// fragments joined by line breaks are the bytes that were cut.
pub proof fn law_fragments_rejoin(data: Seq<u8>)
    ensures
        fragments(data).len() >= 1,
        join_fragments(fragments(data)) == data,
        forall|i: int, j: int|
            0 <= i < fragments(data).len() && 0 <= j < fragments(data)[i].len() ==> (
            #[trigger] fragments(data)[i][j]) != LINE_BREAK,
    decreases data.len(),
{
    if data.len() == 0 {
        assert(join_fragments(fragments(data)) =~= data);
    } else {
        let shorter = data.drop_last();
        let before = fragments(shorter);
        let after = fragments(data);
        law_fragments_rejoin(shorter);
        if data.last() == LINE_BREAK {
            assert(after.drop_last() =~= before);
            assert(join_fragments(after) =~= shorter.push(LINE_BREAK));
        } else {
            let grown = before.last().push(data.last());
            if before.len() == 1 {
                assert(after =~= seq![grown]);
                assert(before[0] == shorter);
            } else {
                assert(after.drop_last() =~= before.drop_last());
                assert(join_fragments(before) == join_fragments(before.drop_last()).push(
                    LINE_BREAK,
                ) + before.last());
                assert(join_fragments(after) =~= join_fragments(before).push(data.last()));
            }
        }
        assert(shorter.push(data.last()) =~= data);
        assert forall|i: int, j: int|
            0 <= i < after.len() && 0 <= j < after[i].len() implies (#[trigger] after[i][j])
            != LINE_BREAK by {
            if i < before.len() - 1 {
                assert(after[i] == before[i]);
                assert(before[i][j] != LINE_BREAK);
            } else if data.last() != LINE_BREAK && j < before.last().len() {
                assert(before[before.len() - 1][j] != LINE_BREAK);
            }
        }
    }
}

/// The records are the fragments up to the last one that is not empty: they
/// are the first fragments, every fragment after them is empty, and the last
/// record, if there is one, is not.
pub proof fn law_records_end_with_content(frags: Seq<Seq<u8>>)
    ensures
        strip_trailing_empty(frags).len() <= frags.len(),
        strip_trailing_empty(frags) == frags.take(strip_trailing_empty(frags).len() as int),
        forall|i: int|
            strip_trailing_empty(frags).len() <= i < frags.len() ==> (#[trigger] frags[i]).len()
                == 0,
        strip_trailing_empty(frags).len() > 0 ==> strip_trailing_empty(frags).last().len() > 0,
    decreases frags.len(),
{
    if frags.len() > 0 && frags.last().len() == 0 {
        law_records_end_with_content(frags.drop_last());
        let kept = strip_trailing_empty(frags).len() as int;
        assert(frags.drop_last().take(kept) =~= frags.take(kept));
        assert forall|i: int| kept <= i < frags.len() implies (#[trigger] frags[i]).len()
            == 0 by {
            if i < frags.len() - 1 {
                assert(frags.drop_last()[i].len() == 0);
            }
        }
    } else {
        assert(frags.take(frags.len() as int) =~= frags);
    }
}

/// The place of the last line break of `data`, or -1 if it holds none.
pub open spec fn last_break(data: Seq<u8>) -> int
    decreases data.len(),
{
    if data.len() == 0 {
        -1
    } else if data.last() == LINE_BREAK {
        data.len() - 1
    } else {
        last_break(data.drop_last())
    }
}

/// The last fragment is what follows the last line break, and the fragments
/// before it are those of what precedes that line break; bytes without a
/// line break are one fragment.
pub proof fn lemma_fragments_at_last_break(data: Seq<u8>)
    ensures
        -1 <= last_break(data) < data.len(),
        last_break(data) >= 0 ==> data[last_break(data)] == LINE_BREAK,
        last_break(data) < 0 ==> fragments(data) == seq![data],
        last_break(data) >= 0 ==> fragments(data) == fragments(
            data.subrange(0, last_break(data)),
        ).push(data.subrange(last_break(data) + 1, data.len() as int)),
    decreases data.len(),
{
    let len = data.len() as int;
    if len == 0 {
        assert(data =~= Seq::<u8>::empty());
    } else {
        let shorter = data.drop_last();
        let before = fragments(shorter);
        lemma_fragments_at_last_break(shorter);
        if data.last() == LINE_BREAK {
            assert(data.subrange(0, len - 1) =~= shorter);
            assert(data.subrange(len, len) =~= Seq::<u8>::empty());
        } else {
            let p = last_break(shorter);
            if p < 0 {
                assert(before.last().push(data.last()) =~= data);
                assert(fragments(data) =~= seq![data]);
            } else {
                assert(shorter.subrange(0, p) =~= data.subrange(0, p));
                assert(shorter.subrange(p + 1, len - 1).push(data.last()) =~= data.subrange(
                    p + 1,
                    len,
                ));
                assert(before.drop_last() =~= fragments(data.subrange(0, p)));
            }
        }
    }
}

/// Text cut at a line break leaves text on both sides.
proof fn lemma_text_splits_at_break(data: Seq<u8>, p: int)
    requires
        valid_utf8(data),
        0 <= p < data.len(),
        data[p] == LINE_BREAK,
    ensures
        valid_utf8(data.subrange(0, p)),
        valid_utf8(data.subrange(p + 1, data.len() as int)),
{
    let len = data.len() as int;
    let tail = data.subrange(p, len);
    is_char_boundary_iff_not_is_continuation_byte(data, p);
    valid_utf8_split(data, p);
    assert(tail[0] == LINE_BREAK);
    assert(length_of_first_scalar(tail) == 1);
    assert(pop_first_scalar(tail) =~= data.subrange(p + 1, len));
}

/// Text, a line break and text make text.
proof fn lemma_text_joins_at_break(left: Seq<u8>, right: Seq<u8>)
    requires
        valid_utf8(left),
        valid_utf8(right),
    ensures
        valid_utf8(left.push(LINE_BREAK) + right),
{
    let one = seq![LINE_BREAK];
    assert(valid_utf8(one)) by {
        assert(one[0] == LINE_BREAK);
        assert(is_leading_byte_width_1(one[0]));
        assert(decode_first_codepoint(one) < 0x80) by {
            let b: u8 = one[0];
            assert(b & 0x7F < 0x80) by (bit_vector);
        }
        assert(valid_first_scalar(one));
        assert(pop_first_scalar(one) =~= Seq::<u8>::empty());
        reveal_with_fuel(valid_utf8, 2);
    }
    valid_utf8_concat(left, one);
    assert(left + one =~= left.push(LINE_BREAK));
    valid_utf8_concat(left.push(LINE_BREAK), right);
}

/// The fragments of text are text, and fragments that are text were cut
/// from text.
pub proof fn lemma_fragments_of_text(data: Seq<u8>)
    ensures
        all_text(fragments(data)) <==> valid_utf8(data),
    decreases data.len(),
{
    let len = data.len() as int;
    let p = last_break(data);
    lemma_fragments_at_last_break(data);
    if p >= 0 {
        let left = data.subrange(0, p);
        let right = data.subrange(p + 1, len);
        let frags = fragments(data);
        lemma_fragments_of_text(left);
        assert(data =~= left.push(LINE_BREAK) + right);
        assert(frags.last() == right);
        assert(frags.drop_last() =~= fragments(left));
        if valid_utf8(data) {
            lemma_text_splits_at_break(data, p);
            assert forall|i: int| 0 <= i < frags.len() implies valid_utf8(#[trigger] frags[i]) by {
                if i < frags.len() - 1 {
                    assert(frags[i] == fragments(left)[i]);
                }
            }
        }
        if all_text(frags) {
            assert forall|i: int| 0 <= i < fragments(left).len() implies valid_utf8(
                #[trigger] fragments(left)[i],
            ) by {
                assert(fragments(left)[i] == frags[i]);
            }
            assert(valid_utf8(frags[frags.len() - 1]));
            lemma_text_joins_at_break(left, right);
        }
    } else {
        assert(fragments(data)[0] == data);
    }
}

/// A payload holds text records exactly when it is text as a whole: a write
/// is refused for its payload exactly when the payload is not well-formed
/// UTF-8.
pub proof fn law_text_records_of_text(data: Seq<u8>)
    ensures
        text_records(data) is Some <==> valid_utf8(data),
{
    let frags = fragments(data);
    let kept = byte_records(data);
    lemma_fragments_of_text(data);
    law_records_end_with_content(frags);
    if all_text(frags) {
        assert forall|i: int| 0 <= i < kept.len() implies valid_utf8(#[trigger] kept[i]) by {
            assert(kept[i] == frags[i]);
        }
    }
    if all_text(kept) {
        assert forall|i: int| 0 <= i < frags.len() implies valid_utf8(#[trigger] frags[i]) by {
            if i < kept.len() {
                assert(frags[i] == kept[i]);
            } else {
                assert(frags[i].len() == 0);
            }
        }
    }
}

/// Decodes bytes as text with `std::str::from_utf8`. Trusted: the result is
/// `Some` exactly when the bytes are well-formed UTF-8, and then it is the
/// string that they encode.
#[verifier::external_body]
fn decode_text<'a>(bytes: &'a [u8]) -> (text: Option<&'a str>)
    ensures
        text is Some <==> valid_utf8(bytes@),
        text matches Some(s) ==> s@ == decode_utf8(bytes@),
{
    match std::str::from_utf8(bytes) {
        Ok(s) => Some(s),
        Err(_) => None,
    }
}

/// Cuts `data` at every line break.
pub fn split_fragments(data: &[u8]) -> (frags: Vec<Vec<u8>>)
    ensures
        byte_seqs(frags@) == fragments(data@),
{
    let mut done: Vec<Vec<u8>> = Vec::new();
    let mut current: Vec<u8> = Vec::new();
    let mut i: usize = 0;
    assert(data@.take(0) =~= Seq::<u8>::empty());
    assert(byte_seqs(done@).push(current@) =~= fragments(data@.take(0)));
    while i < data.len()
        invariant
            i <= data.len(),
            byte_seqs(done@).push(current@) == fragments(data@.take(i as int)),
        decreases data.len() - i,
    {
        let b: u8 = data[i];
        let ghost before = byte_seqs(done@).push(current@);
        proof {
            let next = data@.take(i + 1);
            assert(next.drop_last() =~= data@.take(i as int));
            assert(next.last() == b);
        }
        if b == LINE_BREAK {
            done.push(current);
            current = Vec::new();
            assert(byte_seqs(done@) =~= before);
        } else {
            current.push(b);
            assert(byte_seqs(done@).push(current@) =~= before.drop_last().push(
                before.last().push(b),
            ));
        }
        i += 1;
    }
    assert(data@.take(i as int) =~= data@);
    let ghost all = byte_seqs(done@).push(current@);
    done.push(current);
    assert(byte_seqs(done@) =~= all);
    done
}

/// Cuts `data` at every line break and drops the empty fragments at the end.
pub fn split_byte_records(data: &[u8]) -> (records: Vec<Vec<u8>>)
    ensures
        byte_seqs(records@) == byte_records(data@),
{
    let mut frags: Vec<Vec<u8>> = split_fragments(data);
    while frags.len() > 0 && frags[frags.len() - 1].len() == 0
        invariant
            strip_trailing_empty(byte_seqs(frags@)) == byte_records(data@),
        decreases frags.len(),
    {
        let ghost before = byte_seqs(frags@);
        frags.pop();
        assert(byte_seqs(frags@) =~= before.drop_last());
    }
    frags
}

/// Splits a written byte range into its text records. Answers `None`, and
/// nothing else, when one of the records is not text.
pub fn split_records(data: &[u8]) -> (lines: Option<Vec<String>>)
    ensures
        lines is Some <==> text_records(data@) is Some,
        lines matches Some(v) ==> Some(lines_of(v@)) == text_records(data@),
{
    let records: Vec<Vec<u8>> = split_byte_records(data);
    let mut lines: Vec<String> = Vec::new();
    let mut i: usize = 0;
    while i < records.len()
        invariant
            i <= records.len(),
            byte_seqs(records@) == byte_records(data@),
            lines@.len() == i,
            forall|j: int| 0 <= j < i ==> valid_utf8(#[trigger] byte_records(data@)[j]),
            forall|j: int|
                0 <= j < i ==> (#[trigger] lines@[j])@ == decode_utf8(byte_records(data@)[j]),
        decreases records.len() - i,
    {
        assert(byte_seqs(records@)[i as int] == records@[i as int]@);
        match decode_text(records[i].as_slice()) {
            Some(s) => {
                lines.push(s.to_owned());
            },
            None => {
                assert(!valid_utf8(byte_records(data@)[i as int]));
                return None;
            },
        }
        i += 1;
    }
    assert(byte_seqs(records@).len() == records@.len());
    assert(lines_of(lines@) =~= decode_all(byte_records(data@)));
    Some(lines)
}

} // verus!
