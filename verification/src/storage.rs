//! Derivation of the storage key under which a note is persisted:
//! `/{chat_identifier}/{compact timestamp}.md`.

use vstd::prelude::*;
use crate::numfmt::{dec_signed, push_dec_i64, lemma_dec_signed_injective};
use crate::timestamp::{lemma_compact_injective, lemma_compact_len, Timestamp};
use crate::text::chars_to_string;

verus! {

/// The storage key of a note: a slash, the decimal chat identifier, a slash,
/// the compact timestamp, and the `.md` suffix.
pub open spec fn storage_key_view(chat: int, t: Timestamp) -> Seq<char> {
    seq!['/'] + dec_signed(chat) + seq!['/'] + t.compact_view() + seq!['.', 'm', 'd']
}

/// Derive the storage key for one note.
pub fn storage_key(chat_id: i64, t: &Timestamp) -> (r: String)
    ensures
        r@ == storage_key_view(chat_id as int, *t),
{
    let mut out: Vec<char> = Vec::new();
    out.push('/');
    push_dec_i64(&mut out, chat_id);
    out.push('/');
    t.push_compact(&mut out);
    out.push('.');
    out.push('m');
    out.push('d');
    proof {
        assert(out@ =~= storage_key_view(chat_id as int, *t));
    }
    chars_to_string(&out)
}

/// The storage key determines the chat and the rendered instant: two keys of
/// well-formed timestamps coincide only for the same chat and the same
/// millisecond rendering, so two notes can only ever collide when one chat
/// writes twice within one rendered millisecond.
pub proof fn lemma_storage_key_injective(c1: int, c2: int, t1: Timestamp, t2: Timestamp)
    requires
        t1.wf(),
        t2.wf(),
        storage_key_view(c1, t1) == storage_key_view(c2, t2),
    ensures
        c1 == c2,
        t1 == t2,
{
    let k = storage_key_view(c1, t1);
    let d1 = dec_signed(c1);
    let d2 = dec_signed(c2);
    lemma_compact_len(t1);
    lemma_compact_len(t2);
    assert(storage_key_view(c1, t1).len() == 1 + d1.len() + 1 + 19 + 3);
    assert(storage_key_view(c2, t2).len() == 1 + d2.len() + 1 + 19 + 3);
    assert(d1.len() == d2.len());
    assert(d1 =~= k.subrange(1, 1 + d1.len() as int));
    assert(d2 =~= k.subrange(1, 1 + d2.len() as int));
    lemma_dec_signed_injective(c1, c2);
    assert(t1.compact_view() =~= k.subrange(
        2 + d1.len() as int,
        2 + d1.len() as int + 19,
    ));
    assert(t2.compact_view() =~= k.subrange(
        2 + d2.len() as int,
        2 + d2.len() as int + 19,
    ));
    lemma_compact_injective(t1, t2);
}

/// Two different chats always get two different storage keys, whatever the
/// timestamps of their notes: invocations for distinct chats cannot
/// interfere through the store.
pub proof fn lemma_storage_keys_independent(c1: int, c2: int, t1: Timestamp, t2: Timestamp)
    requires
        c1 != c2,
    ensures
        storage_key_view(c1, t1) != storage_key_view(c2, t2),
{
    if storage_key_view(c1, t1) == storage_key_view(c2, t2) {
        let d1 = dec_signed(c1);
        let d2 = dec_signed(c2);
        lemma_compact_len(t1);
        lemma_compact_len(t2);
        assert(storage_key_view(c1, t1).len() == 1 + d1.len() + 1 + 19 + 3);
        assert(storage_key_view(c2, t2).len() == 1 + d2.len() + 1 + 19 + 3);
        assert(d1.len() == d2.len());
        assert(d1 =~= storage_key_view(c1, t1).subrange(1, 1 + d1.len() as int));
        assert(d2 =~= storage_key_view(c2, t2).subrange(1, 1 + d2.len() as int));
        lemma_dec_signed_injective(c1, c2);
        assert(false);
    }
}

} // verus!
